//! Algebraic laws of the matrix engine.
//!
//! Each law holds for every scalar field whose operations obey the axioms
//! its `requires` names.
use vstd::prelude::*;
use vstd::arithmetic::div_mod::lemma_fundamental_div_mod_converse;
use crate::gate::Scalars;
use crate::matrix::{
    adjoint, block_quotient, column, dot, grid2, is_grid, is_last_nonzero, is_rectangular,
    kronecker, product_of, width,
};
use crate::qubit::column2;
use crate::scalar::{apply1, apply2, tests_zero};
use crate::system::{blend, cnot_grid};

verus! {

/// `conj` undoes itself.
pub open spec fn is_involution<T, C: Fn(T) -> T>(conj: C) -> bool {
    forall|x: T| #[trigger] apply1(conj, apply1(conj, x)) == x
}

/// `zero` and `one` are the units of `add` and `mul`, and `zero` absorbs in a product.
pub open spec fn is_unital<T, M: Fn(T, T) -> T, A: Fn(T, T) -> T>(mul: M, add: A, zero: T, one: T) -> bool {
    &&& forall|x: T| #[trigger] apply2(mul, one, x) == x
    &&& forall|x: T| #[trigger] apply2(mul, x, one) == x
    &&& forall|x: T| #[trigger] apply2(mul, zero, x) == zero
    &&& forall|x: T| #[trigger] apply2(mul, x, zero) == zero
    &&& forall|x: T| #[trigger] apply2(add, x, zero) == x
    &&& forall|x: T| #[trigger] apply2(add, zero, x) == x
}

/// Dividing a product by a factor that does not test zero gives back the other factor.
pub open spec fn cancels<T, M: Fn(T, T) -> T, D: Fn(T, T) -> T, Z: Fn(T) -> bool>(
    mul: M,
    div: D,
    is_zero: Z,
) -> bool {
    forall|x: T, y: T| !tests_zero(is_zero, x) ==> #[trigger] apply2(div, apply2(mul, x, y), x) == y
}

/// Taking the conjugate transpose twice gives back the matrix.
pub proof fn lemma_adjoint_adjoint<T, C: Fn(T) -> T>(s: Seq<Seq<T>>, conj: C)
    requires
        is_rectangular(s),
        width(s) >= 1,
        is_involution(conj),
    ensures
        adjoint(adjoint(s, conj), conj) == s,
{
    let a = adjoint(s, conj);
    assert(a.len() == width(s));
    assert(width(a) == s.len());
    let b = adjoint(a, conj);
    assert(b.len() == s.len());
    assert forall|i: int| 0 <= i < s.len() implies b[i] =~= s[i] by {
        assert(s[i].len() == width(s));
        assert forall|j: int| 0 <= j < s[i].len() implies b[i][j] == s[i][j] by {
            assert(a[j][i] == apply1(conj, s[i][j]));
        }
    }
    assert(b =~= s);
}

/// The 2 by 2 identity is a unit of the matrix product, on either side.
pub proof fn lemma_identity_product<T, M: Fn(T, T) -> T, A: Fn(T, T) -> T>(
    s: Seq<Seq<T>>,
    mul: M,
    add: A,
    zero: T,
    one: T,
)
    requires
        s.len() == 2,
        s[0].len() == 2,
        s[1].len() == 2,
        is_unital(mul, add, zero, one),
    ensures
        product_of(grid2(one, zero, zero, one), s, mul, add) == s,
        product_of(s, grid2(one, zero, zero, one), mul, add) == s,
{
    let id = grid2(one, zero, zero, one);
    let l = product_of(id, s, mul, add);
    assert forall|i: int| 0 <= i < 2 implies l[i] =~= s[i] by {
        assert forall|j: int| 0 <= j < 2 implies l[i][j] == s[i][j] by {
            let ys = column(s, j);
            assert(ys[0] == s[0][j] && ys[1] == s[1][j]);
            assert(l[i][j] == dot(mul, add, id[i], ys, 2));
            assert(dot(mul, add, id[i], ys, 1) == apply2(mul, id[i][0], ys[0]));
        }
    }
    assert(l =~= s);
    let r = product_of(s, id, mul, add);
    assert forall|i: int| 0 <= i < 2 implies r[i] =~= s[i] by {
        assert forall|j: int| 0 <= j < 2 implies r[i][j] == s[i][j] by {
            let ys = column(id, j);
            assert(ys[0] == id[0][j] && ys[1] == id[1][j]);
            assert(r[i][j] == dot(mul, add, s[i], ys, 2));
            assert(dot(mul, add, s[i], ys, 1) == apply2(mul, s[i][0], ys[0]));
        }
    }
    assert(r =~= s);
}

/// Dividing block `(p, q)` of `a (x) b` by cell `(p, q)` of `a`, where that is
/// the last cell of `a` that does not test zero, gives back `b`; the blocks of
/// `a (x) b` have the size of `b`.
pub proof fn lemma_inverse_tensor_recovers<T, M: Fn(T, T) -> T, D: Fn(T, T) -> T, Z: Fn(T) -> bool>(
    a: Seq<Seq<T>>,
    b: Seq<Seq<T>>,
    mul: M,
    div: D,
    is_zero: Z,
    p: int,
    q: int,
)
    requires
        is_rectangular(a),
        is_rectangular(b),
        width(b) >= 1,
        is_last_nonzero(a, is_zero, p, q),
        cancels(mul, div, is_zero),
    ensures
        kronecker(a, b, mul).len() as int / (a.len() as int) == b.len(),
        width(kronecker(a, b, mul)) / width(a) == width(b),
        block_quotient(kronecker(a, b, mul), p, q, b.len() as int, width(b), a[p][q], div) == b,
{
    let k = kronecker(a, b, mul);
    let rb = b.len() as int;
    let cb = width(b);
    assert(width(a) >= 1);
    assert(k.len() == a.len() * rb);
    assert(a.len() * rb >= 1) by (nonlinear_arith)
        requires
            a.len() >= 1,
            rb >= 1,
    ;
    assert(k[0].len() == width(a) * cb);
    lemma_fundamental_div_mod_converse(k.len() as int, a.len() as int, rb, 0);
    lemma_fundamental_div_mod_converse(width(k), width(a), cb, 0);
    let r = block_quotient(k, p, q, rb, cb, a[p][q], div);
    assert forall|i: int| 0 <= i < rb implies r[i] =~= b[i] by {
        assert(b[i].len() == cb);
        assert forall|j: int| 0 <= j < cb implies r[i][j] == b[i][j] by {
            lemma_fundamental_div_mod_converse(p * rb + i, rb, p, i);
            lemma_fundamental_div_mod_converse(q * cb + j, cb, q, j);
            assert(p * rb + i < a.len() * rb) by (nonlinear_arith)
                requires
                    0 <= p < a.len(),
                    0 <= i < rb,
            ;
            assert(q * cb + j < width(a) * cb) by (nonlinear_arith)
                requires
                    0 <= q < width(a),
                    0 <= j < cb,
            ;
            assert(k[p * rb + i][q * cb + j] == apply2(mul, a[p][q], b[i][j]));
        }
    }
    assert(r =~= b);
}

/// A dot product of four terms, written out.
proof fn lemma_dot4<T, M: Fn(T, T) -> T, A: Fn(T, T) -> T>(mul: M, add: A, xs: Seq<T>, ys: Seq<T>)
    ensures
        dot(mul, add, xs, ys, 4) == apply2(
            add,
            apply2(
                add,
                apply2(add, apply2(mul, xs[0], ys[0]), apply2(mul, xs[1], ys[1])),
                apply2(mul, xs[2], ys[2]),
            ),
            apply2(mul, xs[3], ys[3]),
        ),
{
    assert(dot(mul, add, xs, ys, 1) == apply2(mul, xs[0], ys[0]));
    assert(dot(mul, add, xs, ys, 2) == apply2(add, dot(mul, add, xs, ys, 1), apply2(mul, xs[1], ys[1])));
    assert(dot(mul, add, xs, ys, 3) == apply2(add, dot(mul, add, xs, ys, 2), apply2(mul, xs[2], ys[2])));
}

/// CNOT with its control in `|0>` leaves the joint state `|0> (x) x` as it was.
pub proof fn lemma_cnot_control_off<T, M: Fn(T, T) -> T, A: Fn(T, T) -> T>(
    x: Seq<Seq<T>>,
    mul: M,
    add: A,
    zero: T,
    one: T,
)
    requires
        is_grid(x, 2, 1),
        is_unital(mul, add, zero, one),
    ensures
        product_of(cnot_grid(zero, one), kronecker(column2(one, zero), x, mul), mul, add)
            == kronecker(column2(one, zero), x, mul),
{
    let v = kronecker(column2(one, zero), x, mul);
    let g = cnot_grid(zero, one);
    assert(width(x) == 1);
    let k = column2(one, zero);
    assert(width(k) == 1);
    assert(v.len() == 4);
    assert(v[0][0] == apply2(mul, k[0][0], x[0][0]));
    assert(v[1][0] == apply2(mul, k[0][0], x[1][0]));
    assert(v[2][0] == apply2(mul, k[1][0], x[0][0]));
    assert(v[3][0] == apply2(mul, k[1][0], x[1][0]));
    assert(v[0][0] == x[0][0] && v[1][0] == x[1][0]);
    assert(v[2][0] == zero && v[3][0] == zero);
    let p = product_of(g, v, mul, add);
    let c = column(v, 0);
    assert(c[0] == x[0][0] && c[1] == x[1][0] && c[2] == zero && c[3] == zero);
    assert forall|i: int| 0 <= i < 4 implies p[i] =~= v[i] by {
        assert(v[i].len() == 1);
        lemma_dot4(mul, add, g[i], c);
    }
    assert(p =~= v);
}

/// The blended operator `w.0 * I + w.1 * g` with a control surely off,
/// `w = (1, 0)`, leaves a target as it was; with a control surely on,
/// `w = (0, 1)`, it is `g` itself.
pub proof fn lemma_blend_extremes<T, M: Fn(T, T) -> T, A: Fn(T, T) -> T>(
    s: Scalars<T>,
    g: Seq<Seq<T>>,
    t: Seq<Seq<T>>,
    mul: M,
    add: A,
)
    requires
        is_grid(g, 2, 2),
        is_grid(t, 2, 1),
        is_unital(mul, add, s.zero, s.one),
    ensures
        product_of(blend(s, g, (s.one, s.zero), mul, add), t, mul, add) == t,
        blend(s, g, (s.zero, s.one), mul, add) == g,
{
    let off = blend(s, g, (s.one, s.zero), mul, add);
    let id = grid2(s.one, s.zero, s.zero, s.one);
    assert forall|i: int| 0 <= i < 2 implies off[i] =~= id[i] by {}
    assert(off =~= id);
    let p = product_of(id, t, mul, add);
    assert forall|i: int| 0 <= i < 2 implies p[i] =~= t[i] by {
        let ys = column(t, 0);
        assert(dot(mul, add, id[i], ys, 1) == apply2(mul, id[i][0], ys[0]));
    }
    assert(p =~= t);
    let on = blend(s, g, (s.zero, s.one), mul, add);
    assert forall|i: int| 0 <= i < 2 implies on[i] =~= g[i] by {}
    assert(on =~= g);
}

} // verus!
