//! Dense, rectangular, row-major matrices over a caller-supplied scalar type.
use vstd::prelude::*;
use crate::scalar::{
    apply1, apply2, call1, call2, call_zero_test, is_binary_op, is_function2, is_unary_op,
    is_zero_test,
    tests_zero,
};

verus! {

/// Why a matrix could not be built.
#[derive(Clone, Copy, Debug, PartialEq, Eq, Structural)]
pub enum MatrixError {
    /// The literal has no rows.
    Empty,
    /// The rows of the literal differ in length.
    Ragged,
    /// A division by a scalar that tests zero was asked for.
    Singular,
    /// Every cell of a Kronecker factor tests zero.
    ZeroFactor,
}

/// `s` has `rows` rows of `cols` cells each.
pub open spec fn is_grid<T>(s: Seq<Seq<T>>, rows: int, cols: int) -> bool {
    &&& s.len() == rows
    &&& forall|i: int| 0 <= i < rows ==> (#[trigger] s[i]).len() == cols
}

/// The number of columns of a grid: the length of its first row.
pub open spec fn width<T>(s: Seq<Seq<T>>) -> int {
    if s.len() > 0 {
        s[0].len() as int
    } else {
        0
    }
}

/// `s` has at least one row and all its rows have the same length.
pub open spec fn is_rectangular<T>(s: Seq<Seq<T>>) -> bool {
    s.len() > 0 && is_grid(s, s.len() as int, width(s))
}

/// The cells of nested vectors.
pub open spec fn cells_of<T>(v: Seq<Vec<T>>) -> Seq<Seq<T>> {
    v.map_values(|r: Vec<T>| r@)
}

/// A grid whose every cell is `x`.
pub open spec fn filled<T>(rows: int, cols: int, x: T) -> Seq<Seq<T>> {
    Seq::new(rows as nat, |i: int| Seq::new(cols as nat, |j: int| x))
}

/// Column `c` of `s`.
pub open spec fn column<T>(s: Seq<Seq<T>>, c: int) -> Seq<T> {
    Seq::new(s.len(), |i: int| s[i][c])
}

/// The sum of the first `n` products `mul(xs[k], ys[k])`, accumulated from the left.
pub open spec fn dot<T, M: Fn(T, T) -> T, A: Fn(T, T) -> T>(
    mul: M,
    add: A,
    xs: Seq<T>,
    ys: Seq<T>,
    n: nat,
) -> T
    decreases n,
{
    if n <= 1 {
        apply2(mul, xs[0], ys[0])
    } else {
        apply2(add, dot(mul, add, xs, ys, (n - 1) as nat), apply2(mul, xs[n - 1], ys[n - 1]))
    }
}

/// The matrix product of `a` and `b`: cell `(i, j)` is the dot product of row `i`
/// of `a` with column `j` of `b`.
pub open spec fn product_of<T, M: Fn(T, T) -> T, A: Fn(T, T) -> T>(
    a: Seq<Seq<T>>,
    b: Seq<Seq<T>>,
    mul: M,
    add: A,
) -> Seq<Seq<T>> {
    Seq::new(
        a.len(),
        |i: int| Seq::new(width(b) as nat, |j: int| dot(mul, add, a[i], column(b, j), a[i].len())),
    )
}

/// The Kronecker product of `a` and `b`: cell `(i, j)` multiplies cell
/// `(i / rows(b), j / cols(b))` of `a` with cell `(i % rows(b), j % cols(b))` of `b`.
pub open spec fn kronecker<T, M: Fn(T, T) -> T>(a: Seq<Seq<T>>, b: Seq<Seq<T>>, mul: M) -> Seq<
    Seq<T>,
> {
    Seq::new(
        a.len() * b.len(),
        |i: int|
            Seq::new(
                (width(a) * width(b)) as nat,
                |j: int|
                    apply2(
                        mul,
                        a[i / (b.len() as int)][j / width(b)],
                        b[i % (b.len() as int)][j % width(b)],
                    ),
            ),
    )
}

/// `s` with rows and columns exchanged.
pub open spec fn transposed<T>(s: Seq<Seq<T>>) -> Seq<Seq<T>> {
    Seq::new(width(s) as nat, |j: int| Seq::new(s.len(), |i: int| s[i][j]))
}

/// `s` with `f` applied to every cell.
pub open spec fn mapped<T, F: Fn(T) -> T>(s: Seq<Seq<T>>, f: F) -> Seq<Seq<T>> {
    Seq::new(s.len(), |i: int| Seq::new(s[i].len(), |j: int| apply1(f, s[i][j])))
}

/// `s` with every cell `c` replaced by `f(c, x)`.
pub open spec fn with_scalar<T, F: Fn(T, T) -> T>(s: Seq<Seq<T>>, x: T, f: F) -> Seq<Seq<T>> {
    Seq::new(s.len(), |i: int| Seq::new(s[i].len(), |j: int| apply2(f, s[i][j], x)))
}

/// Cell by cell, `f` of the cells of `s` and `t`.
pub open spec fn zipped<T, F: Fn(T, T) -> T>(s: Seq<Seq<T>>, t: Seq<Seq<T>>, f: F) -> Seq<Seq<T>> {
    Seq::new(s.len(), |i: int| Seq::new(s[i].len(), |j: int| apply2(f, s[i][j], t[i][j])))
}

/// The conjugate transpose of `s`.
pub open spec fn adjoint<T, C: Fn(T) -> T>(s: Seq<Seq<T>>, conj: C) -> Seq<Seq<T>> {
    mapped(transposed(s), conj)
}

/// The 2 by 2 grid with rows `[a, b]` and `[c, d]`.
pub open spec fn grid2<T>(a: T, b: T, c: T, d: T) -> Seq<Seq<T>> {
    seq![seq![a, b], seq![c, d]]
}

/// Cell `(a, b)` comes after cell `(p, q)` in row-major order.
pub open spec fn is_after(a: int, b: int, p: int, q: int) -> bool {
    a > p || (a == p && b > q)
}

/// Every cell of `s` tests zero under `z`.
pub open spec fn all_zero<T, Z: Fn(T) -> bool>(s: Seq<Seq<T>>, z: Z) -> bool {
    forall|i: int, j: int| 0 <= i < s.len() && 0 <= j < width(s) ==> tests_zero(z, #[trigger] s[i][j])
}

/// `(p, q)` is the last cell of `s`, in row-major order, that does not test zero under `z`.
pub open spec fn is_last_nonzero<T, Z: Fn(T) -> bool>(s: Seq<Seq<T>>, z: Z, p: int, q: int) -> bool {
    &&& 0 <= p < s.len()
    &&& 0 <= q < width(s)
    &&& !tests_zero(z, s[p][q])
    &&& forall|i: int, j: int|
        0 <= i < s.len() && 0 <= j < width(s) && is_after(i, j, p, q) ==> tests_zero(
            z,
            #[trigger] s[i][j],
        )
}

/// Block `(p, q)` of `s`, of `rows` by `cols` cells, with each cell `c` replaced by `div(c, x)`.
pub open spec fn block_quotient<T, D: Fn(T, T) -> T>(
    s: Seq<Seq<T>>,
    p: int,
    q: int,
    rows: int,
    cols: int,
    x: T,
    div: D,
) -> Seq<Seq<T>> {
    Seq::new(
        rows as nat,
        |i: int| Seq::new(cols as nat, |j: int| apply2(div, s[p * rows + i][q * cols + j], x)),
    )
}

/// A matrix: `value` holds `rows` rows of `cols` scalars each.
pub struct Matrix<T> {
    pub value: Vec<Vec<T>>,
    pub rows: usize,
    pub cols: usize,
}

impl<T> View for Matrix<T> {
    type V = Seq<Seq<T>>;

    open spec fn view(&self) -> Seq<Seq<T>> {
        cells_of(self.value@)
    }
}

impl<T: Copy> Matrix<T> {
    /// The matrix has at least one row, `rows` rows in all, each of `cols` cells.
    pub open spec fn wf(&self) -> bool {
        &&& self.rows >= 1
        &&& is_grid(self@, self.rows as int, self.cols as int)
    }

    /// Builds a matrix from its rows. Fails when there are no rows or when
    /// the rows differ in length.
    pub fn new(value: Vec<Vec<T>>) -> (r: Result<Matrix<T>, MatrixError>)
        ensures
            value@.len() == 0 <==> r == Err::<Matrix<T>, MatrixError>(MatrixError::Empty),
            value@.len() > 0 && !is_rectangular(cells_of(value@)) <==> r == Err::<
                Matrix<T>,
                MatrixError,
            >(MatrixError::Ragged),
            r.is_ok() <==> is_rectangular(cells_of(value@)),
            r matches Ok(m) ==> m.wf() && m@ == cells_of(value@) && m.rows == value@.len()
                && m.cols == width(cells_of(value@)),
    {
        if value.len() == 0 {
            return Err(MatrixError::Empty);
        }
        let cols = value[0].len();
        let mut i: usize = 0;
        while i < value.len()
            invariant
                0 <= i <= value@.len(),
                cols == value@[0]@.len(),
                forall|k: int| 0 <= k < i ==> (#[trigger] value@[k])@.len() == cols,
            decreases value@.len() - i,
        {
            if value[i].len() != cols {
                proof {
                    assert(cells_of(value@)[i as int].len() != width(cells_of(value@)));
                }
                return Err(MatrixError::Ragged);
            }
            i += 1;
        }
        let rows = value.len();
        let m = Matrix { value, rows, cols };
        assert(is_grid(m@, rows as int, cols as int));
        Ok(m)
    }

    /// A `rows` by `cols` matrix with every cell `zero`.
    pub fn from_dimensions(rows: usize, cols: usize, zero: T) -> (r: Matrix<T>)
        requires
            rows >= 1,
        ensures
            r.wf(),
            r.rows == rows,
            r.cols == cols,
            r@ == filled(rows as int, cols as int, zero),
    {
        let mut value: Vec<Vec<T>> = Vec::new();
        let mut i: usize = 0;
        while i < rows
            invariant
                0 <= i <= rows,
                value@.len() == i,
                forall|k: int| 0 <= k < i ==> (#[trigger] value@[k])@ == Seq::new(cols as nat, |j: int| zero),
            decreases rows - i,
        {
            let mut row: Vec<T> = Vec::new();
            let mut j: usize = 0;
            while j < cols
                invariant
                    0 <= j <= cols,
                    row@ == Seq::new(j as nat, |k: int| zero),
                decreases cols - j,
            {
                row.push(zero);
                j += 1;
                assert(row@ =~= Seq::new(j as nat, |k: int| zero));
            }
            value.push(row);
            i += 1;
        }
        let r = Matrix { value, rows, cols };
        assert(r@ =~= filled(rows as int, cols as int, zero));
        r
    }

    /// The 2 by 2 identity matrix.
    #[allow(non_snake_case)]
    pub fn IDENTITY(zero: T, one: T) -> (r: Matrix<T>)
        ensures
            r.wf(),
            r.rows == 2,
            r.cols == 2,
            r@ == grid2(one, zero, zero, one),
    {
        Matrix::square2(one, zero, zero, one)
    }

    /// The 2 by 2 matrix with rows `[a, b]` and `[c, d]`.
    pub fn square2(a: T, b: T, c: T, d: T) -> (r: Matrix<T>)
        ensures
            r.wf(),
            r.rows == 2,
            r.cols == 2,
            r@ == grid2(a, b, c, d),
    {
        let r = Matrix { value: vec![vec![a, b], vec![c, d]], rows: 2, cols: 2 };
        assert(r@ =~= grid2(a, b, c, d));
        r
    }

    /// The dot product of row `i` of `self` with column `j` of `other`.
    fn dot_cell<M: Fn(T, T) -> T, A: Fn(T, T) -> T>(
        &self,
        other: &Matrix<T>,
        i: usize,
        j: usize,
        mul: &M,
        add: &A,
    ) -> (x: T)
        requires
            self.wf(),
            other.wf(),
            self.cols == other.rows,
            i < self.rows,
            j < other.cols,
            is_binary_op(*mul),
            is_binary_op(*add),
        ensures
            x == dot(*mul, *add, self@[i as int], column(other@, j as int), self.cols as nat),
    {
        let ghost xs = self@[i as int];
        let ghost ys = column(other@, j as int);
        let mut acc = call2(mul, self.get(i, 0), other.get(0, j));
        let mut k: usize = 1;
        while k < self.cols
            invariant
                self.wf(),
                other.wf(),
                self.cols == other.rows,
                i < self.rows,
                j < other.cols,
                is_binary_op(*mul),
                is_binary_op(*add),
                xs == self@[i as int],
                ys == column(other@, j as int),
                1 <= k <= self.cols,
                acc == dot(*mul, *add, xs, ys, k as nat),
            decreases self.cols - k,
        {
            let p = call2(mul, self.get(i, k), other.get(k, j));
            acc = call2(add, acc, p);
            k += 1;
        }
        acc
    }

    /// The matrix product `self * other`; each cell is accumulated from the left.
    pub fn product<M: Fn(T, T) -> T, A: Fn(T, T) -> T>(
        &self,
        other: &Matrix<T>,
        mul: &M,
        add: &A,
    ) -> (r: Matrix<T>)
        requires
            self.wf(),
            other.wf(),
            self.cols == other.rows,
            is_binary_op(*mul),
            is_binary_op(*add),
        ensures
            r.wf(),
            r.rows == self.rows,
            r.cols == other.cols,
            r@ == product_of(self@, other@, *mul, *add),
    {
        let ghost want = product_of(self@, other@, *mul, *add);
        let mut value: Vec<Vec<T>> = Vec::new();
        let mut i: usize = 0;
        while i < self.rows
            invariant
                self.wf(),
                other.wf(),
                self.cols == other.rows,
                is_binary_op(*mul),
                is_binary_op(*add),
                want == product_of(self@, other@, *mul, *add),
                0 <= i <= self.rows,
                value@.len() == i,
                forall|k: int| 0 <= k < i ==> (#[trigger] value@[k])@ == want[k],
            decreases self.rows - i,
        {
            assert(width(other@) == other.cols);
            let mut row: Vec<T> = Vec::new();
            let mut j: usize = 0;
            while j < other.cols
                invariant
                    self.wf(),
                    other.wf(),
                    self.cols == other.rows,
                    is_binary_op(*mul),
                    is_binary_op(*add),
                    want == product_of(self@, other@, *mul, *add),
                    i < self.rows,
                    width(other@) == other.cols,
                    0 <= j <= other.cols,
                    row@.len() == j,
                    forall|l: int| 0 <= l < j ==> row@[l] == want[i as int][l],
                decreases other.cols - j,
            {
                let x = self.dot_cell(other, i, j, mul, add);
                row.push(x);
                j += 1;
            }
            assert(row@ =~= want[i as int]);
            value.push(row);
            i += 1;
        }
        let r = Matrix { value, rows: self.rows, cols: other.cols };
        assert(r@ =~= want);
        r
    }

    /// The Kronecker product `self (x) other`.
    pub fn tensor_product<M: Fn(T, T) -> T>(&self, other: &Matrix<T>, mul: &M) -> (r: Matrix<T>)
        requires
            self.wf(),
            other.wf(),
            self.rows * other.rows <= usize::MAX,
            self.cols * other.cols <= usize::MAX,
            is_binary_op(*mul),
        ensures
            r.wf(),
            r.rows == self.rows * other.rows,
            r.cols == self.cols * other.cols,
            r@ == kronecker(self@, other@, *mul),
    {
        let ghost want = kronecker(self@, other@, *mul);
        let rows = self.rows * other.rows;
        let cols = self.cols * other.cols;
        assert(width(self@) == self.cols);
        assert(width(other@) == other.cols);
        assert(rows >= 1) by (nonlinear_arith)
            requires
                rows == self.rows * other.rows,
                self.rows >= 1,
                other.rows >= 1,
        ;
        let mut value: Vec<Vec<T>> = Vec::new();
        let mut i: usize = 0;
        while i < rows
            invariant
                self.wf(),
                other.wf(),
                is_binary_op(*mul),
                want == kronecker(self@, other@, *mul),
                rows == self.rows * other.rows,
                cols == self.cols * other.cols,
                width(self@) == self.cols,
                width(other@) == other.cols,
                0 <= i <= rows,
                value@.len() == i,
                forall|k: int| 0 <= k < i ==> (#[trigger] value@[k])@ == want[k],
            decreases rows - i,
        {
            let ar = i / other.rows;
            let br = i % other.rows;
            assert(ar < self.rows) by (nonlinear_arith)
                requires
                    i < self.rows * other.rows,
                    other.rows >= 1,
                    ar == i / other.rows,
            ;
            let mut row: Vec<T> = Vec::new();
            let mut j: usize = 0;
            while j < cols
                invariant
                    self.wf(),
                    other.wf(),
                    is_binary_op(*mul),
                    want == kronecker(self@, other@, *mul),
                    rows == self.rows * other.rows,
                    cols == self.cols * other.cols,
                    width(self@) == self.cols,
                    width(other@) == other.cols,
                    i < rows,
                    ar == i / other.rows,
                    br == i % other.rows,
                    ar < self.rows,
                    0 <= j <= cols,
                    row@.len() == j,
                    forall|l: int| 0 <= l < j ==> row@[l] == want[i as int][l],
                decreases cols - j,
            {
                assert(other.cols >= 1) by (nonlinear_arith)
                    requires
                        j < self.cols * other.cols,
                ;
                let ac = j / other.cols;
                let bc = j % other.cols;
                assert(ac < self.cols) by (nonlinear_arith)
                    requires
                        j < self.cols * other.cols,
                        other.cols >= 1,
                        ac == j / other.cols,
                ;
                let x = call2(mul, self.get(ar, ac), other.get(br, bc));
                row.push(x);
                j += 1;
            }
            assert(row@ =~= want[i as int]);
            value.push(row);
            i += 1;
        }
        let r = Matrix { value, rows, cols };
        assert(r@ =~= want);
        r
    }

    /// Cell by cell, `op` of the cell and the scalar `x` (adding, subtracting,
    /// multiplying or dividing by a scalar).
    pub fn scalar_op<F: Fn(T, T) -> T>(&self, x: T, op: &F) -> (r: Matrix<T>)
        requires
            self.wf(),
            is_function2(*op),
            forall|i: int, j: int|
                0 <= i < self.rows && 0 <= j < self.cols ==> op.requires((#[trigger] self@[i][j], x)),
        ensures
            r.wf(),
            r.rows == self.rows,
            r.cols == self.cols,
            r@ == with_scalar(self@, x, *op),
    {
        let ghost want = with_scalar(self@, x, *op);
        let mut value: Vec<Vec<T>> = Vec::new();
        let mut i: usize = 0;
        while i < self.rows
            invariant
                self.wf(),
                is_function2(*op),
                forall|i: int, j: int|
                    0 <= i < self.rows && 0 <= j < self.cols ==> op.requires((#[trigger] self@[i][j], x)),
                want == with_scalar(self@, x, *op),
                0 <= i <= self.rows,
                value@.len() == i,
                forall|k: int| 0 <= k < i ==> (#[trigger] value@[k])@ == want[k],
            decreases self.rows - i,
        {
            let mut row: Vec<T> = Vec::new();
            let mut j: usize = 0;
            while j < self.cols
                invariant
                    self.wf(),
                    is_function2(*op),
                    forall|i: int, j: int|
                        0 <= i < self.rows && 0 <= j < self.cols ==> op.requires((#[trigger] self@[i][j], x)),
                    want == with_scalar(self@, x, *op),
                    i < self.rows,
                    0 <= j <= self.cols,
                    row@.len() == j,
                    forall|l: int| 0 <= l < j ==> row@[l] == want[i as int][l],
                decreases self.cols - j,
            {
                let c = self.get(i, j);
                row.push(call2(op, c, x));
                j += 1;
            }
            assert(row@ =~= want[i as int]);
            value.push(row);
            i += 1;
        }
        let r = Matrix { value, rows: self.rows, cols: self.cols };
        assert(r@ =~= want);
        r
    }

    /// Cell by cell, `op` of the cells of `self` and `other` (adding or
    /// subtracting matrices of one size).
    pub fn elementwise<F: Fn(T, T) -> T>(&self, other: &Matrix<T>, op: &F) -> (r: Matrix<T>)
        requires
            self.wf(),
            other.wf(),
            self.rows == other.rows,
            self.cols == other.cols,
            is_binary_op(*op),
        ensures
            r.wf(),
            r.rows == self.rows,
            r.cols == self.cols,
            r@ == zipped(self@, other@, *op),
    {
        let ghost want = zipped(self@, other@, *op);
        let mut value: Vec<Vec<T>> = Vec::new();
        let mut i: usize = 0;
        while i < self.rows
            invariant
                self.wf(),
                other.wf(),
                self.rows == other.rows,
                self.cols == other.cols,
                is_binary_op(*op),
                want == zipped(self@, other@, *op),
                0 <= i <= self.rows,
                value@.len() == i,
                forall|k: int| 0 <= k < i ==> (#[trigger] value@[k])@ == want[k],
            decreases self.rows - i,
        {
            let mut row: Vec<T> = Vec::new();
            let mut j: usize = 0;
            while j < self.cols
                invariant
                    self.wf(),
                    other.wf(),
                    self.rows == other.rows,
                    self.cols == other.cols,
                    is_binary_op(*op),
                    want == zipped(self@, other@, *op),
                    i < self.rows,
                    0 <= j <= self.cols,
                    row@.len() == j,
                    forall|l: int| 0 <= l < j ==> row@[l] == want[i as int][l],
                decreases self.cols - j,
            {
                row.push(call2(op, self.get(i, j), other.get(i, j)));
                j += 1;
            }
            assert(row@ =~= want[i as int]);
            value.push(row);
            i += 1;
        }
        let r = Matrix { value, rows: self.rows, cols: self.cols };
        assert(r@ =~= want);
        r
    }

    /// Applies `conj` to every cell, in place.
    pub fn conjugate<C: Fn(T) -> T>(&mut self, conj: &C)
        requires
            old(self).wf(),
            is_unary_op(*conj),
        ensures
            final(self).wf(),
            final(self).rows == old(self).rows,
            final(self).cols == old(self).cols,
            final(self)@ == mapped(old(self)@, *conj),
    {
        let ghost want = mapped(self@, *conj);
        let mut value: Vec<Vec<T>> = Vec::new();
        let mut i: usize = 0;
        while i < self.rows
            invariant
                self.wf(),
                is_unary_op(*conj),
                want == mapped(self@, *conj),
                0 <= i <= self.rows,
                value@.len() == i,
                forall|k: int| 0 <= k < i ==> (#[trigger] value@[k])@ == want[k],
            decreases self.rows - i,
        {
            let mut row: Vec<T> = Vec::new();
            let mut j: usize = 0;
            while j < self.cols
                invariant
                    self.wf(),
                    is_unary_op(*conj),
                    want == mapped(self@, *conj),
                    i < self.rows,
                    0 <= j <= self.cols,
                    row@.len() == j,
                    forall|l: int| 0 <= l < j ==> row@[l] == want[i as int][l],
                decreases self.cols - j,
            {
                row.push(call1(conj, self.get(i, j)));
                j += 1;
            }
            assert(row@ =~= want[i as int]);
            value.push(row);
            i += 1;
        }
        self.value = value;
        assert(self@ =~= want);
    }

    /// Exchanges rows and columns, in place.
    pub fn transpose(&mut self)
        requires
            old(self).wf(),
            old(self).cols >= 1,
        ensures
            final(self).wf(),
            final(self).rows == old(self).cols,
            final(self).cols == old(self).rows,
            final(self)@ == transposed(old(self)@),
    {
        let ghost want = transposed(self@);
        assert(width(self@) == self.cols);
        let mut value: Vec<Vec<T>> = Vec::new();
        let mut j: usize = 0;
        while j < self.cols
            invariant
                self.wf(),
                want == transposed(self@),
                width(self@) == self.cols,
                0 <= j <= self.cols,
                value@.len() == j,
                forall|k: int| 0 <= k < j ==> (#[trigger] value@[k])@ == want[k],
            decreases self.cols - j,
        {
            let mut row: Vec<T> = Vec::new();
            let mut i: usize = 0;
            while i < self.rows
                invariant
                    self.wf(),
                    want == transposed(self@),
                    width(self@) == self.cols,
                    j < self.cols,
                    0 <= i <= self.rows,
                    row@.len() == i,
                    forall|l: int| 0 <= l < i ==> row@[l] == want[j as int][l],
                decreases self.rows - i,
            {
                row.push(self.get(i, j));
                i += 1;
            }
            assert(row@ =~= want[j as int]);
            value.push(row);
            j += 1;
        }
        let rows = self.rows;
        self.rows = self.cols;
        self.cols = rows;
        self.value = value;
        assert(self@ =~= want);
    }

    /// Replaces the matrix with its conjugate transpose: transposes, then conjugates.
    pub fn adjunct<C: Fn(T) -> T>(&mut self, conj: &C)
        requires
            old(self).wf(),
            old(self).cols >= 1,
            is_unary_op(*conj),
        ensures
            final(self).wf(),
            final(self).rows == old(self).cols,
            final(self).cols == old(self).rows,
            final(self)@ == adjoint(old(self)@, *conj),
    {
        self.transpose();
        self.conjugate(conj);
    }

    /// A copy of the matrix.
    pub fn copy(&self) -> (r: Matrix<T>)
        requires
            self.wf(),
        ensures
            r.wf(),
            r.rows == self.rows,
            r.cols == self.cols,
            r@ == self@,
    {
        let mut value: Vec<Vec<T>> = Vec::new();
        let mut i: usize = 0;
        while i < self.rows
            invariant
                self.wf(),
                0 <= i <= self.rows,
                value@.len() == i,
                forall|k: int| 0 <= k < i ==> (#[trigger] value@[k])@ == self@[k],
            decreases self.rows - i,
        {
            let mut row: Vec<T> = Vec::new();
            let mut j: usize = 0;
            while j < self.cols
                invariant
                    self.wf(),
                    i < self.rows,
                    0 <= j <= self.cols,
                    row@.len() == j,
                    forall|l: int| 0 <= l < j ==> row@[l] == self@[i as int][l],
                decreases self.cols - j,
            {
                row.push(self.get(i, j));
                j += 1;
            }
            assert(row@ =~= self@[i as int]);
            value.push(row);
            i += 1;
        }
        let r = Matrix { value, rows: self.rows, cols: self.cols };
        assert(r@ =~= self@);
        r
    }

    /// The determinant `a * d - b * c` of a 2 by 2 matrix `[[a, b], [c, d]]`.
    pub fn determinant<M: Fn(T, T) -> T, S: Fn(T, T) -> T>(&self, mul: &M, sub: &S) -> (r: T)
        requires
            self.wf(),
            self.rows == 2,
            self.cols == 2,
            is_binary_op(*mul),
            is_binary_op(*sub),
        ensures
            r == apply2(
                *sub,
                apply2(*mul, self@[0][0], self@[1][1]),
                apply2(*mul, self@[0][1], self@[1][0]),
            ),
    {
        let ad = call2(mul, self.get(0, 0), self.get(1, 1));
        let bc = call2(mul, self.get(0, 1), self.get(1, 0));
        call2(sub, ad, bc)
    }

    /// Inverts a 2 by 2 matrix `[[a, b], [c, d]]` in place: it becomes
    /// `[[d / det, -b / det], [-c / det, a / det]]`. Fails, leaving the matrix
    /// as it was, when the determinant tests zero.
    pub fn invert<M: Fn(T, T) -> T, S: Fn(T, T) -> T, N: Fn(T) -> T, D: Fn(T, T) -> T, Z: Fn(T) -> bool>(
        &mut self,
        mul: &M,
        sub: &S,
        neg: &N,
        div: &D,
        is_zero: &Z,
    ) -> (r: Result<(), MatrixError>)
        requires
            old(self).wf(),
            old(self).rows == 2,
            old(self).cols == 2,
            is_binary_op(*mul),
            is_binary_op(*sub),
            is_unary_op(*neg),
            is_zero_test(*is_zero),
            is_function2(*div),
            forall|x: T, y: T| !tests_zero(*is_zero, y) ==> #[trigger] div.requires((x, y)),
        ensures
            ({
                let s = old(self)@;
                let det = apply2(
                    *sub,
                    apply2(*mul, s[0][0], s[1][1]),
                    apply2(*mul, s[0][1], s[1][0]),
                );
                &&& tests_zero(*is_zero, det) ==> r == Err::<(), MatrixError>(MatrixError::Singular)
                    && *final(self) == *old(self)
                &&& !tests_zero(*is_zero, det) ==> r.is_ok() && final(self).wf() && final(self).rows
                    == 2 && final(self).cols == 2 && final(self)@ == grid2(
                    apply2(*div, s[1][1], det),
                    apply2(*div, apply1(*neg, s[0][1]), det),
                    apply2(*div, apply1(*neg, s[1][0]), det),
                    apply2(*div, s[0][0], det),
                )
            }),
    {
        let det = self.determinant(mul, sub);
        if call_zero_test(is_zero, det) {
            return Err(MatrixError::Singular);
        }
        let a = self.get(0, 0);
        let b = self.get(0, 1);
        let c = self.get(1, 0);
        let d = self.get(1, 1);
        let nb = call1(neg, b);
        let nc = call1(neg, c);
        *self = Matrix::square2(call2(div, d, det), call2(div, nb, det), call2(div, nc, det), call2(div, a, det));
        Ok(())
    }

    /// The inner product of two columns: the single cell of `adjoint(self) * other`.
    pub fn inner_product<C: Fn(T) -> T, M: Fn(T, T) -> T, A: Fn(T, T) -> T>(
        &self,
        other: &Matrix<T>,
        conj: &C,
        mul: &M,
        add: &A,
    ) -> (r: T)
        requires
            self.wf(),
            other.wf(),
            self.cols == 1,
            other.cols == 1,
            self.rows == other.rows,
            is_unary_op(*conj),
            is_binary_op(*mul),
            is_binary_op(*add),
        ensures
            r == product_of(adjoint(self@, *conj), other@, *mul, *add)[0][0],
    {
        let mut a = self.copy();
        a.adjunct(conj);
        let p = a.product(other, mul, add);
        p.get(0, 0)
    }

    /// The outer product of two columns: `self * adjoint(other)`.
    pub fn outer_product<C: Fn(T) -> T, M: Fn(T, T) -> T, A: Fn(T, T) -> T>(
        &self,
        other: &Matrix<T>,
        conj: &C,
        mul: &M,
        add: &A,
    ) -> (r: Matrix<T>)
        requires
            self.wf(),
            other.wf(),
            self.cols == 1,
            other.cols == 1,
            is_unary_op(*conj),
            is_binary_op(*mul),
            is_binary_op(*add),
        ensures
            r.wf(),
            r.rows == self.rows,
            r.cols == other.rows,
            r@ == product_of(self@, adjoint(other@, *conj), *mul, *add),
    {
        let mut b = other.copy();
        b.adjunct(conj);
        self.product(&b, mul, add)
    }

    /// The last cell of `self`, in row-major order, that does not test zero;
    /// `None` when every cell tests zero.
    fn last_nonzero<Z: Fn(T) -> bool>(&self, is_zero: &Z) -> (r: Option<(usize, usize)>)
        requires
            self.wf(),
            is_zero_test(*is_zero),
        ensures
            r is None <==> all_zero(self@, *is_zero),
            r matches Some((p, q)) ==> is_last_nonzero(self@, *is_zero, p as int, q as int),
    {
        assert(width(self@) == self.cols);
        let mut found: Option<(usize, usize)> = None;
        let mut i: usize = 0;
        while i < self.rows
            invariant
                self.wf(),
                is_zero_test(*is_zero),
                width(self@) == self.cols,
                0 <= i <= self.rows,
                found is None ==> forall|a: int, b: int|
                    0 <= a < i && 0 <= b < self.cols ==> tests_zero(*is_zero, #[trigger] self@[a][b]),
                found matches Some((p, q)) ==> {
                    &&& p < i && q < self.cols
                    &&& !tests_zero(*is_zero, self@[p as int][q as int])
                    &&& forall|a: int, b: int|
                        0 <= a < i && 0 <= b < self.cols && is_after(a, b, p as int, q as int)
                            ==> tests_zero(*is_zero, #[trigger] self@[a][b])
                },
            decreases self.rows - i,
        {
            let mut j: usize = 0;
            while j < self.cols
                invariant
                    self.wf(),
                    is_zero_test(*is_zero),
                    width(self@) == self.cols,
                    i < self.rows,
                    0 <= j <= self.cols,
                    found is None ==> forall|a: int, b: int|
                        (0 <= a < i && 0 <= b < self.cols) || (a == i && 0 <= b < j) ==> tests_zero(
                            *is_zero,
                            #[trigger] self@[a][b],
                        ),
                    found matches Some((p, q)) ==> {
                        &&& (p < i && q < self.cols) || (p == i && q < j)
                        &&& !tests_zero(*is_zero, self@[p as int][q as int])
                        &&& forall|a: int, b: int|
                            ((0 <= a < i && 0 <= b < self.cols) || (a == i && 0 <= b < j))
                                && is_after(a, b, p as int, q as int) ==> tests_zero(
                                *is_zero,
                                #[trigger] self@[a][b],
                            )
                    },
                decreases self.cols - j,
            {
                if !call_zero_test(is_zero, self.get(i, j)) {
                    found = Some((i, j));
                }
                j += 1;
            }
            i += 1;
        }
        found
    }

    /// Recovers `b` from `self == base (x) b`: with `(p, q)` the last cell of
    /// `base` that does not test zero, block `(p, q)` of `self` divided by that
    /// cell. Fails when every cell of `base` tests zero.
    pub fn inverse_tensor_product<D: Fn(T, T) -> T, Z: Fn(T) -> bool>(
        &self,
        base: &Matrix<T>,
        div: &D,
        is_zero: &Z,
    ) -> (r: Result<Matrix<T>, MatrixError>)
        requires
            self.wf(),
            base.wf(),
            base.cols >= 1,
            self.rows % base.rows == 0,
            self.cols % base.cols == 0,
            is_zero_test(*is_zero),
            is_function2(*div),
            forall|x: T, y: T| !tests_zero(*is_zero, y) ==> #[trigger] div.requires((x, y)),
        ensures
            r == Err::<Matrix<T>, MatrixError>(MatrixError::ZeroFactor) <==> all_zero(base@, *is_zero),
            r.is_ok() <==> !all_zero(base@, *is_zero),
            r matches Ok(m) ==> {
                &&& m.wf()
                &&& m.rows == self.rows / base.rows
                &&& m.cols == self.cols / base.cols
                &&& exists|p: int, q: int|
                    is_last_nonzero(base@, *is_zero, p, q) && m@ == block_quotient(
                        self@,
                        p,
                        q,
                        m.rows as int,
                        m.cols as int,
                        base@[p][q],
                        *div,
                    )
            },
    {
        let pivot = base.last_nonzero(is_zero);
        match pivot {
            None => Err(MatrixError::ZeroFactor),
            Some((p, q)) => {
                let mr = self.rows / base.rows;
                let mc = self.cols / base.cols;
                let x = base.get(p, q);
                let ghost want = block_quotient(self@, p as int, q as int, mr as int, mc as int, x, *div);
                assert(mr >= 1 && mr * base.rows == self.rows) by (nonlinear_arith)
                    requires
                        self.rows % base.rows == 0,
                        mr == self.rows / base.rows,
                        self.rows >= 1,
                        base.rows >= 1,
                ;
                assert(mc * base.cols == self.cols) by (nonlinear_arith)
                    requires
                        self.cols % base.cols == 0,
                        mc == self.cols / base.cols,
                        base.cols >= 1,
                ;
                let mut value: Vec<Vec<T>> = Vec::new();
                let mut i: usize = 0;
                while i < mr
                    invariant
                        self.wf(),
                        base.wf(),
                        is_zero_test(*is_zero),
                        is_function2(*div),
                        forall|x: T, y: T| !tests_zero(*is_zero, y) ==> #[trigger] div.requires((x, y)),
                        is_last_nonzero(base@, *is_zero, p as int, q as int),
                        x == base@[p as int][q as int],
                        mr * base.rows == self.rows,
                        mc * base.cols == self.cols,
                        want == block_quotient(self@, p as int, q as int, mr as int, mc as int, x, *div),
                        0 <= i <= mr,
                        value@.len() == i,
                        forall|k: int| 0 <= k < i ==> (#[trigger] value@[k])@ == want[k],
                    decreases mr - i,
                {
                    assert(p * mr + i < self.rows) by (nonlinear_arith)
                        requires
                            p < base.rows,
                            i < mr,
                            mr * base.rows == self.rows,
                    ;
                    let row_idx = p * mr + i;
                    let mut row: Vec<T> = Vec::new();
                    let mut j: usize = 0;
                    while j < mc
                        invariant
                            self.wf(),
                            base.wf(),
                            is_zero_test(*is_zero),
                            is_function2(*div),
                            forall|x: T, y: T| !tests_zero(*is_zero, y) ==> #[trigger] div.requires((x, y)),
                            is_last_nonzero(base@, *is_zero, p as int, q as int),
                            x == base@[p as int][q as int],
                            mr * base.rows == self.rows,
                            mc * base.cols == self.cols,
                            want == block_quotient(self@, p as int, q as int, mr as int, mc as int, x, *div),
                            i < mr,
                            row_idx == p * mr + i,
                            row_idx < self.rows,
                            0 <= j <= mc,
                            row@.len() == j,
                            forall|l: int| 0 <= l < j ==> row@[l] == want[i as int][l],
                        decreases mc - j,
                    {
                        assert(q * mc + j < self.cols) by (nonlinear_arith)
                            requires
                                q < base.cols,
                                j < mc,
                                mc * base.cols == self.cols,
                        ;
                        let c = self.get(row_idx, q * mc + j);
                        row.push(call2(div, c, x));
                        j += 1;
                    }
                    assert(row@ =~= want[i as int]);
                    value.push(row);
                    i += 1;
                }
                let m = Matrix { value, rows: mr, cols: mc };
                assert(m@ =~= want);
                Ok(m)
            },
        }
    }

    /// The eigenvalue of `self` that the column `v` would belong to:
    /// `(self * v)[0] / v[0]` when `v[0]` is its only cell that does not test
    /// zero; `None` when every cell of `v` tests zero or more than one does not.
    pub fn eigenvalue_from_eigenvector<M: Fn(T, T) -> T, A: Fn(T, T) -> T, D: Fn(T, T) -> T, Z: Fn(T) -> bool>(
        &self,
        v: &Matrix<T>,
        mul: &M,
        add: &A,
        div: &D,
        is_zero: &Z,
    ) -> (r: Option<T>)
        requires
            self.wf(),
            v.wf(),
            self.rows == self.cols,
            self.cols == v.rows,
            v.cols == 1,
            is_binary_op(*mul),
            is_binary_op(*add),
            is_zero_test(*is_zero),
            is_function2(*div),
            forall|x: T, y: T| !tests_zero(*is_zero, y) ==> #[trigger] div.requires((x, y)),
            !tests_zero(*is_zero, v@[0][0]) || all_zero(v@, *is_zero),
        ensures
            all_zero(v@, *is_zero) ==> r is None,
            !all_zero(v@, *is_zero) ==> r == if exists|k: int|
                1 <= k < v.rows && !tests_zero(*is_zero, #[trigger] v@[k][0]) {
                None
            } else {
                Some(apply2(*div, product_of(self@, v@, *mul, *add)[0][0], v@[0][0]))
            },
    {
        assert(width(v@) == 1);
        if call_zero_test(is_zero, v.get(0, 0)) {
            return None;
        }
        let mut k: usize = 1;
        while k < v.rows
            invariant
                v.wf(),
                v.cols == 1,
                is_zero_test(*is_zero),
                1 <= k <= v.rows,
                forall|l: int| 1 <= l < k ==> tests_zero(*is_zero, #[trigger] v@[l][0]),
            decreases v.rows - k,
        {
            if !call_zero_test(is_zero, v.get(k, 0)) {
                return None;
            }
            k += 1;
        }
        let p = self.product(v, mul, add);
        Some(call2(div, p.get(0, 0), v.get(0, 0)))
    }

    /// An eigenvector of the 2 by 2 matrix `[[a, b], [c, d]]` for the
    /// eigenvalue `x`: `[0, 1]` when `c` and not `a - x` tests zero, `[1, 0]`
    /// when both do, and `[1, (x - a) / b]` otherwise.
    pub fn eigenvector_from_eigenvalue<S: Fn(T, T) -> T, D: Fn(T, T) -> T, Z: Fn(T) -> bool>(
        &self,
        x: T,
        zero: T,
        one: T,
        sub: &S,
        div: &D,
        is_zero: &Z,
    ) -> (r: Matrix<T>)
        requires
            self.wf(),
            self.rows == 2,
            self.cols == 2,
            is_binary_op(*sub),
            is_zero_test(*is_zero),
            is_function2(*div),
            forall|x: T, y: T| !tests_zero(*is_zero, y) ==> #[trigger] div.requires((x, y)),
            tests_zero(*is_zero, self@[1][0]) || !tests_zero(*is_zero, self@[0][1]),
        ensures
            r.wf(),
            r.rows == 2,
            r.cols == 1,
            r@ == if tests_zero(*is_zero, self@[1][0]) {
                if !tests_zero(*is_zero, apply2(*sub, self@[0][0], x)) {
                    seq![seq![zero], seq![one]]
                } else {
                    seq![seq![one], seq![zero]]
                }
            } else {
                seq![seq![one], seq![apply2(*div, apply2(*sub, x, self@[0][0]), self@[0][1])]]
            },
    {
        let a = self.get(0, 0);
        let b = self.get(0, 1);
        let c = self.get(1, 0);
        let (top, bottom) = if call_zero_test(is_zero, c) {
            if !call_zero_test(is_zero, call2(sub, a, x)) {
                (zero, one)
            } else {
                (one, zero)
            }
        } else {
            (one, call2(div, call2(sub, x, a), b))
        };
        let r = Matrix { value: vec![vec![top], vec![bottom]], rows: 2, cols: 1 };
        assert(r@ =~~= seq![seq![top], seq![bottom]]);
        r
    }

    /// The cell in row `r`, column `c`.
    pub fn get(&self, r: usize, c: usize) -> (x: T)
        requires
            self.wf(),
            r < self.rows,
            c < self.cols,
        ensures
            x == self@[r as int][c as int],
    {
        assert(self@[r as int] == self.value@[r as int]@);
        self.value[r][c]
    }

    /// Replaces the cell in row `r`, column `c` with `x`.
    pub fn set(&mut self, r: usize, c: usize, x: T)
        requires
            old(self).wf(),
            r < old(self).rows,
            c < old(self).cols,
        ensures
            final(self).wf(),
            final(self).rows == old(self).rows,
            final(self).cols == old(self).cols,
            final(self)@ == old(self)@.update(r as int, old(self)@[r as int].update(c as int, x)),
    {
        assert(self@[r as int] == self.value@[r as int]@);
        self.value[r].set(c, x);
        assert(self@ =~= old(self)@.update(r as int, old(self)@[r as int].update(c as int, x)));
    }
}

} // verus!
