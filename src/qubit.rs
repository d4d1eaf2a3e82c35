//! A single qubit: a 2 by 1 column of amplitudes.
use vstd::prelude::*;
use crate::gate::{Gate, Scalars};
use crate::matrix::{grid2, product_of, Matrix};
use crate::scalar::is_binary_op;
use vstd::string::StringSliceAdditionalSpecFns;

verus! {

/// The named basis and superposition states a qubit can start in.
#[derive(Clone, Copy, Debug, PartialEq, Eq, Structural)]
pub enum Ket {
    /// `|0>`
    Zero,
    /// `|1>`
    One,
    /// `|+> = (|0> + |1>) / sqrt 2`
    Plus,
    /// `|-> = (|0> - |1>) / sqrt 2`
    Minus,
    /// `(|0> + i |1>) / sqrt 2`
    PlusI,
    /// `(|0> - i |1>) / sqrt 2`
    MinusI,
}

/// The column with amplitudes `a` and `b`.
pub open spec fn column2<T>(a: T, b: T) -> Seq<Seq<T>> {
    seq![seq![a], seq![b]]
}

/// `s` and `t` hold the same bytes.
fn bytes_match(s: &[u8], t: &[u8]) -> (r: bool)
    ensures
        r == (s@ == t@),
{
    if s.len() != t.len() {
        return false;
    }
    let mut k: usize = 0;
    while k < s.len()
        invariant
            s@.len() == t@.len(),
            0 <= k <= s@.len(),
            forall|l: int| 0 <= l < k ==> s@[l] == t@[l],
        decreases s@.len() - k,
    {
        if s[k] != t[k] {
            return false;
        }
        k += 1;
    }
    assert(s@ =~= t@);
    true
}

impl Ket {
    /// The name of the ket, in ASCII bytes: `ZERO`, `ONE`, `PLUS`, `NEG`, `I`, `NEG_I`
    /// (`Z` is 90, `E` 69, `R` 82, `O` 79, `N` 78, `P` 80, `L` 76, `U` 85, `S` 83,
    /// `G` 71, `I` 73, `_` 95).
    pub open spec fn name(self) -> Seq<u8> {
        match self {
            Ket::Zero => seq![90u8, 69u8, 82u8, 79u8],
            Ket::One => seq![79u8, 78u8, 69u8],
            Ket::Plus => seq![80u8, 76u8, 85u8, 83u8],
            Ket::Minus => seq![78u8, 69u8, 71u8],
            Ket::PlusI => seq![73u8],
            Ket::MinusI => seq![78u8, 69u8, 71u8, 95u8, 73u8],
        }
    }

    /// The ket that `id` names; `None` when `id` names none.
    pub fn from_name(id: &str) -> (r: Option<Ket>)
        ensures
            r matches Some(k) ==> id.spec_bytes() == k.name(),
            r is None <==> forall|k: Ket| id.spec_bytes() != #[trigger] k.name(),
    {
        let b = id.as_bytes();
        let zero: [u8; 4] = [90u8, 69u8, 82u8, 79u8];
        let one: [u8; 3] = [79u8, 78u8, 69u8];
        let plus: [u8; 4] = [80u8, 76u8, 85u8, 83u8];
        let neg: [u8; 3] = [78u8, 69u8, 71u8];
        let i: [u8; 1] = [73u8];
        let neg_i: [u8; 5] = [78u8, 69u8, 71u8, 95u8, 73u8];
        assert(zero@ =~= Ket::Zero.name());
        assert(one@ =~= Ket::One.name());
        assert(plus@ =~= Ket::Plus.name());
        assert(neg@ =~= Ket::Minus.name());
        assert(i@ =~= Ket::PlusI.name());
        assert(neg_i@ =~= Ket::MinusI.name());
        if bytes_match(b, zero.as_slice()) {
            Some(Ket::Zero)
        } else if bytes_match(b, one.as_slice()) {
            Some(Ket::One)
        } else if bytes_match(b, plus.as_slice()) {
            Some(Ket::Plus)
        } else if bytes_match(b, neg.as_slice()) {
            Some(Ket::Minus)
        } else if bytes_match(b, i.as_slice()) {
            Some(Ket::PlusI)
        } else if bytes_match(b, neg_i.as_slice()) {
            Some(Ket::MinusI)
        } else {
            assert forall|k: Ket| id.spec_bytes() != #[trigger] k.name() by {
                match k {
                    Ket::Zero => {},
                    Ket::One => {},
                    Ket::Plus => {},
                    Ket::Minus => {},
                    Ket::PlusI => {},
                    Ket::MinusI => {},
                }
            }
            None
        }
    }

    /// The amplitudes of the ket, as a column.
    pub open spec fn amplitudes<T>(self, s: Scalars<T>) -> Seq<Seq<T>> {
        match self {
            Ket::Zero => column2(s.one, s.zero),
            Ket::One => column2(s.zero, s.one),
            Ket::Plus => column2(s.inv_sqrt2, s.inv_sqrt2),
            Ket::Minus => column2(s.inv_sqrt2, s.neg_inv_sqrt2),
            Ket::PlusI => column2(s.inv_sqrt2, s.i_inv_sqrt2),
            Ket::MinusI => column2(s.inv_sqrt2, s.neg_i_inv_sqrt2),
        }
    }
}

/// A qubit; `state` is its column of two amplitudes, for `|0>` and `|1>`.
pub struct Qubit<T> {
    pub state: Matrix<T>,
}

impl<T: Copy> Qubit<T> {
    /// The state is a well-formed 2 by 1 column.
    pub open spec fn wf(&self) -> bool {
        &&& self.state.wf()
        &&& self.state.rows == 2
        &&& self.state.cols == 1
    }

    /// A qubit in `|0>`.
    pub fn new(zero: T, one: T) -> (r: Qubit<T>)
        ensures
            r.wf(),
            r.state@ == column2(one, zero),
    {
        Qubit::from_amplitudes(one, zero)
    }

    /// A qubit with amplitude `a` for `|0>` and `b` for `|1>`.
    pub fn from_amplitudes(a: T, b: T) -> (r: Qubit<T>)
        ensures
            r.wf(),
            r.state@ == column2(a, b),
    {
        let state = Matrix { value: vec![vec![a], vec![b]], rows: 2, cols: 1 };
        assert(state@ =~~= column2(a, b));
        Qubit { state }
    }

    /// A qubit in the named state `k`.
    pub fn ket(k: Ket, s: &Scalars<T>) -> (r: Qubit<T>)
        ensures
            r.wf(),
            r.state@ == k.amplitudes(*s),
    {
        match k {
            Ket::Zero => Qubit::from_amplitudes(s.one, s.zero),
            Ket::One => Qubit::from_amplitudes(s.zero, s.one),
            Ket::Plus => Qubit::from_amplitudes(s.inv_sqrt2, s.inv_sqrt2),
            Ket::Minus => Qubit::from_amplitudes(s.inv_sqrt2, s.neg_inv_sqrt2),
            Ket::PlusI => Qubit::from_amplitudes(s.inv_sqrt2, s.i_inv_sqrt2),
            Ket::MinusI => Qubit::from_amplitudes(s.inv_sqrt2, s.neg_i_inv_sqrt2),
        }
    }

    /// The amplitudes for `|0>` and `|1>`.
    pub fn amplitudes(&self) -> (r: (T, T))
        requires
            self.wf(),
        ensures
            r.0 == self.state@[0][0],
            r.1 == self.state@[1][0],
    {
        (self.state.get(0, 0), self.state.get(1, 0))
    }

    /// Left-multiplies the state by the 2 by 2 matrix `gate`.
    pub fn apply<M: Fn(T, T) -> T, A: Fn(T, T) -> T>(&mut self, gate: &Matrix<T>, mul: &M, add: &A)
        requires
            old(self).wf(),
            gate.wf(),
            gate.rows == 2,
            gate.cols == 2,
            is_binary_op(*mul),
            is_binary_op(*add),
        ensures
            final(self).wf(),
            final(self).state@ == product_of(gate@, old(self).state@, *mul, *add),
    {
        self.state = gate.product(&self.state, mul, add);
    }

    /// The identity gate: leaves the state as it is.
    #[allow(non_snake_case)]
    pub fn I(&mut self)
        ensures
            *final(self) == *old(self),
    {
    }

    /// Applies Pauli X.
    #[allow(non_snake_case)]
    pub fn X<M: Fn(T, T) -> T, A: Fn(T, T) -> T>(&mut self, s: &Scalars<T>, mul: &M, add: &A)
        requires
            old(self).wf(),
            is_binary_op(*mul),
            is_binary_op(*add),
        ensures
            final(self).wf(),
            final(self).state@ == product_of(grid2(s.zero, s.one, s.one, s.zero), old(self).state@, *mul, *add),
    {
        self.apply(&Gate::X(s), mul, add);
    }

    /// Applies Pauli Y.
    #[allow(non_snake_case)]
    pub fn Y<M: Fn(T, T) -> T, A: Fn(T, T) -> T>(&mut self, s: &Scalars<T>, mul: &M, add: &A)
        requires
            old(self).wf(),
            is_binary_op(*mul),
            is_binary_op(*add),
        ensures
            final(self).wf(),
            final(self).state@ == product_of(grid2(s.zero, s.neg_i, s.i, s.zero), old(self).state@, *mul, *add),
    {
        self.apply(&Gate::Y(s), mul, add);
    }

    /// Applies Pauli Z.
    #[allow(non_snake_case)]
    pub fn Z<M: Fn(T, T) -> T, A: Fn(T, T) -> T>(&mut self, s: &Scalars<T>, mul: &M, add: &A)
        requires
            old(self).wf(),
            is_binary_op(*mul),
            is_binary_op(*add),
        ensures
            final(self).wf(),
            final(self).state@ == product_of(grid2(s.one, s.zero, s.zero, s.neg_one), old(self).state@, *mul, *add),
    {
        self.apply(&Gate::Z(s), mul, add);
    }

    /// Applies the Hadamard gate.
    #[allow(non_snake_case)]
    pub fn H<M: Fn(T, T) -> T, A: Fn(T, T) -> T>(&mut self, s: &Scalars<T>, mul: &M, add: &A)
        requires
            old(self).wf(),
            is_binary_op(*mul),
            is_binary_op(*add),
        ensures
            final(self).wf(),
            final(self).state@ == product_of(
                grid2(s.inv_sqrt2, s.inv_sqrt2, s.inv_sqrt2, s.neg_inv_sqrt2),
                old(self).state@,
                *mul,
                *add,
            ),
    {
        self.apply(&Gate::H(s), mul, add);
    }

    /// Applies the phase gate S.
    #[allow(non_snake_case)]
    pub fn S<M: Fn(T, T) -> T, A: Fn(T, T) -> T>(&mut self, s: &Scalars<T>, mul: &M, add: &A)
        requires
            old(self).wf(),
            is_binary_op(*mul),
            is_binary_op(*add),
        ensures
            final(self).wf(),
            final(self).state@ == product_of(grid2(s.one, s.zero, s.zero, s.i), old(self).state@, *mul, *add),
    {
        self.apply(&Gate::S(s), mul, add);
    }

    /// Applies the phase gate T.
    #[allow(non_snake_case)]
    pub fn T<M: Fn(T, T) -> T, A: Fn(T, T) -> T>(&mut self, s: &Scalars<T>, mul: &M, add: &A)
        requires
            old(self).wf(),
            is_binary_op(*mul),
            is_binary_op(*add),
        ensures
            final(self).wf(),
            final(self).state@ == product_of(
                grid2(s.one, s.zero, s.zero, s.eighth_turn),
                old(self).state@,
                *mul,
                *add,
            ),
    {
        self.apply(&Gate::T(s), mul, add);
    }

    /// Applies the rotation about X with cells `c = cos(t / 2)` and `m = -i sin(t / 2)`.
    #[allow(non_snake_case)]
    pub fn R_x<M: Fn(T, T) -> T, A: Fn(T, T) -> T>(&mut self, c: T, m: T, mul: &M, add: &A)
        requires
            old(self).wf(),
            is_binary_op(*mul),
            is_binary_op(*add),
        ensures
            final(self).wf(),
            final(self).state@ == product_of(grid2(c, m, m, c), old(self).state@, *mul, *add),
    {
        self.apply(&Gate::R_x(c, m), mul, add);
    }

    /// Applies the rotation about Y with cells `c = cos(t / 2)` and `s = sin(t / 2)`.
    #[allow(non_snake_case)]
    pub fn R_y<M: Fn(T, T) -> T, A: Fn(T, T) -> T>(&mut self, c: T, s: T, neg_s: T, mul: &M, add: &A)
        requires
            old(self).wf(),
            is_binary_op(*mul),
            is_binary_op(*add),
        ensures
            final(self).wf(),
            final(self).state@ == product_of(grid2(c, neg_s, s, c), old(self).state@, *mul, *add),
    {
        self.apply(&Gate::R_y(c, s, neg_s), mul, add);
    }

    /// Applies the rotation about Z with phases `back = e^(-i t / 2)` and `forth = e^(i t / 2)`.
    #[allow(non_snake_case)]
    pub fn R_z<M: Fn(T, T) -> T, A: Fn(T, T) -> T>(
        &mut self,
        zero: T,
        back: T,
        forth: T,
        mul: &M,
        add: &A,
    )
        requires
            old(self).wf(),
            is_binary_op(*mul),
            is_binary_op(*add),
        ensures
            final(self).wf(),
            final(self).state@ == product_of(grid2(back, zero, zero, forth), old(self).state@, *mul, *add),
    {
        self.apply(&Gate::R_z(zero, back, forth), mul, add);
    }

    /// Applies the phase rotation with `phase = e^(i t)`.
    #[allow(non_snake_case)]
    pub fn R_1<M: Fn(T, T) -> T, A: Fn(T, T) -> T>(
        &mut self,
        zero: T,
        one: T,
        phase: T,
        mul: &M,
        add: &A,
    )
        requires
            old(self).wf(),
            is_binary_op(*mul),
            is_binary_op(*add),
        ensures
            final(self).wf(),
            final(self).state@ == product_of(grid2(one, zero, zero, phase), old(self).state@, *mul, *add),
    {
        self.apply(&Gate::R_1(zero, one, phase), mul, add);
    }
}

} // verus!
