//! The catalog of named single-qubit gates.
//!
//! Every gate is a 2 by 2 matrix whose cells are constants of the scalar
//! field (`Scalars`) or, for the rotations, values that the caller computes
//! from the angle.
use vstd::prelude::*;
use crate::matrix::{grid2, Matrix};

verus! {

/// The constants of the scalar field that gates and kets are built from.
pub struct Scalars<T> {
    pub zero: T,
    pub one: T,
    pub neg_one: T,
    /// The imaginary unit.
    pub i: T,
    pub neg_i: T,
    /// One over the square root of two.
    pub inv_sqrt2: T,
    pub neg_inv_sqrt2: T,
    /// The imaginary unit over the square root of two.
    pub i_inv_sqrt2: T,
    pub neg_i_inv_sqrt2: T,
    /// `e^(i pi / 4)`.
    pub eighth_turn: T,
}

/// The namespace of the named gates.
pub struct Gate {}

impl Gate {
    /// The identity `[[1, 0], [0, 1]]`.
    #[allow(non_snake_case)]
    pub fn I<T: Copy>(s: &Scalars<T>) -> (r: Matrix<T>)
        ensures
            r.wf(),
            r.rows == 2,
            r.cols == 2,
            r@ == grid2(s.one, s.zero, s.zero, s.one),
    {
        Matrix::square2(s.one, s.zero, s.zero, s.one)
    }

    /// Pauli X, the bit flip `[[0, 1], [1, 0]]`.
    #[allow(non_snake_case)]
    pub fn X<T: Copy>(s: &Scalars<T>) -> (r: Matrix<T>)
        ensures
            r.wf(),
            r.rows == 2,
            r.cols == 2,
            r@ == grid2(s.zero, s.one, s.one, s.zero),
    {
        Matrix::square2(s.zero, s.one, s.one, s.zero)
    }

    /// Pauli Y, `[[0, -i], [i, 0]]`.
    #[allow(non_snake_case)]
    pub fn Y<T: Copy>(s: &Scalars<T>) -> (r: Matrix<T>)
        ensures
            r.wf(),
            r.rows == 2,
            r.cols == 2,
            r@ == grid2(s.zero, s.neg_i, s.i, s.zero),
    {
        Matrix::square2(s.zero, s.neg_i, s.i, s.zero)
    }

    /// Pauli Z, the phase flip `[[1, 0], [0, -1]]`.
    #[allow(non_snake_case)]
    pub fn Z<T: Copy>(s: &Scalars<T>) -> (r: Matrix<T>)
        ensures
            r.wf(),
            r.rows == 2,
            r.cols == 2,
            r@ == grid2(s.one, s.zero, s.zero, s.neg_one),
    {
        Matrix::square2(s.one, s.zero, s.zero, s.neg_one)
    }

    /// Hadamard, `[[1, 1], [1, -1]]` over the square root of two.
    #[allow(non_snake_case)]
    pub fn H<T: Copy>(s: &Scalars<T>) -> (r: Matrix<T>)
        ensures
            r.wf(),
            r.rows == 2,
            r.cols == 2,
            r@ == grid2(s.inv_sqrt2, s.inv_sqrt2, s.inv_sqrt2, s.neg_inv_sqrt2),
    {
        Matrix::square2(s.inv_sqrt2, s.inv_sqrt2, s.inv_sqrt2, s.neg_inv_sqrt2)
    }

    /// The phase gate S, `[[1, 0], [0, i]]`.
    #[allow(non_snake_case)]
    pub fn S<T: Copy>(s: &Scalars<T>) -> (r: Matrix<T>)
        ensures
            r.wf(),
            r.rows == 2,
            r.cols == 2,
            r@ == grid2(s.one, s.zero, s.zero, s.i),
    {
        Matrix::square2(s.one, s.zero, s.zero, s.i)
    }

    /// The phase gate T, `[[1, 0], [0, e^(i pi / 4)]]`.
    #[allow(non_snake_case)]
    pub fn T<T: Copy>(s: &Scalars<T>) -> (r: Matrix<T>)
        ensures
            r.wf(),
            r.rows == 2,
            r.cols == 2,
            r@ == grid2(s.one, s.zero, s.zero, s.eighth_turn),
    {
        Matrix::square2(s.one, s.zero, s.zero, s.eighth_turn)
    }

    /// Rotation about X by an angle `t`: `[[c, m], [m, c]]` with
    /// `c = cos(t / 2)` and `m = -i sin(t / 2)`.
    #[allow(non_snake_case)]
    pub fn R_x<T: Copy>(c: T, m: T) -> (r: Matrix<T>)
        ensures
            r.wf(),
            r.rows == 2,
            r.cols == 2,
            r@ == grid2(c, m, m, c),
    {
        Matrix::square2(c, m, m, c)
    }

    /// Rotation about Y by an angle `t`: `[[c, -s], [s, c]]` with
    /// `c = cos(t / 2)` and `s = sin(t / 2)`.
    #[allow(non_snake_case)]
    pub fn R_y<T: Copy>(c: T, s: T, neg_s: T) -> (r: Matrix<T>)
        ensures
            r.wf(),
            r.rows == 2,
            r.cols == 2,
            r@ == grid2(c, neg_s, s, c),
    {
        Matrix::square2(c, neg_s, s, c)
    }

    /// Rotation about Z by an angle `t`: `[[e^(-i t / 2), 0], [0, e^(i t / 2)]]`.
    #[allow(non_snake_case)]
    pub fn R_z<T: Copy>(zero: T, back: T, forth: T) -> (r: Matrix<T>)
        ensures
            r.wf(),
            r.rows == 2,
            r.cols == 2,
            r@ == grid2(back, zero, zero, forth),
    {
        Matrix::square2(back, zero, zero, forth)
    }

    /// The phase rotation `[[1, 0], [0, e^(i t)]]` for an angle `t`.
    #[allow(non_snake_case)]
    pub fn R_1<T: Copy>(zero: T, one: T, phase: T) -> (r: Matrix<T>)
        ensures
            r.wf(),
            r.rows == 2,
            r.cols == 2,
            r@ == grid2(one, zero, zero, phase),
    {
        Matrix::square2(one, zero, zero, phase)
    }
}

} // verus!
