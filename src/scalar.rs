//! Scalar operations handed to the matrix engine.
//!
//! The engine is generic over its scalar type: every arithmetic step on a
//! scalar is a call of an operation that the caller supplies. Contracts speak
//! of those operations through `apply1`, `apply2` and `tests_zero`, which name
//! the one result that a well-behaved operation gives on its arguments.
use vstd::prelude::*;

verus! {

/// `f` gives a single result for each pair of scalars that it accepts.
pub open spec fn is_function2<T, F: Fn(T, T) -> T>(f: F) -> bool {
    forall|x: T, y: T, r: T, s: T|
        #[trigger] f.ensures((x, y), r) && #[trigger] f.ensures((x, y), s) ==> r == s
}

/// `f` accepts every pair of scalars and gives a single result for each pair.
pub open spec fn is_binary_op<T, F: Fn(T, T) -> T>(f: F) -> bool {
    &&& forall|x: T, y: T| #[trigger] f.requires((x, y))
    &&& is_function2(f)
}

/// `f` accepts every scalar and gives a single result for each.
pub open spec fn is_unary_op<T, F: Fn(T) -> T>(f: F) -> bool {
    &&& forall|x: T| #[trigger] f.requires((x,))
    &&& forall|x: T, r: T, s: T| #[trigger] f.ensures((x,), r) && #[trigger] f.ensures((x,), s) ==> r == s
}

/// `z` accepts every scalar and gives a single answer for each.
pub open spec fn is_zero_test<T, Z: Fn(T) -> bool>(z: Z) -> bool {
    &&& forall|x: T| #[trigger] z.requires((x,))
    &&& forall|x: T, r: bool, s: bool|
        #[trigger] z.ensures((x,), r) && #[trigger] z.ensures((x,), s) ==> r == s
}

/// The result of the binary operation `f` on `(x, y)`.
pub open spec fn apply2<T, F: Fn(T, T) -> T>(f: F, x: T, y: T) -> T {
    choose|r: T| f.ensures((x, y), r)
}

/// The result of the unary operation `f` on `x`.
pub open spec fn apply1<T, F: Fn(T) -> T>(f: F, x: T) -> T {
    choose|r: T| f.ensures((x,), r)
}

/// Whether the zero test `z` accepts `x` as zero.
pub open spec fn tests_zero<T, Z: Fn(T) -> bool>(z: Z, x: T) -> bool {
    choose|r: bool| z.ensures((x,), r)
}

/// Applies a binary operation.
pub fn call2<T, F: Fn(T, T) -> T>(f: &F, x: T, y: T) -> (r: T)
    requires
        is_function2(*f),
        f.requires((x, y)),
    ensures
        r == apply2(*f, x, y),
{
    let r = f(x, y);
    proof {
        let c = apply2(*f, x, y);
        assert(f.ensures((x, y), c));
    }
    r
}

/// Applies a unary operation.
pub fn call1<T, F: Fn(T) -> T>(f: &F, x: T) -> (r: T)
    requires
        is_unary_op(*f),
    ensures
        r == apply1(*f, x),
{
    let r = f(x);
    proof {
        let c = apply1(*f, x);
        assert(f.ensures((x,), c));
    }
    r
}

/// Runs a zero test.
pub fn call_zero_test<T, Z: Fn(T) -> bool>(z: &Z, x: T) -> (r: bool)
    requires
        is_zero_test(*z),
    ensures
        r == tests_zero(*z, x),
{
    let r = z(x);
    proof {
        let c = tests_zero(*z, x);
        assert(z.ensures((x,), c));
    }
    r
}

} // verus!
