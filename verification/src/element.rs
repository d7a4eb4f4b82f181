//! What the matrix operations ask of their elements and what they promise
//! about them, stated over the contracts of the element type's own operators.
//!
//! The operations clone their operands' elements before combining them, so
//! each predicate speaks of clones of the elements. For an element type whose
//! clones are exact and whose operators obey their specification functions,
//! the lemmas at the end reduce the predicates to plain equations.

use core::ops::{Add, Mul, Neg, Sub};
use vstd::prelude::*;
use vstd::std_specs::ops::{AddSpec, MulSpec, NegSpec, SubSpec};

verus! {

/// Every clone of a value of `T` is equal to the value it was made from.
pub open spec fn clone_is_exact<T: Clone>() -> bool {
    forall|a: T, b: T| #[trigger] cloned(a, b) ==> a == b
}

/// `u` may come out of `a.clone() + b.clone()`.
pub open spec fn is_sum<S, T, U>(a: S, b: T, u: U) -> bool where
    S: Clone + Add<T, Output = U>,
    T: Clone,
 {
    exists|x: S, y: T| #[trigger]
        cloned(a, x) && #[trigger] cloned(b, y) && call_ensures(S::add, (x, y), u)
}

/// `a.clone() + b.clone()` meets the precondition of the element addition.
pub open spec fn sum_defined<S, T, U>(a: S, b: T) -> bool where
    S: Clone + Add<T, Output = U>,
    T: Clone,
 {
    forall|x: S, y: T| #[trigger]
        cloned(a, x) && #[trigger] cloned(b, y) ==> call_requires(S::add, (x, y))
}

/// `u` may come out of `a.clone() - b.clone()`.
pub open spec fn is_difference<S, T, U>(a: S, b: T, u: U) -> bool where
    S: Clone + Sub<T, Output = U>,
    T: Clone,
 {
    exists|x: S, y: T| #[trigger]
        cloned(a, x) && #[trigger] cloned(b, y) && call_ensures(S::sub, (x, y), u)
}

/// `a.clone() - b.clone()` meets the precondition of the element subtraction.
pub open spec fn difference_defined<S, T, U>(a: S, b: T) -> bool where
    S: Clone + Sub<T, Output = U>,
    T: Clone,
 {
    forall|x: S, y: T| #[trigger]
        cloned(a, x) && #[trigger] cloned(b, y) ==> call_requires(S::sub, (x, y))
}

/// `u` may come out of `-a.clone()`.
pub open spec fn is_negation<S, T>(a: S, u: T) -> bool where S: Clone + Neg<Output = T> {
    exists|x: S| #[trigger] cloned(a, x) && call_ensures(S::neg, (x,), u)
}

/// `-a.clone()` meets the precondition of the element negation.
pub open spec fn negation_defined<S, T>(a: S) -> bool where S: Clone + Neg<Output = T> {
    forall|x: S| #[trigger] cloned(a, x) ==> call_requires(S::neg, (x,))
}

/// `u` may come out of `a.clone() * b.clone()`.
pub open spec fn is_product<S, T, U>(a: S, b: T, u: U) -> bool where
    S: Clone + Mul<T, Output = U>,
    T: Clone,
 {
    exists|x: S, y: T| #[trigger]
        cloned(a, x) && #[trigger] cloned(b, y) && call_ensures(S::mul, (x, y), u)
}

/// `a.clone() * b.clone()` meets the precondition of the element
/// multiplication.
pub open spec fn product_defined<S, T, U>(a: S, b: T) -> bool where
    S: Clone + Mul<T, Output = U>,
    T: Clone,
 {
    forall|x: S, y: T| #[trigger]
        cloned(a, x) && #[trigger] cloned(b, y) ==> call_requires(S::mul, (x, y))
}

/// `u` may come out of `acc + p`.
pub open spec fn is_accumulated<U: Add<Output = U>>(acc: U, p: U, u: U) -> bool {
    call_ensures(U::add, (acc, p), u)
}

/// `u` may come out of accumulating the first `n` products `a[k] * b[k]`
/// from the left: the product for `k = 0` starts the accumulator and each
/// later product is added to it on the right, in ascending `k`. There is no
/// such value for `n == 0`.
pub open spec fn is_dot<S, T, U>(a: Seq<S>, b: Seq<T>, n: nat, u: U) -> bool where
    S: Clone + Mul<T, Output = U>,
    T: Clone,
    U: Add<Output = U>,

    decreases n,
{
    if n == 0 {
        false
    } else if n == 1 {
        is_product(a[0], b[0], u)
    } else {
        exists|acc: U, p: U|
            is_dot(a, b, (n - 1) as nat, acc) && is_product(a[n - 1], b[n - 1], p)
                && #[trigger] is_accumulated(acc, p, u)
    }
}

/// Every product and every addition met while accumulating the first `n`
/// products `a[k] * b[k]` from the left meets its operator's precondition.
pub open spec fn dot_defined<S, T, U>(a: Seq<S>, b: Seq<T>, n: nat) -> bool where
    S: Clone + Mul<T, Output = U>,
    T: Clone,
    U: Add<Output = U>,
 {
    &&& forall|k: int| 0 <= k < n ==> product_defined(#[trigger] a[k], b[k])
    &&& forall|k: nat, acc: U, p: U|
        1 <= k < n && #[trigger] is_dot(a, b, k, acc) && #[trigger] is_product(
            a[k as int],
            b[k as int],
            p,
        ) ==> call_requires(U::add, (acc, p))
}

/// The left-to-right accumulation of the first `n` products `a[k] * b[k]`,
/// for `n >= 1`, over the operators' specification functions.
pub open spec fn dot<S, T, U>(a: Seq<S>, b: Seq<T>, n: nat) -> U where
    S: Mul<T, Output = U>,
    U: Add<Output = U>,

    decreases n,
{
    if n <= 1 {
        a[0].mul_spec(b[0])
    } else {
        dot(a, b, (n - 1) as nat).add_spec(a[n - 1].mul_spec(b[n - 1]))
    }
}

/// With exact clones and an addition that obeys its specification, a sum of
/// clones is the specified sum of the operands.
pub proof fn lemma_exact_sum<S, T, U>(a: S, b: T, u: U) where
    S: Clone + Add<T, Output = U>,
    T: Clone,

    requires
        clone_is_exact::<S>(),
        clone_is_exact::<T>(),
        S::obeys_add_spec(),
        is_sum(a, b, u),
    ensures
        u == a.add_spec(b),
{
}

/// With exact clones and a subtraction that obeys its specification, a
/// difference of clones is the specified difference of the operands.
pub proof fn lemma_exact_difference<S, T, U>(a: S, b: T, u: U) where
    S: Clone + Sub<T, Output = U>,
    T: Clone,

    requires
        clone_is_exact::<S>(),
        clone_is_exact::<T>(),
        S::obeys_sub_spec(),
        is_difference(a, b, u),
    ensures
        u == a.sub_spec(b),
{
}

/// With exact clones and a negation that obeys its specification, the
/// negation of a clone is the specified negation of the operand.
pub proof fn lemma_exact_negation<S, T>(a: S, u: T) where S: Clone + Neg<Output = T>
    requires
        clone_is_exact::<S>(),
        S::obeys_neg_spec(),
        is_negation(a, u),
    ensures
        u == a.neg_spec(),
{
}

/// With exact clones and a multiplication that obeys its specification, a
/// product of clones is the specified product of the operands.
pub proof fn lemma_exact_product<S, T, U>(a: S, b: T, u: U) where
    S: Clone + Mul<T, Output = U>,
    T: Clone,

    requires
        clone_is_exact::<S>(),
        clone_is_exact::<T>(),
        S::obeys_mul_spec(),
        is_product(a, b, u),
    ensures
        u == a.mul_spec(b),
{
}

/// With exact clones and operators that obey their specifications, the
/// accumulated value is the specified left-to-right sum of products.
pub proof fn lemma_exact_dot<S, T, U>(a: Seq<S>, b: Seq<T>, n: nat, u: U) where
    S: Clone + Mul<T, Output = U>,
    T: Clone,
    U: Add<Output = U>,

    requires
        clone_is_exact::<S>(),
        clone_is_exact::<T>(),
        S::obeys_mul_spec(),
        U::obeys_add_spec(),
        is_dot(a, b, n, u),
    ensures
        u == dot(a, b, n),
    decreases n,
{
    if n == 1 {
        lemma_exact_product(a[0], b[0], u);
    } else if n > 1 {
        let (acc, p) = choose|acc: U, p: U|
            is_dot(a, b, (n - 1) as nat, acc) && is_product(a[n - 1], b[n - 1], p)
                && #[trigger] is_accumulated(acc, p, u);
        lemma_exact_dot(a, b, (n - 1) as nat, acc);
        lemma_exact_product(a[n - 1], b[n - 1], p);
    }
}

} // verus!
