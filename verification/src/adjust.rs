//! Composable adjustments: values that rewrite other values, chainable in
//! sequence.
//!
//! An adjustment's whole behaviour is its `adjust_spec`; chaining two
//! adjustments applies the right one first, then the left one, matching
//! transform composition `A * B * x`.

use vstd::prelude::*;

verus! {

/// A value that can adjust values of type `T`.
pub trait Adjust<T>: Sized {
    type Output;

    /// What this adjustment turns `original` into.
    spec fn adjust_spec(&self, original: T) -> Self::Output;

    /// Apply the adjustment; agrees with `adjust_spec` on all inputs.
    fn adjust(&self, original: T) -> (r: Self::Output)
        ensures
            r == self.adjust_spec(original),
    ;
}

/// Chain two adjustments: the result applies `b` first, then `a`.
pub fn chain<A, B>(a: A, b: B) -> (r: Chain<A, B>)
    ensures
        r.0 == a,
        r.1 == b,
{
    Chain(a, b)
}

/// Two adjustments in sequence.  `Chain(a, b)` adjusts `t` to
/// `a.adjust(b.adjust(t))`: `b` is the inner (right) adjustment, `a` the
/// outer (left) one.
pub struct Chain<A, B>(pub A, pub B);

impl<A, B, T> Adjust<T> for Chain<A, B> where B: Adjust<T>, A: Adjust<B::Output> {
    type Output = A::Output;

    open spec fn adjust_spec(&self, original: T) -> A::Output {
        self.0.adjust_spec(self.1.adjust_spec(original))
    }

    fn adjust(&self, original: T) -> (r: A::Output) {
        self.0.adjust(self.1.adjust(original))
    }
}

/// The identity adjustment: useful where an adjustment is expected but no
/// change is wanted.
#[derive(Clone, Copy, Debug)]
pub struct Id;

impl<T> Adjust<T> for Id {
    type Output = T;

    open spec fn adjust_spec(&self, original: T) -> T {
        original
    }

    fn adjust(&self, original: T) -> (r: T) {
        original
    }
}

/// An adjustment that replaces the material of whatever it adjusts.
#[derive(Clone, Copy, Debug, PartialEq)]
pub struct SetMaterial<M>(pub M);

/// A value paired with the adjustment to apply to it.
#[derive(Clone, Copy, Debug)]
pub struct Adjusted<O, A> {
    pub data: O,
    pub adjust: A,
}

impl<O, A> Adjusted<O, A> {
    /// Chain `a2` as the inner (right) adjustment: it will be applied
    /// first.
    pub fn chain_right<A2>(self, a2: A2) -> (r: Adjusted<O, Chain<A, A2>>)
        ensures
            r.data == self.data,
            r.adjust.0 == self.adjust,
            r.adjust.1 == a2,
    {
        Adjusted { data: self.data, adjust: Chain(self.adjust, a2) }
    }

    /// Chain `a1` as the outer (left) adjustment: it will be applied last.
    pub fn chain_left<A1>(self, a1: A1) -> (r: Adjusted<O, Chain<A1, A>>)
        ensures
            r.data == self.data,
            r.adjust.0 == a1,
            r.adjust.1 == self.adjust,
    {
        Adjusted { data: self.data, adjust: Chain(a1, self.adjust) }
    }
}

/// Pair a value with an adjustment.
pub fn adjust<O, A>(data: O, adjustment: A) -> (r: Adjusted<O, A>)
    ensures
        r.data == data,
        r.adjust == adjustment,
{
    Adjusted { data, adjust: adjustment }
}

} // verus!
