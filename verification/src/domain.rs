//! The full capability of an abstract domain: its lattice, its abstract
//! arithmetic, and the domain-specific parts of literal and comparison
//! evaluation.

use vstd::prelude::*;

use crate::bounds::Bounds;
use crate::integer::Integer;
use crate::lattice::Lattice;

verus! {

/// An abstract numeric domain. The generic evaluator is written once
/// against this contract; the interval and constant domains implement it.
///
/// Every executable operation is pinned to a specification function of the
/// implementing type and keeps values well-formed under the clamp window.
pub trait Domain: Lattice {
    /// The abstraction of the literal `n`, clamped into the window like
    /// every constructed value. A literal infinity denotes no
    /// representable value and abstracts to bottom.
    spec fn from_number_s(n: Integer, b: Bounds) -> Self;

    /// The abstraction of the literal `[self, other]`, built from the
    /// abstract values of its two endpoint expressions; `None` signals a
    /// malformed literal whose lower bound lies above its upper bound.
    spec fn interval_lit_s(self, other: Self, b: Bounds) -> Option<Self>;

    /// Whether this abstract value stands for exactly the concrete zero.
    spec fn is_zero_s(self) -> bool;

    /// Whether the concrete zero is among the values this abstract value
    /// stands for.
    spec fn contains_zero_s(self) -> bool;

    /// Abstract addition.
    spec fn plus_d(self, other: Self, b: Bounds) -> Self;

    /// Abstract subtraction.
    spec fn minus_d(self, other: Self, b: Bounds) -> Self;

    /// Abstract multiplication.
    spec fn times_d(self, other: Self, b: Bounds) -> Self;

    /// Abstract division.
    spec fn div_d(self, other: Self, b: Bounds) -> Self;

    /// The refinement target for the dividend of a truncating division by
    /// `other` whose quotient was cut to `self`: a value covering every
    /// dividend whose quotient lies in `self`. Only called with a divisor
    /// that excludes zero.
    spec fn div_inv_s(self, other: Self, b: Bounds) -> Self;

    /// The refinement targets of a strict comparison `self < other`: what
    /// each operand may still be once the comparison is known to hold. A
    /// bottom target marks the comparison as infeasible.
    spec fn lt_targets_s(self, other: Self, b: Bounds) -> (Self, Self);

    /// Whether `self != other` is feasible, as far as the domain can tell.
    spec fn neq_feasible_s(self, other: Self) -> bool;

    fn from_number(n: Integer, b: &Bounds) -> (r: Self)
        requires
            b.wf(),
        ensures
            r == Self::from_number_s(n, *b),
            r.wf(*b),
    ;

    fn interval_lit(&self, other: &Self, b: &Bounds) -> (r: Option<Self>)
        requires
            b.wf(),
            self.wf(*b),
            other.wf(*b),
        ensures
            r == self.interval_lit_s(*other, *b),
            r matches Some(v) ==> v.wf(*b),
    ;

    fn is_zero(&self) -> (r: bool)
        ensures
            r == self.is_zero_s(),
    ;

    fn contains_zero(&self) -> (r: bool)
        ensures
            r == self.contains_zero_s(),
    ;

    fn plus_v(&self, other: &Self, b: &Bounds) -> (r: Self)
        requires
            b.wf(),
            self.wf(*b),
            other.wf(*b),
        ensures
            r == self.plus_d(*other, *b),
            r.wf(*b),
    ;

    fn minus_v(&self, other: &Self, b: &Bounds) -> (r: Self)
        requires
            b.wf(),
            self.wf(*b),
            other.wf(*b),
        ensures
            r == self.minus_d(*other, *b),
            r.wf(*b),
    ;

    fn times_v(&self, other: &Self, b: &Bounds) -> (r: Self)
        requires
            b.wf(),
            self.wf(*b),
            other.wf(*b),
        ensures
            r == self.times_d(*other, *b),
            r.wf(*b),
    ;

    fn div_v(&self, other: &Self, b: &Bounds) -> (r: Self)
        requires
            b.wf(),
            self.wf(*b),
            other.wf(*b),
        ensures
            r == self.div_d(*other, *b),
            r.wf(*b),
    ;

    fn div_inv(&self, other: &Self, b: &Bounds) -> (r: Self)
        requires
            b.wf(),
            self.wf(*b),
            other.wf(*b),
        ensures
            r == self.div_inv_s(*other, *b),
            r.wf(*b),
    ;

    fn lt_targets(&self, other: &Self, b: &Bounds) -> (r: (Self, Self))
        requires
            b.wf(),
            self.wf(*b),
            other.wf(*b),
        ensures
            r == self.lt_targets_s(*other, *b),
            r.0.wf(*b),
            r.1.wf(*b),
    ;

    fn neq_feasible(&self, other: &Self) -> (r: bool)
        ensures
            r == self.neq_feasible_s(*other),
    ;
}

} // verus!
