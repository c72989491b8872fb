//! The lattice capability that every abstract domain supplies.

use vstd::prelude::*;

use crate::bounds::Bounds;

verus! {

/// The lattice of an abstract domain: a top and a bottom element, a unit
/// for increments, least upper bound, greatest lower bound, and the
/// widening and narrowing operators of the fixpoint engine.
///
/// Every executable operator is pinned to a specification function of the
/// implementing type, and keeps values well-formed under the configured
/// clamp window.
pub trait Lattice: Sized + Copy {
    /// Well-formedness of a value under the clamp window `b`.
    spec fn wf(self, b: Bounds) -> bool;

    /// The top (least precise) element.
    spec fn top_s() -> Self;

    /// The bottom element, standing for "no value / infeasible".
    spec fn bot_s() -> Self;

    /// The unit element, the abstraction of the concrete value one,
    /// clamped into the window like every constructed value.
    spec fn unit_s(b: Bounds) -> Self;

    /// Least upper bound.
    spec fn lub_s(self, other: Self, b: Bounds) -> Self;

    /// Greatest lower bound.
    spec fn glb_s(self, other: Self, b: Bounds) -> Self;

    /// Widening: an upper bound of both operands that stabilizes after
    /// finitely many repetitions.
    spec fn widen_s(self, other: Self, b: Bounds) -> Self;

    /// Narrowing: a value between the two operands whenever the second
    /// lies below the first.
    spec fn narrow_s(self, other: Self, b: Bounds) -> Self;

    fn top() -> (r: Self)
        ensures
            r == Self::top_s(),
            forall|b: Bounds| b.wf() ==> r.wf(b),
    ;

    fn bot() -> (r: Self)
        ensures
            r == Self::bot_s(),
            forall|b: Bounds| b.wf() ==> r.wf(b),
    ;

    fn unit(b: &Bounds) -> (r: Self)
        requires
            b.wf(),
        ensures
            r == Self::unit_s(*b),
            r.wf(*b),
    ;

    /// Whether this value is the bottom element.
    fn is_bot(&self) -> (r: bool)
        ensures
            r == (*self == Self::bot_s()),
    ;

    /// Decides equality of two abstract values.
    fn eq_val(&self, other: &Self) -> (r: bool)
        ensures
            r == (*self == *other),
    ;

    fn lub(&self, other: &Self, b: &Bounds) -> (r: Self)
        requires
            b.wf(),
            self.wf(*b),
            other.wf(*b),
        ensures
            r == self.lub_s(*other, *b),
            r.wf(*b),
    ;

    fn glb(&self, other: &Self, b: &Bounds) -> (r: Self)
        requires
            b.wf(),
            self.wf(*b),
            other.wf(*b),
        ensures
            r == self.glb_s(*other, *b),
            r.wf(*b),
    ;

    fn widen(&self, other: &Self, b: &Bounds) -> (r: Self)
        requires
            b.wf(),
            self.wf(*b),
            other.wf(*b),
        ensures
            r == self.widen_s(*other, *b),
            r.wf(*b),
    ;

    fn narrow(&self, other: &Self, b: &Bounds) -> (r: Self)
        requires
            b.wf(),
            self.wf(*b),
            other.wf(*b),
        ensures
            r == self.narrow_s(*other, *b),
            r.wf(*b),
    ;
}

} // verus!
