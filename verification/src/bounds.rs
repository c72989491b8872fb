//! The optional clamp window of the analysis.
//!
//! A pair of extended integers `[min, max]` restricts every constructed
//! interval: a bound that leaves the window is snapped to the window's edge
//! or to an infinity. The unbounded window leaves intervals untouched. The
//! window is fixed before an analysis starts and is threaded, read-only,
//! through every domain operation.

use vstd::prelude::*;

use crate::integer::Integer;

verus! {

/// A clamp window for the interval domain. Domains without a clamp ignore
/// it.
#[derive(Clone, Copy, Debug, PartialEq, Eq, Structural)]
pub struct Bounds {
    pub min: Integer,
    pub max: Integer,
}

impl Bounds {
    /// A well-formed window: not reversed and not a pure-infinity edge of
    /// the wrong sign.
    pub open spec fn wf(self) -> bool {
        &&& self.min.le_s(self.max)
        &&& self.min != Integer::PosInf
        &&& self.max != Integer::NegInf
    }

    /// Whether `x` may stand as a bound of a clamped interval: an infinity,
    /// or a value inside the window.
    pub open spec fn admits(self, x: Integer) -> bool {
        ||| x == Integer::NegInf
        ||| x == Integer::PosInf
        ||| (self.min.le_s(x) && x.le_s(self.max))
    }

    /// Builds a window, rejecting a malformed configuration (a lower bound
    /// above the upper bound) before any analysis runs.
    pub fn new(min: Integer, max: Integer) -> (r: Option<Bounds>)
        ensures
            r == if (Bounds { min, max }).wf() {
                Some(Bounds { min, max })
            } else {
                None::<Bounds>
            },
    {
        let b = Bounds { min, max };
        if min.le(&max) && !matches!(min, Integer::PosInf) && !matches!(max, Integer::NegInf) {
            Some(b)
        } else {
            None
        }
    }

    /// The window that clamps nothing.
    pub fn unbounded() -> (r: Bounds)
        ensures
            r == (Bounds { min: Integer::NegInf, max: Integer::PosInf }),
            r.wf(),
            forall|x: Integer| r.admits(x),
    {
        Bounds { min: Integer::NegInf, max: Integer::PosInf }
    }
}

} // verus!
