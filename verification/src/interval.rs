//! The interval abstract domain: inclusive ranges of extended integers.

use vstd::prelude::*;

use crate::bounds::Bounds;
use crate::domain::Domain;
use crate::integer::{ge_int, le_int, max_s, min_s, Integer};
use crate::lattice::Lattice;
use crate::state::read_view;

verus! {

/// An abstract value of the interval domain: either the empty interval
/// (bottom, an infeasible value) or an inclusive range `[lo, hi]`.
#[derive(Clone, Copy, Debug, PartialEq, Eq, Structural)]
pub enum Interval {
    Empty,
    Range(Integer, Integer),
}

/// Builds a range, normalizing every denormal pair (a reversed pair, or a
/// pair whose bounds could represent no finite value) to `Empty`.
pub open spec fn range_s(lo: Integer, hi: Integer) -> Interval {
    if lo.le_s(hi) && lo != Integer::PosInf && hi != Integer::NegInf {
        Interval::Range(lo, hi)
    } else {
        Interval::Empty
    }
}

/// A lower bound clamped into the window: a bound below the window escapes
/// to negative infinity, a bound above it is pulled back to the window's
/// upper edge.
pub open spec fn clamp_lo(a: Integer, b: Bounds) -> Integer {
    if a.lt_s(b.min) {
        Integer::NegInf
    } else if b.max.lt_s(a) {
        b.max
    } else {
        a
    }
}

/// An upper bound clamped into the window: a bound above the window
/// escapes to positive infinity, a bound below it is pulled up to the
/// window's lower edge.
pub open spec fn clamp_hi(a: Integer, b: Bounds) -> Integer {
    if b.max.lt_s(a) {
        Integer::PosInf
    } else if a.lt_s(b.min) {
        b.min
    } else {
        a
    }
}

impl Interval {
    /// A structurally sound interval: not reversed, and not a pair of
    /// bounds that could represent no value at all.
    pub open spec fn raw_ok(self) -> bool {
        match self {
            Interval::Empty => true,
            Interval::Range(lo, hi) => lo.le_s(hi) && lo != Integer::PosInf && hi
                != Integer::NegInf,
        }
    }

    /// Whether the mathematical integer `n` lies in this interval.
    pub open spec fn contains_val(self, n: int) -> bool {
        match self {
            Interval::Empty => false,
            Interval::Range(lo, hi) => le_int(lo, n) && ge_int(hi, n),
        }
    }

    /// The precision order: `self` is contained in `other`.
    pub open spec fn included_in(self, other: Interval) -> bool {
        match self {
            Interval::Empty => true,
            Interval::Range(a, b) => match other {
                Interval::Empty => false,
                Interval::Range(c, d) => c.le_s(a) && b.le_s(d),
            },
        }
    }

    /// The result of clamping this interval into the window `b`: every
    /// constructed range is narrowed into the window, with bounds beyond
    /// it escaping to the matching infinity.
    pub open spec fn check_bounds_s(self, b: Bounds) -> Interval {
        match self {
            Interval::Empty => Interval::Empty,
            Interval::Range(lo, hi) => Interval::Range(clamp_lo(lo, b), clamp_hi(hi, b)),
        }
    }

    /// Clamps this interval into the window `b`: each bound of a range
    /// either stays, is pulled to the window's edge, or escapes to an
    /// infinity.
    pub fn check_bounds(&self, b: &Bounds) -> (r: Interval)
        requires
            b.wf(),
            self.raw_ok(),
        ensures
            r == self.check_bounds_s(*b),
            r.wf(*b),
    {
        match *self {
            Interval::Empty => Interval::Empty,
            Interval::Range(lo, hi) => {
                let new_lo = if lo.lt(&b.min) {
                    Integer::NegInf
                } else if b.max.lt(&lo) {
                    b.max
                } else {
                    lo
                };
                let new_hi = if b.max.lt(&hi) {
                    Integer::PosInf
                } else if hi.lt(&b.min) {
                    b.min
                } else {
                    hi
                };
                Interval::Range(new_lo, new_hi)
            },
        }
    }

    /// The lower bound, absent on the empty interval.
    pub fn min(&self) -> (r: Option<Integer>)
        ensures
            r == match *self {
                Interval::Empty => None::<Integer>,
                Interval::Range(lo, _) => Some(lo),
            },
    {
        match *self {
            Interval::Empty => None,
            Interval::Range(lo, _) => Some(lo),
        }
    }

    /// The upper bound, absent on the empty interval.
    pub fn max(&self) -> (r: Option<Integer>)
        ensures
            r == match *self {
                Interval::Empty => None::<Integer>,
                Interval::Range(_, hi) => Some(hi),
            },
    {
        match *self {
            Interval::Empty => None,
            Interval::Range(_, hi) => Some(hi),
        }
    }

    /// Relaxes the lower bound to negative infinity.
    pub fn open_min(&self) -> (r: Interval)
        requires
            self.raw_ok(),
        ensures
            r == self.open_min_s(),
            r.raw_ok(),
    {
        match *self {
            Interval::Empty => Interval::Empty,
            Interval::Range(_, hi) => Interval::Range(Integer::NegInf, hi),
        }
    }

    /// The interval with its lower bound relaxed to negative infinity.
    pub open spec fn open_min_s(self) -> Interval {
        match self {
            Interval::Empty => Interval::Empty,
            Interval::Range(_, hi) => Interval::Range(Integer::NegInf, hi),
        }
    }

    /// Relaxes the upper bound to positive infinity.
    pub fn open_max(&self) -> (r: Interval)
        requires
            self.raw_ok(),
        ensures
            r == self.open_max_s(),
            r.raw_ok(),
    {
        match *self {
            Interval::Empty => Interval::Empty,
            Interval::Range(lo, _) => Interval::Range(lo, Integer::PosInf),
        }
    }

    /// The interval with its upper bound relaxed to positive infinity.
    pub open spec fn open_max_s(self) -> Interval {
        match self {
            Interval::Empty => Interval::Empty,
            Interval::Range(lo, _) => Interval::Range(lo, Integer::PosInf),
        }
    }

    /// The interval holding exactly the one value `v`, before any clamp.
    pub fn from_value(v: i64) -> (r: Interval)
        ensures
            r == Interval::Range(Integer::Value(v), Integer::Value(v)),
            forall|b: Bounds|
                b.wf() && b.admits(Integer::Value(v)) ==> r.wf(b),
            forall|n: int| r.contains_val(n) <==> n == v,
    {
        Interval::Range(Integer::Value(v), Integer::Value(v))
    }

    /// The interval from `lo` to `hi`, normalized to `Empty` when the pair
    /// is reversed or represents no value.
    pub fn from_bounds(lo: Integer, hi: Integer) -> (r: Interval)
        ensures
            r == range_s(lo, hi),
            r.raw_ok(),
            forall|b: Bounds| b.wf() && b.admits(lo) && b.admits(hi) ==> r.wf(b),
    {
        if lo.le(&hi) && !matches!(lo, Integer::PosInf) && !matches!(hi, Integer::NegInf) {
            Interval::Range(lo, hi)
        } else {
            Interval::Empty
        }
    }

    /// Decides whether `other` lies within `self`, bound for bound.
    pub fn contains(&self, other: &Interval) -> (r: bool)
        ensures
            r == other.included_in(*self),
    {
        match (*other, *self) {
            (Interval::Empty, _) => true,
            (_, Interval::Empty) => false,
            (Interval::Range(a, b), Interval::Range(c, d)) => c.le(&a) && b.le(&d),
        }
    }
}

impl Lattice for Interval {
    /// Well-formed under window `b`: structurally sound, and each bound
    /// is admitted by the window.
    open spec fn wf(self, b: Bounds) -> bool {
        &&& self.raw_ok()
        &&& match self {
            Interval::Empty => true,
            Interval::Range(lo, hi) => b.admits(lo) && b.admits(hi),
        }
    }

    open spec fn top_s() -> Interval {
        Interval::Range(Integer::NegInf, Integer::PosInf)
    }

    open spec fn bot_s() -> Interval {
        Interval::Empty
    }

    open spec fn unit_s(b: Bounds) -> Interval {
        Interval::Range(Integer::Value(1), Integer::Value(1)).check_bounds_s(b)
    }

    /// The smallest range covering both operands, clamped.
    open spec fn lub_s(self, other: Interval, b: Bounds) -> Interval {
        let core = match (self, other) {
            (x, Interval::Empty) => x,
            (Interval::Empty, y) => y,
            (Interval::Range(a1, a2), Interval::Range(b1, b2)) => Interval::Range(
                min_s(a1, b1),
                max_s(a2, b2),
            ),
        };
        core.check_bounds_s(b)
    }

    /// The intersection of the two operands, clamped.
    open spec fn glb_s(self, other: Interval, b: Bounds) -> Interval {
        let core = match (self, other) {
            (Interval::Empty, _) => Interval::Empty,
            (_, Interval::Empty) => Interval::Empty,
            (Interval::Range(a1, a2), Interval::Range(b1, b2)) => range_s(
                max_s(a1, b1),
                min_s(a2, b2),
            ),
        };
        core.check_bounds_s(b)
    }

    /// Widening: a stable bound is kept; a growing bound escapes to the
    /// window's edge if the edge still covers the operand, else to the
    /// corresponding infinity.
    open spec fn widen_s(self, other: Interval, b: Bounds) -> Interval {
        match (self, other) {
            (x, Interval::Empty) => x,
            (Interval::Empty, y) => y,
            (Interval::Range(a1, a2), Interval::Range(b1, b2)) => {
                let lo = if a1.le_s(b1) {
                    a1
                } else if b.min.le_s(b1) {
                    b.min
                } else {
                    Integer::NegInf
                };
                let hi = if b2.le_s(a2) {
                    a2
                } else if b2.le_s(b.max) {
                    b.max
                } else {
                    Integer::PosInf
                };
                Interval::Range(lo, hi).check_bounds_s(b)
            },
        }
    }

    /// Narrowing: a bound of the first operand still at an infinity is
    /// replaced by the second operand's bound; finite bounds are kept.
    open spec fn narrow_s(self, other: Interval, b: Bounds) -> Interval {
        match (self, other) {
            (Interval::Empty, _) => Interval::Empty,
            (_, Interval::Empty) => Interval::Empty,
            (Interval::Range(a1, a2), Interval::Range(b1, b2)) => {
                let lo = if a1 == Integer::NegInf {
                    b1
                } else {
                    a1
                };
                let hi = if a2 == Integer::PosInf {
                    b2
                } else {
                    a2
                };
                range_s(lo, hi).check_bounds_s(b)
            },
        }
    }

    fn top() -> (r: Interval) {
        Interval::Range(Integer::NegInf, Integer::PosInf)
    }

    fn bot() -> (r: Interval) {
        Interval::Empty
    }

    fn unit(b: &Bounds) -> (r: Interval) {
        Interval::Range(Integer::Value(1), Integer::Value(1)).check_bounds(b)
    }

    fn is_bot(&self) -> (r: bool) {
        matches!(*self, Interval::Empty)
    }

    fn eq_val(&self, other: &Interval) -> (r: bool) {
        *self == *other
    }

    fn lub(&self, other: &Interval, b: &Bounds) -> (r: Interval) {
        let core = match (*self, *other) {
            (x, Interval::Empty) => x,
            (Interval::Empty, y) => y,
            (Interval::Range(a1, a2), Interval::Range(b1, b2)) => Interval::Range(
                a1.min_of(b1),
                a2.max_of(b2),
            ),
        };
        core.check_bounds(b)
    }

    fn glb(&self, other: &Interval, b: &Bounds) -> (r: Interval) {
        let core = match (*self, *other) {
            (Interval::Empty, _) => Interval::Empty,
            (_, Interval::Empty) => Interval::Empty,
            (Interval::Range(a1, a2), Interval::Range(b1, b2)) => Interval::from_bounds(
                a1.max_of(b1),
                a2.min_of(b2),
            ),
        };
        core.check_bounds(b)
    }

    fn widen(&self, other: &Interval, b: &Bounds) -> (r: Interval) {
        match (*self, *other) {
            (x, Interval::Empty) => x,
            (Interval::Empty, y) => y,
            (Interval::Range(a1, a2), Interval::Range(b1, b2)) => {
                let lo = if a1.le(&b1) {
                    a1
                } else if b.min.le(&b1) {
                    b.min
                } else {
                    Integer::NegInf
                };
                let hi = if b2.le(&a2) {
                    a2
                } else if b2.le(&b.max) {
                    b.max
                } else {
                    Integer::PosInf
                };
                Interval::Range(lo, hi).check_bounds(b)
            },
        }
    }

    fn narrow(&self, other: &Interval, b: &Bounds) -> (r: Interval) {
        match (*self, *other) {
            (Interval::Empty, _) => Interval::Empty,
            (_, Interval::Empty) => Interval::Empty,
            (Interval::Range(a1, a2), Interval::Range(b1, b2)) => {
                let lo = if matches!(a1, Integer::NegInf) {
                    b1
                } else {
                    a1
                };
                let hi = if matches!(a2, Integer::PosInf) {
                    b2
                } else {
                    a2
                };
                Interval::from_bounds(lo, hi).check_bounds(b)
            },
        }
    }
}

/// Abstract addition of intervals: the bounds are added pointwise, then
/// clamped.
pub open spec fn add_itv_s(x: Interval, y: Interval, b: Bounds) -> Interval {
    match (x, y) {
        (Interval::Range(a1, a2), Interval::Range(c1, c2)) => range_s(
            a1.plus_s(c1),
            a2.plus_s(c2),
        ).check_bounds_s(b),
        _ => Interval::Empty,
    }
}

/// Abstract subtraction of intervals: each bound of the first operand
/// loses the opposite bound of the second, then the result is clamped.
pub open spec fn sub_itv_s(x: Interval, y: Interval, b: Bounds) -> Interval {
    match (x, y) {
        (Interval::Range(a1, a2), Interval::Range(c1, c2)) => range_s(
            a1.minus_s(c2),
            a2.minus_s(c1),
        ).check_bounds_s(b),
        _ => Interval::Empty,
    }
}

/// Abstract multiplication of intervals: the least and greatest of the
/// four corner products, clamped.
pub open spec fn mul_itv_s(x: Interval, y: Interval, b: Bounds) -> Interval {
    match (x, y) {
        (Interval::Range(a1, a2), Interval::Range(c1, c2)) => {
            let p1 = a1.times_s(c1);
            let p2 = a1.times_s(c2);
            let p3 = a2.times_s(c1);
            let p4 = a2.times_s(c2);
            range_s(min_s(min_s(p1, p2), min_s(p3, p4)), max_s(max_s(p1, p2), max_s(p3, p4)))
                .check_bounds_s(b)
        },
        _ => Interval::Empty,
    }
}

/// Division of `x` by an entirely positive divisor `[c, d]` with `1 <= c`.
pub open spec fn div_pos_s(x: Interval, c: Integer, d: Integer, b: Bounds) -> Interval {
    match x {
        Interval::Empty => Interval::Empty,
        Interval::Range(a1, a2) => range_s(
            min_s(a1.div_s(c), a1.div_s(d)),
            max_s(a2.div_s(c), a2.div_s(d)),
        ).check_bounds_s(b),
    }
}

/// Division of `x` by an entirely negative divisor `[c, d]` with
/// `d <= -1`: the quotient's bounds come from the opposite bounds of `x`.
pub open spec fn div_neg_s(x: Interval, c: Integer, d: Integer, b: Bounds) -> Interval {
    match x {
        Interval::Empty => Interval::Empty,
        Interval::Range(a1, a2) => range_s(
            min_s(a2.div_s(c), a2.div_s(d)),
            max_s(a1.div_s(c), a1.div_s(d)),
        ).check_bounds_s(b),
    }
}

/// Abstract division of intervals. A divisor entirely positive or entirely
/// negative is divided by directly; a divisor straddling zero is split
/// into its positive and its negative part (zero itself admits no
/// quotient), each part divides separately, and the results are joined.
/// The divisor holding exactly zero therefore yields the empty interval.
pub open spec fn div_itv_s(x: Interval, y: Interval, b: Bounds) -> Interval {
    match (x, y) {
        (Interval::Range(a1, a2), Interval::Range(c, d)) => {
            if Integer::Value(1).le_s(c) {
                div_pos_s(x, c, d, b)
            } else if d.le_s(Integer::Value(-1i64)) {
                div_neg_s(x, c, d, b)
            } else {
                let pos = match range_s(max_s(c, Integer::Value(1)), d) {
                    Interval::Range(pc, pd) => div_pos_s(x, pc, pd, b),
                    Interval::Empty => Interval::Empty,
                };
                let neg = match range_s(c, min_s(d, Integer::Value(-1i64))) {
                    Interval::Range(nc, nd) => div_neg_s(x, nc, nd, b),
                    Interval::Empty => Interval::Empty,
                };
                pos.lub_s(neg, b)
            }
        },
        _ => Interval::Empty,
    }
}

/// Division by an entirely positive divisor.
fn div_core_pos(x: &Interval, c: Integer, d: Integer, b: &Bounds) -> (r: Interval)
    requires
        b.wf(),
    ensures
        r == div_pos_s(*x, c, d, *b),
        r.wf(*b),
{
    match *x {
        Interval::Empty => Interval::Empty,
        Interval::Range(a1, a2) => {
            let q1 = a1.div_by(c);
            let q2 = a1.div_by(d);
            let q3 = a2.div_by(c);
            let q4 = a2.div_by(d);
            Interval::from_bounds(q1.min_of(q2), q3.max_of(q4)).check_bounds(b)
        },
    }
}

/// Division by an entirely negative divisor.
fn div_core_neg(x: &Interval, c: Integer, d: Integer, b: &Bounds) -> (r: Interval)
    requires
        b.wf(),
    ensures
        r == div_neg_s(*x, c, d, *b),
        r.wf(*b),
{
    match *x {
        Interval::Empty => Interval::Empty,
        Interval::Range(a1, a2) => {
            let q1 = a2.div_by(c);
            let q2 = a2.div_by(d);
            let q3 = a1.div_by(c);
            let q4 = a1.div_by(d);
            Interval::from_bounds(q1.min_of(q2), q3.max_of(q4)).check_bounds(b)
        },
    }
}

impl Domain for Interval {
    /// A finite literal abstracts to the one-value range, clamped into
    /// the window; a literal infinity denotes no representable value and
    /// abstracts to bottom.
    open spec fn from_number_s(n: Integer, b: Bounds) -> Interval {
        range_s(n, n).check_bounds_s(b)
    }

    /// The literal `[self, other]` takes its lower bound from the first
    /// operand and its upper bound from the second; a reversed pair is
    /// malformed.
    open spec fn interval_lit_s(self, other: Interval, b: Bounds) -> Option<Interval> {
        match (self, other) {
            (Interval::Range(a1, _), Interval::Range(_, c2)) => if a1.le_s(c2) {
                Some(range_s(a1, c2).check_bounds_s(b))
            } else {
                None
            },
            _ => Some(Interval::Empty),
        }
    }

    open spec fn is_zero_s(self) -> bool {
        self == Interval::Range(Integer::Value(0), Integer::Value(0))
    }

    open spec fn contains_zero_s(self) -> bool {
        self.contains_val(0)
    }

    open spec fn plus_d(self, other: Interval, b: Bounds) -> Interval {
        add_itv_s(self, other, b)
    }

    open spec fn minus_d(self, other: Interval, b: Bounds) -> Interval {
        sub_itv_s(self, other, b)
    }

    open spec fn times_d(self, other: Interval, b: Bounds) -> Interval {
        mul_itv_s(self, other, b)
    }

    open spec fn div_d(self, other: Interval, b: Bounds) -> Interval {
        div_itv_s(self, other, b)
    }

    /// Every dividend whose truncating quotient by a value of `other`
    /// lies in `self` lies in the product of the two, widened on both
    /// sides by the largest possible truncation remainder.
    open spec fn div_inv_s(self, other: Interval, b: Bounds) -> Interval {
        match (self, other) {
            (Interval::Range(_, _), Interval::Range(dl, dh)) => {
                let m = max_s(dl.abs_s(), dh.abs_s());
                let slack = range_s(
                    Integer::Value(1).minus_s(m),
                    m.minus_s(Integer::Value(1)),
                ).check_bounds_s(b);
                add_itv_s(mul_itv_s(self, other, b), slack, b)
            },
            _ => Interval::Empty,
        }
    }

    /// For `self < other`, the first operand is cut below the second
    /// operand's upper bound, and the second is cut above the first
    /// operand's lower bound.
    open spec fn lt_targets_s(self, other: Interval, b: Bounds) -> (Interval, Interval) {
        let one = <Interval as Lattice>::unit_s(b);
        let rm = other.open_min_s().check_bounds_s(b);
        let lm = self.open_max_s().check_bounds_s(b);
        let lt = self.glb_s(sub_itv_s(rm, one, b), b);
        let rt = other.glb_s(add_itv_s(lm, one, b), b);
        (lt, rt)
    }

    /// An interval cannot refute a disequality.
    open spec fn neq_feasible_s(self, other: Interval) -> bool {
        true
    }

    fn from_number(n: Integer, b: &Bounds) -> (r: Interval) {
        Interval::from_bounds(n, n).check_bounds(b)
    }

    fn interval_lit(&self, other: &Interval, b: &Bounds) -> (r: Option<Interval>) {
        match (*self, *other) {
            (Interval::Range(a1, _), Interval::Range(_, c2)) => if a1.le(&c2) {
                Some(Interval::from_bounds(a1, c2).check_bounds(b))
            } else {
                None
            },
            _ => Some(Interval::Empty),
        }
    }

    fn is_zero(&self) -> (r: bool) {
        *self == Interval::Range(Integer::Value(0), Integer::Value(0))
    }

    fn contains_zero(&self) -> (r: bool) {
        match *self {
            Interval::Empty => false,
            Interval::Range(lo, hi) => le_int_exec(lo, 0) && ge_int_exec(hi, 0),
        }
    }

    fn plus_v(&self, other: &Interval, b: &Bounds) -> (r: Interval) {
        match (*self, *other) {
            (Interval::Range(a1, a2), Interval::Range(c1, c2)) => Interval::from_bounds(
                a1.plus(c1),
                a2.plus(c2),
            ).check_bounds(b),
            _ => Interval::Empty,
        }
    }

    fn minus_v(&self, other: &Interval, b: &Bounds) -> (r: Interval) {
        match (*self, *other) {
            (Interval::Range(a1, a2), Interval::Range(c1, c2)) => Interval::from_bounds(
                a1.minus(c2),
                a2.minus(c1),
            ).check_bounds(b),
            _ => Interval::Empty,
        }
    }

    fn times_v(&self, other: &Interval, b: &Bounds) -> (r: Interval) {
        match (*self, *other) {
            (Interval::Range(a1, a2), Interval::Range(c1, c2)) => {
                let p1 = a1.times(c1);
                let p2 = a1.times(c2);
                let p3 = a2.times(c1);
                let p4 = a2.times(c2);
                let lo = p1.min_of(p2).min_of(p3.min_of(p4));
                let hi = p1.max_of(p2).max_of(p3.max_of(p4));
                Interval::from_bounds(lo, hi).check_bounds(b)
            },
            _ => Interval::Empty,
        }
    }

    fn div_v(&self, other: &Interval, b: &Bounds) -> (r: Interval) {
        match (*self, *other) {
            (Interval::Range(a1, a2), Interval::Range(c, d)) => {
                if Integer::Value(1).le(&c) {
                    div_core_pos(self, c, d, b)
                } else if d.le(&Integer::Value(-1)) {
                    div_core_neg(self, c, d, b)
                } else {
                    let pos = match Interval::from_bounds(c.max_of(Integer::Value(1)), d) {
                        Interval::Range(pc, pd) => div_core_pos(self, pc, pd, b),
                        Interval::Empty => Interval::Empty,
                    };
                    let neg = match Interval::from_bounds(c, d.min_of(Integer::Value(-1))) {
                        Interval::Range(nc, nd) => div_core_neg(self, nc, nd, b),
                        Interval::Empty => Interval::Empty,
                    };
                    pos.lub(&neg, b)
                }
            },
            _ => Interval::Empty,
        }
    }

    fn div_inv(&self, other: &Interval, b: &Bounds) -> (r: Interval) {
        match (*self, *other) {
            (Interval::Range(_, _), Interval::Range(dl, dh)) => {
                let m = dl.abs().max_of(dh.abs());
                let slack = Interval::from_bounds(
                    Integer::Value(1).minus(m),
                    m.minus(Integer::Value(1)),
                ).check_bounds(b);
                self.times_v(other, b).plus_v(&slack, b)
            },
            _ => Interval::Empty,
        }
    }

    fn lt_targets(&self, other: &Interval, b: &Bounds) -> (r: (Interval, Interval)) {
        let one = <Interval as Lattice>::unit(b);
        let rm = other.open_min().check_bounds(b);
        let lm = self.open_max().check_bounds(b);
        let lt = self.glb(&rm.minus_v(&one, b), b);
        let rt = other.glb(&lm.plus_v(&one, b), b);
        (lt, rt)
    }

    fn neq_feasible(&self, other: &Interval) -> (r: bool) {
        true
    }
}

/// Decides whether the extended integer `a` lies at or below the machine
/// integer `n`.
fn le_int_exec(a: Integer, n: i64) -> (r: bool)
    ensures
        r == le_int(a, n as int),
{
    match a {
        Integer::NegInf => true,
        Integer::Value(v) => v <= n,
        Integer::PosInf => false,
    }
}

/// Decides whether the extended integer `a` lies at or above the machine
/// integer `n`.
fn ge_int_exec(a: Integer, n: i64) -> (r: bool)
    ensures
        r == ge_int(a, n as int),
{
    match a {
        Integer::NegInf => false,
        Integer::Value(v) => n <= v,
        Integer::PosInf => true,
    }
}

/// A well-formed interval is already inside the window: clamping leaves
/// it unchanged.
pub proof fn lemma_check_bounds_id(x: Interval, b: Bounds)
    requires
        b.wf(),
        x.wf(b),
    ensures
        x.check_bounds_s(b) == x,
{
}

/// Clamping never loses a value: each bound either stays, moves outward
/// to an infinity, or moves toward the window only when the whole bound
/// lay beyond it.
pub proof fn lemma_check_bounds_widens(x: Interval, b: Bounds, n: int)
    requires
        b.wf(),
        x.raw_ok(),
        x.contains_val(n),
    ensures
        x.check_bounds_s(b).contains_val(n),
{
}

/// The identity and idempotence laws of the lattice: bottom is the
/// identity of the join, top the identity of the meet, and both operators
/// are idempotent.
pub proof fn lemma_lattice_laws(x: Interval, b: Bounds)
    requires
        b.wf(),
        x.wf(b),
    ensures
        x.lub_s(<Interval as Lattice>::bot_s(), b) == x,
        x.glb_s(<Interval as Lattice>::top_s(), b) == x,
        x.lub_s(x, b) == x,
        x.glb_s(x, b) == x,
{
    lemma_check_bounds_id(x, b);
}

/// The join is an upper bound: every value of either operand lies in the
/// join.
pub proof fn lemma_lub_sound(x: Interval, y: Interval, b: Bounds, n: int)
    requires
        b.wf(),
        x.wf(b),
        y.wf(b),
        x.contains_val(n) || y.contains_val(n),
    ensures
        x.lub_s(y, b).contains_val(n),
{
    match (x, y) {
        (Interval::Range(a1, a2), Interval::Range(c1, c2)) => {
            lemma_check_bounds_widens(
                Interval::Range(min_s(a1, c1), max_s(a2, c2)),
                b,
                n,
            );
        },
        _ => {
            if x.contains_val(n) {
                lemma_check_bounds_widens(x, b, n);
            }
            if y.contains_val(n) {
                lemma_check_bounds_widens(y, b, n);
            }
        },
    }
}

/// Widening is an upper bound of both operands.
pub proof fn lemma_widen_upper(x: Interval, y: Interval, b: Bounds, n: int)
    requires
        b.wf(),
        x.wf(b),
        y.wf(b),
        x.contains_val(n) || y.contains_val(n),
    ensures
        x.widen_s(y, b).contains_val(n),
{
    match (x, y) {
        (Interval::Range(a1, a2), Interval::Range(b1, b2)) => {
            let lo = if a1.le_s(b1) {
                a1
            } else if b.min.le_s(b1) {
                b.min
            } else {
                Integer::NegInf
            };
            let hi = if b2.le_s(a2) {
                a2
            } else if b2.le_s(b.max) {
                b.max
            } else {
                Integer::PosInf
            };
            lemma_check_bounds_widens(Interval::Range(lo, hi), b, n);
        },
        _ => {},
    }
}

/// Widening stabilizes: repeating a widening against the same operand
/// changes nothing more, and widening from bottom lands on the operand at
/// once. Repeated widening toward a fixed target therefore stops one step
/// after a bound first escapes.
pub proof fn lemma_widen_stabilizes(x: Interval, y: Interval, b: Bounds)
    requires
        b.wf(),
        x.wf(b),
        y.wf(b),
    ensures
        x.widen_s(y, b).widen_s(y, b) == x.widen_s(y, b),
        <Interval as Lattice>::bot_s().widen_s(y, b) == y,
{
    match (x, y) {
        (Interval::Range(a1, a2), Interval::Range(b1, b2)) => {
            let w = x.widen_s(y, b);
            assert(w.widen_s(y, b) == w);
        },
        _ => {},
    }
}

/// Narrowing lands between its operands: with `y` below `x`, the result
/// can only shrink or keep the bounds of `x`, never grow them, and never
/// cuts below `y`.
pub proof fn lemma_narrow_between(x: Interval, y: Interval, b: Bounds)
    requires
        b.wf(),
        x.wf(b),
        y.wf(b),
        y.included_in(x),
    ensures
        x.narrow_s(y, b).included_in(x),
        y.included_in(x.narrow_s(y, b)),
{
}

/// A magnitude within which sums and differences of two bounds cannot
/// saturate.
pub const SAFE_MAGNITUDE: i64 = 0x1000000000000000;

impl Interval {
    /// Every bound is finite and small enough that adding or subtracting
    /// two such bounds cannot saturate.
    pub open spec fn moderate(self) -> bool {
        match self {
            Interval::Empty => true,
            Interval::Range(lo, hi) => match (lo, hi) {
                (Integer::Value(x), Integer::Value(y)) => -SAFE_MAGNITUDE <= x <= SAFE_MAGNITUDE
                    && -SAFE_MAGNITUDE <= y <= SAFE_MAGNITUDE,
                _ => false,
            },
        }
    }
}

/// Backward refinement through addition is sound: when the target `c`
/// lies within `a + d`, it still lies within the sum of the operands
/// refined against it, each operand being cut to the target minus the
/// other operand. Stated without a clamp window and away from
/// saturation, where the inversion can lose values.
pub proof fn lemma_refine_add_sound(a: Interval, d: Interval, c: Interval, b: Bounds)
    requires
        b.wf(),
        b.min == Integer::NegInf,
        b.max == Integer::PosInf,
        a.wf(b),
        d.wf(b),
        c.wf(b),
        a.moderate(),
        d.moderate(),
        c.moderate(),
        c.included_in(add_itv_s(a, d, b)),
    ensures
        c.included_in(
            add_itv_s(
                a.glb_s(sub_itv_s(c, d, b), b),
                d.glb_s(sub_itv_s(c, a, b), b),
                b,
            ),
        ),
{
    match (a, d, c) {
        (
            Interval::Range(Integer::Value(al), Integer::Value(ah)),
            Interval::Range(Integer::Value(dl), Integer::Value(dh)),
            Interval::Range(Integer::Value(cl), Integer::Value(ch)),
        ) => {
            assert(add_itv_s(a, d, b) == Interval::Range(
                Integer::Value((al + dl) as i64),
                Integer::Value((ah + dh) as i64),
            ));
            assert(al + dl <= cl && ch <= ah + dh);
            let na = sub_itv_s(c, d, b);
            let nb = sub_itv_s(c, a, b);
            assert(na == Interval::Range(
                Integer::Value((cl - dh) as i64),
                Integer::Value((ch - dl) as i64),
            ));
            assert(nb == Interval::Range(
                Integer::Value((cl - ah) as i64),
                Integer::Value((ch - al) as i64),
            ));
            let ta = a.glb_s(na, b);
            let td = d.glb_s(nb, b);
            assert(cl - dh <= ah && al <= ch - dl);
            assert(cl - ah <= dh && dl <= ch - al);
            let tal: int = if al >= cl - dh {
                al as int
            } else {
                cl - dh
            };
            let tah: int = if ah <= ch - dl {
                ah as int
            } else {
                ch - dl
            };
            let tdl: int = if dl >= cl - ah {
                dl as int
            } else {
                cl - ah
            };
            let tdh: int = if dh <= ch - al {
                dh as int
            } else {
                ch - al
            };
            assert(ta == Interval::Range(Integer::Value(tal as i64), Integer::Value(tah as i64)));
            assert(td == Interval::Range(Integer::Value(tdl as i64), Integer::Value(tdh as i64)));
            assert(tal + tdl <= cl && ch <= tah + tdh);
            assert(add_itv_s(ta, td, b) == Interval::Range(
                Integer::Value((tal + tdl) as i64),
                Integer::Value((tah + tdh) as i64),
            ));
        },
        _ => {},
    }
}

/// Backward refinement through subtraction is sound: when the target `c`
/// lies within `a - d`, it still lies within the difference of the
/// refined operands, the left cut to `c + d` and the right to `a - c`.
pub proof fn lemma_refine_sub_sound(a: Interval, d: Interval, c: Interval, b: Bounds)
    requires
        b.wf(),
        b.min == Integer::NegInf,
        b.max == Integer::PosInf,
        a.wf(b),
        d.wf(b),
        c.wf(b),
        a.moderate(),
        d.moderate(),
        c.moderate(),
        c.included_in(sub_itv_s(a, d, b)),
    ensures
        c.included_in(
            sub_itv_s(
                a.glb_s(add_itv_s(c, d, b), b),
                d.glb_s(sub_itv_s(a, c, b), b),
                b,
            ),
        ),
{
    match (a, d, c) {
        (
            Interval::Range(Integer::Value(al), Integer::Value(ah)),
            Interval::Range(Integer::Value(dl), Integer::Value(dh)),
            Interval::Range(Integer::Value(cl), Integer::Value(ch)),
        ) => {
            assert(sub_itv_s(a, d, b) == Interval::Range(
                Integer::Value((al - dh) as i64),
                Integer::Value((ah - dl) as i64),
            ));
            assert(al - dh <= cl && ch <= ah - dl);
            let na = add_itv_s(c, d, b);
            let nb = sub_itv_s(a, c, b);
            assert(na == Interval::Range(
                Integer::Value((cl + dl) as i64),
                Integer::Value((ch + dh) as i64),
            ));
            assert(nb == Interval::Range(
                Integer::Value((al - ch) as i64),
                Integer::Value((ah - cl) as i64),
            ));
            let ta = a.glb_s(na, b);
            let td = d.glb_s(nb, b);
            assert(cl + dl <= ah && al <= ch + dh);
            assert(al - ch <= dh && dl <= ah - cl);
            let tal: int = if al >= cl + dl {
                al as int
            } else {
                cl + dl
            };
            let tah: int = if ah <= ch + dh {
                ah as int
            } else {
                ch + dh
            };
            let tdl: int = if dl >= al - ch {
                dl as int
            } else {
                al - ch
            };
            let tdh: int = if dh <= ah - cl {
                dh as int
            } else {
                ah - cl
            };
            assert(ta == Interval::Range(Integer::Value(tal as i64), Integer::Value(tah as i64)));
            assert(td == Interval::Range(Integer::Value(tdl as i64), Integer::Value(tdh as i64)));
            assert(tal - tdh <= cl && ch <= tah - tdl);
            assert(sub_itv_s(ta, td, b) == Interval::Range(
                Integer::Value((tal - tdh) as i64),
                Integer::Value((tah - tdl) as i64),
            ));
        },
        _ => {},
    }
}

/// Refining a variable occurrence is sound: the meet of its recorded
/// value with a target below it is exactly the target, so re-reading the
/// variable yields a value at least as precise as required.
pub proof fn lemma_refine_variable_sound(val: Interval, c: Interval, b: Bounds)
    requires
        b.wf(),
        val.wf(b),
        c.wf(b),
        c.included_in(val),
    ensures
        c.included_in(val.glb_s(c, b)),
        val.glb_s(c, b).glb_s(c, b) == val.glb_s(c, b),
{
    lemma_check_bounds_id(c, b);
    match (val, c) {
        (Interval::Range(a1, a2), Interval::Range(c1, c2)) => {
            assert(val.glb_s(c, b) == c.check_bounds_s(b));
        },
        _ => {},
    }
}

/// The state-level reading of refinement soundness for addition: two
/// distinct variables hold the operands; each is written back cut to the
/// target minus the other; re-reading both still covers the target.
pub proof fn lemma_refine_add_state_sound(
    m: Map<Seq<char>, Interval>,
    x: Seq<char>,
    y: Seq<char>,
    c: Interval,
    b: Bounds,
)
    requires
        b.wf(),
        b.min == Integer::NegInf,
        b.max == Integer::PosInf,
        m.contains_key(x),
        m.contains_key(y),
        x != y,
        m[x].wf(b),
        m[y].wf(b),
        c.wf(b),
        m[x].moderate(),
        m[y].moderate(),
        c.moderate(),
        c.included_in(add_itv_s(m[x], m[y], b)),
    ensures
        ({
            let ta = m[x].glb_s(sub_itv_s(c, m[y], b), b);
            let td = m[y].glb_s(sub_itv_s(c, m[x], b), b);
            let m2 = m.insert(x, ta).insert(y, td);
            c.included_in(add_itv_s(read_view(m2, x), read_view(m2, y), b))
        }),
{
    lemma_refine_add_sound(m[x], m[y], c, b);
}

} // verus!



