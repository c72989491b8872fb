//! The constant abstract domain: no value, exactly one value, or any
//! value.

use vstd::prelude::*;

use crate::bounds::Bounds;
use crate::domain::Domain;
use crate::integer::Integer;
use crate::lattice::Lattice;

verus! {

/// An abstract value of the constant domain. `Bottom` stands for no value,
/// `Any` is top (any value); the union of two distinct constants collapses
/// to `Any`, so the domain is much coarser than intervals.
#[derive(Clone, Copy, Debug, PartialEq, Eq, Structural)]
pub enum Constant {
    Bottom,
    Value(Integer),
    Any,
}

/// The constant holding a saturated arithmetic result: a finite result is
/// kept exactly; a result that escaped to an infinity stands for some
/// value too large to represent, which only `Any` covers soundly.
pub open spec fn lift_s(n: Integer) -> Constant {
    match n {
        Integer::Value(_) => Constant::Value(n),
        _ => Constant::Any,
    }
}

/// Keeps a finite arithmetic result, widening a saturated one to `Any`.
fn lift(n: Integer) -> (r: Constant)
    ensures
        r == lift_s(n),
{
    match n {
        Integer::Value(_) => Constant::Value(n),
        _ => Constant::Any,
    }
}

impl Lattice for Constant {
    /// A well-formed constant holds a finite value; the clamp window does
    /// not concern this domain.
    open spec fn wf(self, b: Bounds) -> bool {
        match self {
            Constant::Value(v) => v is Value,
            _ => true,
        }
    }

    open spec fn top_s() -> Constant {
        Constant::Any
    }

    open spec fn bot_s() -> Constant {
        Constant::Bottom
    }

    open spec fn unit_s(b: Bounds) -> Constant {
        Constant::Value(Integer::Value(1))
    }

    /// Bottom is the identity; two distinct constants collapse to `Any`.
    open spec fn lub_s(self, other: Constant, b: Bounds) -> Constant {
        if self == other {
            self
        } else if other == Constant::Bottom {
            self
        } else if self == Constant::Bottom {
            other
        } else {
            Constant::Any
        }
    }

    /// Top is the identity; two distinct constants have no common value.
    open spec fn glb_s(self, other: Constant, b: Bounds) -> Constant {
        if self == other {
            self
        } else if other == Constant::Any {
            self
        } else if self == Constant::Any {
            other
        } else {
            Constant::Bottom
        }
    }

    /// The domain has no infinite ascending chains, so joining the two
    /// operands is already a terminating widening.
    open spec fn widen_s(self, other: Constant, b: Bounds) -> Constant {
        self.lub_s(other, b)
    }

    /// Narrowing simply adopts the new value.
    open spec fn narrow_s(self, other: Constant, b: Bounds) -> Constant {
        other
    }

    fn top() -> (r: Constant) {
        Constant::Any
    }

    fn bot() -> (r: Constant) {
        Constant::Bottom
    }

    fn unit(b: &Bounds) -> (r: Constant) {
        Constant::Value(Integer::Value(1))
    }

    fn is_bot(&self) -> (r: bool) {
        matches!(*self, Constant::Bottom)
    }

    fn eq_val(&self, other: &Constant) -> (r: bool) {
        *self == *other
    }

    fn lub(&self, other: &Constant, b: &Bounds) -> (r: Constant) {
        if *self == *other {
            *self
        } else if matches!(*other, Constant::Bottom) {
            *self
        } else if matches!(*self, Constant::Bottom) {
            *other
        } else {
            Constant::Any
        }
    }

    fn glb(&self, other: &Constant, b: &Bounds) -> (r: Constant) {
        if *self == *other {
            *self
        } else if matches!(*other, Constant::Any) {
            *self
        } else if matches!(*self, Constant::Any) {
            *other
        } else {
            Constant::Bottom
        }
    }

    fn widen(&self, other: &Constant, b: &Bounds) -> (r: Constant) {
        self.lub(other, b)
    }

    fn narrow(&self, other: &Constant, b: &Bounds) -> (r: Constant) {
        *other
    }
}

impl Domain for Constant {
    /// A finite literal abstracts to itself; a literal infinity denotes no
    /// representable value and abstracts to bottom.
    open spec fn from_number_s(n: Integer, b: Bounds) -> Constant {
        match n {
            Integer::Value(_) => Constant::Value(n),
            _ => Constant::Bottom,
        }
    }

    /// The literal `[self, other]` is exact only when both endpoints agree;
    /// a detectably reversed pair is malformed, anything else is `Any`.
    open spec fn interval_lit_s(self, other: Constant, b: Bounds) -> Option<Constant> {
        match (self, other) {
            (Constant::Bottom, _) => Some(Constant::Bottom),
            (_, Constant::Bottom) => Some(Constant::Bottom),
            (Constant::Value(x), Constant::Value(y)) => if x == y {
                Some(self)
            } else if x.le_s(y) {
                Some(Constant::Any)
            } else {
                None
            },
            _ => Some(Constant::Any),
        }
    }

    open spec fn is_zero_s(self) -> bool {
        self == Constant::Value(Integer::Value(0))
    }

    open spec fn contains_zero_s(self) -> bool {
        self == Constant::Value(Integer::Value(0)) || self == Constant::Any
    }

    /// Bottom absorbs; `Any` spoils; two constants add exactly.
    open spec fn plus_d(self, other: Constant, b: Bounds) -> Constant {
        match (self, other) {
            (Constant::Bottom, _) => Constant::Bottom,
            (_, Constant::Bottom) => Constant::Bottom,
            (Constant::Value(x), Constant::Value(y)) => lift_s(x.plus_s(y)),
            _ => Constant::Any,
        }
    }

    open spec fn minus_d(self, other: Constant, b: Bounds) -> Constant {
        match (self, other) {
            (Constant::Bottom, _) => Constant::Bottom,
            (_, Constant::Bottom) => Constant::Bottom,
            (Constant::Value(x), Constant::Value(y)) => lift_s(x.minus_s(y)),
            _ => Constant::Any,
        }
    }

    /// As addition, except that the known constant zero annihilates even
    /// an unknown factor.
    open spec fn times_d(self, other: Constant, b: Bounds) -> Constant {
        match (self, other) {
            (Constant::Bottom, _) => Constant::Bottom,
            (_, Constant::Bottom) => Constant::Bottom,
            (Constant::Value(x), Constant::Value(y)) => lift_s(x.times_s(y)),
            (Constant::Any, Constant::Value(z)) => if z == Integer::Value(0) {
                Constant::Value(Integer::Value(0))
            } else {
                Constant::Any
            },
            (Constant::Value(z), Constant::Any) => if z == Integer::Value(0) {
                Constant::Value(Integer::Value(0))
            } else {
                Constant::Any
            },
            _ => Constant::Any,
        }
    }

    /// Division by the known constant zero is infeasible (bottom); zero
    /// divided by anything else is zero; two constants divide exactly.
    open spec fn div_d(self, other: Constant, b: Bounds) -> Constant {
        match (self, other) {
            (Constant::Bottom, _) => Constant::Bottom,
            (_, Constant::Bottom) => Constant::Bottom,
            (_, Constant::Value(y)) => if y == Integer::Value(0) {
                Constant::Bottom
            } else {
                match self {
                    Constant::Value(x) => if x == Integer::Value(0) {
                        Constant::Value(Integer::Value(0))
                    } else {
                        lift_s(x.div_s(y))
                    },
                    _ => Constant::Any,
                }
            },
            (Constant::Value(x), Constant::Any) => if x == Integer::Value(0) {
                Constant::Value(Integer::Value(0))
            } else {
                Constant::Any
            },
            _ => Constant::Any,
        }
    }

    /// A quotient is inverted exactly only through a divisor of magnitude
    /// one; any other divisor leaves several possible dividends, which
    /// only `Any` covers.
    open spec fn div_inv_s(self, other: Constant, b: Bounds) -> Constant {
        match (self, other) {
            (Constant::Bottom, _) => Constant::Bottom,
            (_, Constant::Bottom) => Constant::Bottom,
            (Constant::Value(cv), Constant::Value(dv)) => if dv == Integer::Value(1) || dv
                == Integer::Value(-1i64) {
                lift_s(cv.times_s(dv))
            } else {
                Constant::Any
            },
            _ => Constant::Any,
        }
    }

    /// Two known constants decide the comparison outright; a bottom
    /// operand or a refuted comparison is infeasible; otherwise constants
    /// carry no range information and nothing is narrowed.
    open spec fn lt_targets_s(self, other: Constant, b: Bounds) -> (Constant, Constant) {
        match (self, other) {
            (Constant::Bottom, _) => (Constant::Bottom, Constant::Bottom),
            (_, Constant::Bottom) => (Constant::Bottom, Constant::Bottom),
            (Constant::Value(x), Constant::Value(y)) => if x.lt_s(y) {
                (self, other)
            } else {
                (Constant::Bottom, Constant::Bottom)
            },
            _ => (self, other),
        }
    }

    /// Two equal constants refute a disequality; a bottom operand is
    /// infeasible; anything else is feasible.
    open spec fn neq_feasible_s(self, other: Constant) -> bool {
        match (self, other) {
            (Constant::Bottom, _) => false,
            (_, Constant::Bottom) => false,
            (Constant::Value(x), Constant::Value(y)) => x != y,
            _ => true,
        }
    }

    fn from_number(n: Integer, b: &Bounds) -> (r: Constant) {
        match n {
            Integer::Value(_) => Constant::Value(n),
            _ => Constant::Bottom,
        }
    }

    fn interval_lit(&self, other: &Constant, b: &Bounds) -> (r: Option<Constant>) {
        match (*self, *other) {
            (Constant::Bottom, _) | (_, Constant::Bottom) => Some(Constant::Bottom),
            (Constant::Value(x), Constant::Value(y)) => if x == y {
                Some(*self)
            } else if x.le(&y) {
                Some(Constant::Any)
            } else {
                None
            },
            _ => Some(Constant::Any),
        }
    }

    fn is_zero(&self) -> (r: bool) {
        *self == Constant::Value(Integer::Value(0))
    }

    fn contains_zero(&self) -> (r: bool) {
        *self == Constant::Value(Integer::Value(0)) || *self == Constant::Any
    }

    fn plus_v(&self, other: &Constant, b: &Bounds) -> (r: Constant) {
        match (*self, *other) {
            (Constant::Bottom, _) | (_, Constant::Bottom) => Constant::Bottom,
            (Constant::Value(x), Constant::Value(y)) => lift(x.plus(y)),
            _ => Constant::Any,
        }
    }

    fn minus_v(&self, other: &Constant, b: &Bounds) -> (r: Constant) {
        match (*self, *other) {
            (Constant::Bottom, _) | (_, Constant::Bottom) => Constant::Bottom,
            (Constant::Value(x), Constant::Value(y)) => lift(x.minus(y)),
            _ => Constant::Any,
        }
    }

    fn times_v(&self, other: &Constant, b: &Bounds) -> (r: Constant) {
        match (*self, *other) {
            (Constant::Bottom, _) | (_, Constant::Bottom) => Constant::Bottom,
            (Constant::Value(x), Constant::Value(y)) => lift(x.times(y)),
            (Constant::Any, Constant::Value(z)) | (Constant::Value(z), Constant::Any) => if z
                == Integer::Value(0) {
                Constant::Value(Integer::Value(0))
            } else {
                Constant::Any
            },
            _ => Constant::Any,
        }
    }

    fn div_v(&self, other: &Constant, b: &Bounds) -> (r: Constant) {
        match (*self, *other) {
            (Constant::Bottom, _) | (_, Constant::Bottom) => Constant::Bottom,
            (x, Constant::Value(y)) => if y == Integer::Value(0) {
                Constant::Bottom
            } else {
                match x {
                    Constant::Value(xv) => if xv == Integer::Value(0) {
                        Constant::Value(Integer::Value(0))
                    } else {
                        lift(xv.div_by(y))
                    },
                    _ => Constant::Any,
                }
            },
            (Constant::Value(x), Constant::Any) => if x == Integer::Value(0) {
                Constant::Value(Integer::Value(0))
            } else {
                Constant::Any
            },
            _ => Constant::Any,
        }
    }

    fn div_inv(&self, other: &Constant, b: &Bounds) -> (r: Constant) {
        match (*self, *other) {
            (Constant::Bottom, _) | (_, Constant::Bottom) => Constant::Bottom,
            (Constant::Value(cv), Constant::Value(dv)) => if dv == Integer::Value(1) || dv
                == Integer::Value(-1) {
                lift(cv.times(dv))
            } else {
                Constant::Any
            },
            _ => Constant::Any,
        }
    }

    fn lt_targets(&self, other: &Constant, b: &Bounds) -> (r: (Constant, Constant)) {
        match (*self, *other) {
            (Constant::Bottom, _) | (_, Constant::Bottom) => (Constant::Bottom, Constant::Bottom),
            (Constant::Value(x), Constant::Value(y)) => if x.lt(&y) {
                (*self, *other)
            } else {
                (Constant::Bottom, Constant::Bottom)
            },
            _ => (*self, *other),
        }
    }

    fn neq_feasible(&self, other: &Constant) -> (r: bool) {
        match (*self, *other) {
            (Constant::Bottom, _) | (_, Constant::Bottom) => false,
            (Constant::Value(x), Constant::Value(y)) => !(x == y),
            _ => true,
        }
    }
}

/// The identity and idempotence laws of the constant lattice, together
/// with the stabilization of its widening and the bracketing of its
/// narrowing.
pub proof fn lemma_constant_laws(x: Constant, y: Constant, b: Bounds)
    ensures
        x.lub_s(<Constant as Lattice>::bot_s(), b) == x,
        x.glb_s(<Constant as Lattice>::top_s(), b) == x,
        x.lub_s(x, b) == x,
        x.glb_s(x, b) == x,
        x.widen_s(y, b).widen_s(y, b) == x.widen_s(y, b),
        <Constant as Lattice>::bot_s().widen_s(y, b) == y,
{
}

} // verus!

