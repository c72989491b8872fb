//! Integers extended with two infinities, and saturating arithmetic on them.

use vstd::prelude::*;

use crate::sign::{sign, sign_i64, sign_s, Sign};

verus! {

/// An integer extended with negative and positive infinity.
///
/// The order is total: `NegInf < Value(n) < PosInf` for every `n`.
/// Arithmetic saturates: a finite result that does not fit in an `i64`
/// becomes the infinity of the result's sign.
#[derive(Clone, Copy, Debug, PartialEq, Eq, Structural)]
pub enum Integer {
    NegInf,
    Value(i64),
    PosInf,
}

impl Integer {
    /// `self <= other` in the total order of extended integers.
    pub open spec fn le_s(self, other: Integer) -> bool {
        match (self, other) {
            (Integer::NegInf, _) => true,
            (_, Integer::PosInf) => true,
            (Integer::Value(x), Integer::Value(y)) => x <= y,
            _ => false,
        }
    }

    /// `self < other` in the total order of extended integers.
    pub open spec fn lt_s(self, other: Integer) -> bool {
        self.le_s(other) && self != other
    }

    /// Saturating negation.
    pub open spec fn neg_s(self) -> Integer {
        match self {
            Integer::NegInf => Integer::PosInf,
            Integer::Value(v) => clip(-v),
            Integer::PosInf => Integer::NegInf,
        }
    }

    /// Saturating addition. The sum of the two opposite infinities is left
    /// out by the callers; here it is given an arbitrary harmless value.
    pub open spec fn plus_s(self, other: Integer) -> Integer {
        match (self, other) {
            (Integer::Value(x), Integer::Value(y)) => clip(x + y),
            (Integer::NegInf, Integer::PosInf) => Integer::Value(0),
            (Integer::PosInf, Integer::NegInf) => Integer::Value(0),
            (Integer::NegInf, _) => Integer::NegInf,
            (_, Integer::NegInf) => Integer::NegInf,
            _ => Integer::PosInf,
        }
    }

    /// Saturating subtraction, `self - other`.
    pub open spec fn minus_s(self, other: Integer) -> Integer {
        match (self, other) {
            (Integer::Value(x), Integer::Value(y)) => clip(x - y),
            (Integer::NegInf, Integer::NegInf) => Integer::Value(0),
            (Integer::PosInf, Integer::PosInf) => Integer::Value(0),
            (Integer::NegInf, _) => Integer::NegInf,
            (_, Integer::PosInf) => Integer::NegInf,
            _ => Integer::PosInf,
        }
    }

    /// Saturating sign-aware multiplication. Anything times zero is zero;
    /// otherwise an infinite operand forces the infinity of the product's
    /// sign.
    pub open spec fn times_s(self, other: Integer) -> Integer {
        match (self, other) {
            (Integer::Value(x), Integer::Value(y)) => clip(x * y),
            _ => infinity_of(sign_s(self) * sign_s(other)),
        }
    }

    /// Saturating sign-aware division, `self / other`, truncating toward
    /// zero on finite operands. Zero divided by anything is zero; anything
    /// finite divided by an infinity is zero; a nonzero value divided by
    /// zero is the infinity of its sign.
    pub open spec fn div_s(self, other: Integer) -> Integer {
        if sign_s(self) == 0 {
            Integer::Value(0)
        } else {
            match (self, other) {
                (_, Integer::PosInf) | (_, Integer::NegInf) => Integer::Value(0),
                (Integer::NegInf, Integer::Value(y)) => if y >= 0 {
                    Integer::NegInf
                } else {
                    Integer::PosInf
                },
                (Integer::PosInf, Integer::Value(y)) => if y >= 0 {
                    Integer::PosInf
                } else {
                    Integer::NegInf
                },
                (Integer::Value(x), Integer::Value(y)) => if y == 0 {
                    if x > 0 {
                        Integer::PosInf
                    } else {
                        Integer::NegInf
                    }
                } else {
                    clip(trunc_div(x as int, y as int))
                },
            }
        }
    }

    /// Whether saturating addition of the two operands is meaningful: the
    /// two opposite infinities cannot be added.
    pub open spec fn addable(self, other: Integer) -> bool {
        !(self == Integer::NegInf && other == Integer::PosInf) && !(self == Integer::PosInf
            && other == Integer::NegInf)
    }

    /// Whether saturating subtraction `self - other` is meaningful: an
    /// infinity cannot be subtracted from itself.
    pub open spec fn subtractable(self, other: Integer) -> bool {
        !(self == Integer::NegInf && other == Integer::NegInf) && !(self == Integer::PosInf
            && other == Integer::PosInf)
    }

    /// The machine integer closest to this extended integer.
    pub fn value(&self) -> (v: i64)
        ensures
            v == match *self {
                Integer::NegInf => i64::MIN,
                Integer::Value(n) => n,
                Integer::PosInf => i64::MAX,
            },
    {
        match *self {
            Integer::NegInf => i64::MIN,
            Integer::Value(v) => v,
            Integer::PosInf => i64::MAX,
        }
    }

    /// Decides `self <= other`.
    pub fn le(&self, other: &Integer) -> (r: bool)
        ensures
            r == self.le_s(*other),
    {
        match (*self, *other) {
            (Integer::NegInf, _) => true,
            (_, Integer::PosInf) => true,
            (Integer::Value(x), Integer::Value(y)) => x <= y,
            _ => false,
        }
    }

    /// Decides `self < other`.
    pub fn lt(&self, other: &Integer) -> (r: bool)
        ensures
            r == self.lt_s(*other),
    {
        match (*self, *other) {
            (Integer::NegInf, Integer::NegInf) => false,
            (Integer::NegInf, _) => true,
            (Integer::PosInf, _) => false,
            (_, Integer::PosInf) => true,
            (Integer::Value(x), Integer::Value(y)) => x < y,
            (_, Integer::NegInf) => false,
        }
    }

    /// The smaller of the two operands.
    pub fn min_of(self, other: Integer) -> (r: Integer)
        ensures
            r == min_s(self, other),
    {
        if self.le(&other) {
            self
        } else {
            other
        }
    }

    /// The larger of the two operands.
    pub fn max_of(self, other: Integer) -> (r: Integer)
        ensures
            r == max_s(self, other),
    {
        if self.le(&other) {
            other
        } else {
            self
        }
    }

    /// Saturating negation.
    pub fn neg(self) -> (r: Integer)
        ensures
            r == self.neg_s(),
    {
        match self {
            Integer::NegInf => Integer::PosInf,
            Integer::PosInf => Integer::NegInf,
            Integer::Value(v) => if v == i64::MIN {
                Integer::PosInf
            } else {
                Integer::Value(-v)
            },
        }
    }

    /// Saturating addition. Adding the two opposite infinities is an
    /// invalid operation and is left out.
    pub fn plus(self, other: Integer) -> (r: Integer)
        requires
            self.addable(other),
        ensures
            r == self.plus_s(other),
    {
        match (self, other) {
            (Integer::Value(x), Integer::Value(y)) => match x.checked_add(y) {
                Some(n) => Integer::Value(n),
                None => if x > 0 {
                    Integer::PosInf
                } else {
                    Integer::NegInf
                },
            },
            (Integer::NegInf, _) | (_, Integer::NegInf) => Integer::NegInf,
            _ => Integer::PosInf,
        }
    }

    /// Saturating subtraction. Subtracting an infinity from itself is an
    /// invalid operation and is left out.
    pub fn minus(self, other: Integer) -> (r: Integer)
        requires
            self.subtractable(other),
        ensures
            r == self.minus_s(other),
    {
        match (self, other) {
            (Integer::Value(x), Integer::Value(y)) => match x.checked_sub(y) {
                Some(n) => Integer::Value(n),
                None => if y < 0 {
                    Integer::PosInf
                } else {
                    Integer::NegInf
                },
            },
            (Integer::NegInf, _) | (_, Integer::PosInf) => Integer::NegInf,
            _ => Integer::PosInf,
        }
    }

    /// Saturating sign-aware multiplication.
    pub fn times(self, other: Integer) -> (r: Integer)
        ensures
            r == self.times_s(other),
    {
        match (self, other) {
            (Integer::Value(x), Integer::Value(y)) => match x.checked_mul(y) {
                Some(n) => Integer::Value(n),
                None => {
                    proof {
                        lemma_mul_sign(x as int, y as int);
                    }
                    if (x > 0) == (y > 0) {
                        Integer::PosInf
                    } else {
                        Integer::NegInf
                    }
                },
            },
            _ => {
                let s = mul_signs(sign(self), sign(other));
                match s {
                    Sign::Zero => Integer::Value(0),
                    Sign::Pos => Integer::PosInf,
                    Sign::Neg => Integer::NegInf,
                }
            },
        }
    }

    /// Saturating sign-aware division, truncating toward zero.
    pub fn div_by(self, other: Integer) -> (r: Integer)
        ensures
            r == self.div_s(other),
    {
        match (self, other) {
            (Integer::Value(0), _) => Integer::Value(0),
            (_, Integer::PosInf) | (_, Integer::NegInf) => Integer::Value(0),
            (Integer::NegInf, Integer::Value(y)) => if y >= 0 {
                Integer::NegInf
            } else {
                Integer::PosInf
            },
            (Integer::PosInf, Integer::Value(y)) => if y >= 0 {
                Integer::PosInf
            } else {
                Integer::NegInf
            },
            (Integer::Value(x), Integer::Value(y)) => {
                if y == 0 {
                    if x > 0 {
                        Integer::PosInf
                    } else {
                        Integer::NegInf
                    }
                } else {
                    match x.checked_div(y) {
                        Some(n) => Integer::Value(n),
                        None => {
                            proof {
                                lemma_trunc_div_overflow(x as int, y as int);
                            }
                            Integer::PosInf
                        },
                    }
                }
            },
        }
    }

    /// The absolute value, with both infinities mapping to positive
    /// infinity.
    pub open spec fn abs_s(self) -> Integer {
        if self.lt_s(Integer::Value(0)) {
            self.neg_s()
        } else {
            self
        }
    }

    /// The absolute value.
    pub fn abs(&self) -> (r: Integer)
        ensures
            r == self.abs_s(),
    {
        if self.lt(&Integer::Value(0)) {
            self.neg()
        } else {
            *self
        }
    }

    /// Whether this is a finite value.
    pub fn is_finite(&self) -> (r: bool)
        ensures
            r == (*self is Value),
    {
        match *self {
            Integer::Value(_) => true,
            _ => false,
        }
    }
}

/// `a <= n`, comparing an extended integer with a mathematical integer.
pub open spec fn le_int(a: Integer, n: int) -> bool {
    match a {
        Integer::NegInf => true,
        Integer::Value(v) => v <= n,
        Integer::PosInf => false,
    }
}

/// `a >= n`, comparing an extended integer with a mathematical integer.
pub open spec fn ge_int(a: Integer, n: int) -> bool {
    match a {
        Integer::NegInf => false,
        Integer::Value(v) => n <= v,
        Integer::PosInf => true,
    }
}

/// The smaller of two extended integers.
pub open spec fn min_s(a: Integer, b: Integer) -> Integer {
    if a.le_s(b) {
        a
    } else {
        b
    }
}

/// The larger of two extended integers.
pub open spec fn max_s(a: Integer, b: Integer) -> Integer {
    if a.le_s(b) {
        b
    } else {
        a
    }
}

/// Saturates a mathematical integer into the `i64` range, overflowing to
/// the infinity of its sign.
pub open spec fn clip(n: int) -> Integer {
    if n > i64::MAX {
        Integer::PosInf
    } else if n < i64::MIN {
        Integer::NegInf
    } else {
        Integer::Value(n as i64)
    }
}

/// The infinity of sign `s`, or zero when `s` is zero.
pub open spec fn infinity_of(s: int) -> Integer {
    if s > 0 {
        Integer::PosInf
    } else if s < 0 {
        Integer::NegInf
    } else {
        Integer::Value(0)
    }
}

/// Division of mathematical integers truncating toward zero, as machine
/// division does; zero when the divisor is zero.
pub open spec fn trunc_div(x: int, d: int) -> int {
    if d == 0 || x == 0 {
        0
    } else if x > 0 && d > 0 {
        x / d
    } else if x < 0 && d < 0 {
        (x * -1) / (d * -1)
    } else if x < 0 {
        ((x * -1) / d) * -1
    } else {
        (x / (d * -1)) * -1
    }
}

/// Multiplies the signs of two extended integers.
pub fn mul_signs(a: Sign, b: Sign) -> (s: Sign)
    ensures
        s == Sign::Zero <==> (a == Sign::Zero || b == Sign::Zero),
        s == Sign::Pos <==> (a == b && a != Sign::Zero),
        s == Sign::Neg <==> (a != b && a != Sign::Zero && b != Sign::Zero),
{
    match (a, b) {
        (Sign::Zero, _) | (_, Sign::Zero) => Sign::Zero,
        (Sign::Pos, Sign::Pos) | (Sign::Neg, Sign::Neg) => Sign::Pos,
        _ => Sign::Neg,
    }
}

/// Applies a sign to an extended integer: negated, zeroed, or unchanged.
pub fn mul_sign(i: Integer, s: Sign) -> (r: Integer)
    ensures
        r == match s {
            Sign::Neg => i.neg_s(),
            Sign::Zero => Integer::Value(0),
            Sign::Pos => i,
        },
{
    match s {
        Sign::Neg => i.neg(),
        Sign::Zero => Integer::Value(0),
        Sign::Pos => i,
    }
}

/// The product of two nonzero finite integers has the sign given by the
/// signs of its factors, and a zero factor gives a zero product.
proof fn lemma_mul_sign(x: int, y: int)
    ensures
        x > 0 && y > 0 ==> x * y > 0,
        x < 0 && y < 0 ==> x * y > 0,
        x > 0 && y < 0 ==> x * y < 0,
        x < 0 && y > 0 ==> x * y < 0,
        x == 0 || y == 0 ==> x * y == 0,
{
    assert(x > 0 && y > 0 ==> x * y > 0) by (nonlinear_arith);
    assert(x < 0 && y < 0 ==> x * y > 0) by (nonlinear_arith);
    assert(x > 0 && y < 0 ==> x * y < 0) by (nonlinear_arith);
    assert(x < 0 && y > 0 ==> x * y < 0) by (nonlinear_arith);
    assert(x == 0 || y == 0 ==> x * y == 0) by (nonlinear_arith);
}

/// Truncating division only overflows an `i64` on `i64::MIN / -1`, where
/// the true quotient lies just above `i64::MAX`.
proof fn lemma_trunc_div_overflow(x: int, d: int)
    requires
        i64::MIN <= x <= i64::MAX,
        i64::MIN <= d <= i64::MAX,
        d != 0,
        trunc_div(x, d) > i64::MAX || trunc_div(x, d) < i64::MIN,
    ensures
        trunc_div(x, d) > i64::MAX,
{
    lemma_trunc_div_bounds(x, d);
}

/// The magnitude of a truncating quotient never exceeds the magnitude of
/// the dividend.
proof fn lemma_trunc_div_bounds(x: int, d: int)
    requires
        d != 0,
    ensures
        x >= 0 ==> -x <= trunc_div(x, d) <= x,
        x < 0 ==> x <= trunc_div(x, d) <= -x,
{
    if x == 0 {
    } else if x > 0 && d > 0 {
        lemma_div_bound_pos(x, d);
    } else if x < 0 && d < 0 {
        lemma_div_bound_pos(x * -1, d * -1);
    } else if x < 0 {
        lemma_div_bound_pos(x * -1, d);
    } else {
        lemma_div_bound_pos(x, d * -1);
    }
}

/// Euclidean division of positives is bounded by the dividend.
proof fn lemma_div_bound_pos(x: int, d: int)
    requires
        x > 0,
        d > 0,
    ensures
        0 <= x / d <= x,
{
    assert(0 <= x / d <= x) by (nonlinear_arith)
        requires
            x > 0,
            d > 0,
    ;
}

} // verus!
