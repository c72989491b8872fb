//! Signs of extended integers, used by saturating multiplication.

use vstd::prelude::*;

use crate::integer::Integer;

verus! {

/// The sign of an extended integer: negative, zero, or positive.
#[derive(Clone, Copy, Debug, PartialEq, Eq, Structural)]
pub enum Sign {
    Neg,
    Zero,
    Pos,
}

/// The sign of `i` as a mathematical integer in `{-1, 0, 1}`.
pub open spec fn sign_s(i: Integer) -> int {
    match i {
        Integer::NegInf => -1,
        Integer::Value(v) => if v > 0 {
            1int
        } else if v < 0 {
            -1int
        } else {
            0int
        },
        Integer::PosInf => 1,
    }
}

/// Computes the sign of an extended integer; both infinities are signed.
pub fn sign(i: Integer) -> (s: Sign)
    ensures
        s == Sign::Neg <==> sign_s(i) == -1,
        s == Sign::Zero <==> sign_s(i) == 0,
        s == Sign::Pos <==> sign_s(i) == 1,
{
    match i {
        Integer::NegInf => Sign::Neg,
        Integer::Value(n) => if n < 0 {
            Sign::Neg
        } else if n == 0 {
            Sign::Zero
        } else {
            Sign::Pos
        },
        Integer::PosInf => Sign::Pos,
    }
}

/// Computes the sign of a machine integer.
pub fn sign_i64(i: i64) -> (s: Sign)
    ensures
        s == Sign::Neg <==> i < 0,
        s == Sign::Zero <==> i == 0,
        s == Sign::Pos <==> i > 0,
{
    if i < 0 {
        Sign::Neg
    } else if i == 0 {
        Sign::Zero
    } else {
        Sign::Pos
    }
}

} // verus!
