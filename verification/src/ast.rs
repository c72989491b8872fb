//! The abstract syntax of the analyzed "while" language.

use vstd::prelude::*;

use crate::integer::Integer;

verus! {

/// A variable name.
pub type Identifier = String;

/// A statement of the analyzed language.
#[derive(Debug)]
pub enum Statement {
    Skip,
    Chain(Box<Statement>, Box<Statement>),
    Assignment { var: Identifier, val: Box<ArithmeticExpr> },
    If { cond: Box<BooleanExpr>, s1: Box<Statement>, s2: Box<Statement> },
    While { cond: Box<BooleanExpr>, body: Box<Statement>, delay: Option<i64> },
    RepeatUntil { body: Box<Statement>, cond: Box<BooleanExpr>, delay: Option<i64> },
}

/// An arithmetic expression. `Interval` is a literal range; the two
/// post-operators read a variable and then move it by one.
#[derive(Debug)]
pub enum ArithmeticExpr {
    Number(Integer),
    Interval(Box<ArithmeticExpr>, Box<ArithmeticExpr>),
    Variable(Identifier),
    Add(Box<ArithmeticExpr>, Box<ArithmeticExpr>),
    Sub(Box<ArithmeticExpr>, Box<ArithmeticExpr>),
    Mul(Box<ArithmeticExpr>, Box<ArithmeticExpr>),
    Div(Box<ArithmeticExpr>, Box<ArithmeticExpr>),
    PostIncrement(Identifier),
    PostDecrement(Identifier),
}

/// A boolean expression over arithmetic comparisons.
#[derive(Debug)]
pub enum BooleanExpr {
    True,
    False,
    Not(Box<BooleanExpr>),
    And(Box<BooleanExpr>, Box<BooleanExpr>),
    Or(Box<BooleanExpr>, Box<BooleanExpr>),
    NumEq(Box<ArithmeticExpr>, Box<ArithmeticExpr>),
    NumNotEq(Box<ArithmeticExpr>, Box<ArithmeticExpr>),
    NumLt(Box<ArithmeticExpr>, Box<ArithmeticExpr>),
    NumGt(Box<ArithmeticExpr>, Box<ArithmeticExpr>),
    NumLtEq(Box<ArithmeticExpr>, Box<ArithmeticExpr>),
    NumGtEq(Box<ArithmeticExpr>, Box<ArithmeticExpr>),
}

/// An error of expression evaluation: a program fault to surface to the
/// caller, distinct from an infeasible (bottom) abstract state.
#[derive(Clone, Copy, Debug, PartialEq, Eq, Structural)]
pub enum ArithmeticExprError {
    /// Division by the constant zero.
    DivByZero,
    /// A literal interval whose lower bound lies above its upper bound.
    InvalidIntervalBounds,
}

impl Clone for ArithmeticExpr {
    /// An exact structural copy.
    fn clone(&self) -> (r: ArithmeticExpr)
        ensures
            r == *self,
        decreases *self,
    {
        match self {
            ArithmeticExpr::Number(n) => ArithmeticExpr::Number(*n),
            ArithmeticExpr::Interval(a1, a2) => ArithmeticExpr::Interval(
                Box::new((**a1).clone()),
                Box::new((**a2).clone()),
            ),
            ArithmeticExpr::Variable(v) => ArithmeticExpr::Variable(v.clone()),
            ArithmeticExpr::Add(a1, a2) => ArithmeticExpr::Add(
                Box::new((**a1).clone()),
                Box::new((**a2).clone()),
            ),
            ArithmeticExpr::Sub(a1, a2) => ArithmeticExpr::Sub(
                Box::new((**a1).clone()),
                Box::new((**a2).clone()),
            ),
            ArithmeticExpr::Mul(a1, a2) => ArithmeticExpr::Mul(
                Box::new((**a1).clone()),
                Box::new((**a2).clone()),
            ),
            ArithmeticExpr::Div(a1, a2) => ArithmeticExpr::Div(
                Box::new((**a1).clone()),
                Box::new((**a2).clone()),
            ),
            ArithmeticExpr::PostIncrement(v) => ArithmeticExpr::PostIncrement(v.clone()),
            ArithmeticExpr::PostDecrement(v) => ArithmeticExpr::PostDecrement(v.clone()),
        }
    }
}

impl Clone for BooleanExpr {
    /// An exact structural copy.
    fn clone(&self) -> (r: BooleanExpr)
        ensures
            r == *self,
        decreases *self,
    {
        match self {
            BooleanExpr::True => BooleanExpr::True,
            BooleanExpr::False => BooleanExpr::False,
            BooleanExpr::Not(b) => BooleanExpr::Not(Box::new((**b).clone())),
            BooleanExpr::And(b1, b2) => BooleanExpr::And(
                Box::new((**b1).clone()),
                Box::new((**b2).clone()),
            ),
            BooleanExpr::Or(b1, b2) => BooleanExpr::Or(
                Box::new((**b1).clone()),
                Box::new((**b2).clone()),
            ),
            BooleanExpr::NumEq(a1, a2) => BooleanExpr::NumEq(
                Box::new((**a1).clone()),
                Box::new((**a2).clone()),
            ),
            BooleanExpr::NumNotEq(a1, a2) => BooleanExpr::NumNotEq(
                Box::new((**a1).clone()),
                Box::new((**a2).clone()),
            ),
            BooleanExpr::NumLt(a1, a2) => BooleanExpr::NumLt(
                Box::new((**a1).clone()),
                Box::new((**a2).clone()),
            ),
            BooleanExpr::NumGt(a1, a2) => BooleanExpr::NumGt(
                Box::new((**a1).clone()),
                Box::new((**a2).clone()),
            ),
            BooleanExpr::NumLtEq(a1, a2) => BooleanExpr::NumLtEq(
                Box::new((**a1).clone()),
                Box::new((**a2).clone()),
            ),
            BooleanExpr::NumGtEq(a1, a2) => BooleanExpr::NumGtEq(
                Box::new((**a1).clone()),
                Box::new((**a2).clone()),
            ),
        }
    }
}

impl Clone for Statement {
    /// An exact structural copy.
    fn clone(&self) -> (r: Statement)
        ensures
            r == *self,
        decreases *self,
    {
        match self {
            Statement::Skip => Statement::Skip,
            Statement::Chain(s1, s2) => Statement::Chain(
                Box::new((**s1).clone()),
                Box::new((**s2).clone()),
            ),
            Statement::Assignment { var, val } => Statement::Assignment {
                var: var.clone(),
                val: Box::new((**val).clone()),
            },
            Statement::If { cond, s1, s2 } => Statement::If {
                cond: Box::new((**cond).clone()),
                s1: Box::new((**s1).clone()),
                s2: Box::new((**s2).clone()),
            },
            Statement::While { cond, body, delay } => Statement::While {
                cond: Box::new((**cond).clone()),
                body: Box::new((**body).clone()),
                delay: *delay,
            },
            Statement::RepeatUntil { body, cond, delay } => Statement::RepeatUntil {
                body: Box::new((**body).clone()),
                cond: Box::new((**cond).clone()),
                delay: *delay,
            },
        }
    }
}

impl BooleanExpr {

    /// The negation of this expression, with negation pushed through
    /// conjunction and disjunction and comparisons flipped.
    pub open spec fn negate_s(self) -> BooleanExpr
        decreases self,
    {
        match self {
            BooleanExpr::True => BooleanExpr::False,
            BooleanExpr::False => BooleanExpr::True,
            BooleanExpr::Not(b) => *b,
            BooleanExpr::And(b1, b2) => BooleanExpr::Or(
                Box::new(BooleanExpr::Not(b1)),
                Box::new(BooleanExpr::Not(b2)),
            ),
            BooleanExpr::Or(b1, b2) => BooleanExpr::And(
                Box::new(BooleanExpr::Not(b1)),
                Box::new(BooleanExpr::Not(b2)),
            ),
            BooleanExpr::NumEq(a1, a2) => BooleanExpr::NumNotEq(a1, a2),
            BooleanExpr::NumNotEq(a1, a2) => BooleanExpr::NumEq(a1, a2),
            BooleanExpr::NumLt(a1, a2) => BooleanExpr::NumGtEq(a1, a2),
            BooleanExpr::NumGt(a1, a2) => BooleanExpr::NumLtEq(a1, a2),
            BooleanExpr::NumLtEq(a1, a2) => BooleanExpr::NumGt(a1, a2),
            BooleanExpr::NumGtEq(a1, a2) => BooleanExpr::NumLt(a1, a2),
        }
    }

    /// Negates this expression as an abstract-syntax transformation.
    pub fn negate(&self) -> (r: BooleanExpr)
        ensures
            r == self.negate_s(),
    {
        match self {
            BooleanExpr::True => BooleanExpr::False,
            BooleanExpr::False => BooleanExpr::True,
            BooleanExpr::Not(b) => (**b).clone(),
            BooleanExpr::And(b1, b2) => BooleanExpr::Or(
                Box::new(BooleanExpr::Not(b1.clone())),
                Box::new(BooleanExpr::Not(b2.clone())),
            ),
            BooleanExpr::Or(b1, b2) => BooleanExpr::And(
                Box::new(BooleanExpr::Not(b1.clone())),
                Box::new(BooleanExpr::Not(b2.clone())),
            ),
            BooleanExpr::NumEq(a1, a2) => BooleanExpr::NumNotEq(a1.clone(), a2.clone()),
            BooleanExpr::NumNotEq(a1, a2) => BooleanExpr::NumEq(a1.clone(), a2.clone()),
            BooleanExpr::NumLt(a1, a2) => BooleanExpr::NumGtEq(a1.clone(), a2.clone()),
            BooleanExpr::NumGt(a1, a2) => BooleanExpr::NumLtEq(a1.clone(), a2.clone()),
            BooleanExpr::NumLtEq(a1, a2) => BooleanExpr::NumGt(a1.clone(), a2.clone()),
            BooleanExpr::NumGtEq(a1, a2) => BooleanExpr::NumLt(a1.clone(), a2.clone()),
        }
    }
}

impl ArithmeticExpr {
    /// Structural similarity: equal up to the symmetry of addition and
    /// multiplication, on leaves and single operators.
    pub open spec fn is_same_s(self, other: ArithmeticExpr) -> bool
        decreases self,
    {
        match (self, other) {
            (ArithmeticExpr::Number(a), ArithmeticExpr::Number(b)) => a == b,
            (ArithmeticExpr::Variable(a), ArithmeticExpr::Variable(b)) => a@ == b@,
            (ArithmeticExpr::Add(a1, a2), ArithmeticExpr::Add(b1, b2)) => (a1.is_same_s(*b1)
                && a2.is_same_s(*b2)) || (a1.is_same_s(*b2) && a2.is_same_s(*b1)),
            (ArithmeticExpr::Mul(a1, a2), ArithmeticExpr::Mul(b1, b2)) => (a1.is_same_s(*b1)
                && a2.is_same_s(*b2)) || (a1.is_same_s(*b2) && a2.is_same_s(*b1)),
            (ArithmeticExpr::Sub(a1, a2), ArithmeticExpr::Sub(b1, b2)) => a1.is_same_s(*b1)
                && a2.is_same_s(*b2),
            (ArithmeticExpr::Div(a1, a2), ArithmeticExpr::Div(b1, b2)) => a1.is_same_s(*b1)
                && a2.is_same_s(*b2),
            _ => false,
        }
    }

    /// Decides structural similarity, up to the symmetry of addition and
    /// multiplication. A test on two similar operands (`x < x`, `x != x`)
    /// can never hold.
    pub fn is_same(&self, other: &ArithmeticExpr) -> (r: bool)
        ensures
            r == self.is_same_s(*other),
        decreases *self,
    {
        match (self, other) {
            (ArithmeticExpr::Number(a), ArithmeticExpr::Number(b)) => *a == *b,
            (ArithmeticExpr::Variable(a), ArithmeticExpr::Variable(b)) => *a == *b,
            (ArithmeticExpr::Add(a1, a2), ArithmeticExpr::Add(b1, b2)) => (a1.is_same(b1)
                && a2.is_same(b2)) || (a1.is_same(b2) && a2.is_same(b1)),
            (ArithmeticExpr::Mul(a1, a2), ArithmeticExpr::Mul(b1, b2)) => (a1.is_same(b1)
                && a2.is_same(b2)) || (a1.is_same(b2) && a2.is_same(b1)),
            (ArithmeticExpr::Sub(a1, a2), ArithmeticExpr::Sub(b1, b2)) => a1.is_same(b1)
                && a2.is_same(b2),
            (ArithmeticExpr::Div(a1, a2), ArithmeticExpr::Div(b1, b2)) => a1.is_same(b1)
                && a2.is_same(b2),
            _ => false,
        }
    }
}

/// The magnitude of the literal `n` plus one, saturated into `i64`.
pub open spec fn magnitude_s(n: i64) -> i64 {
    let a = if n < 0 {
        -(n as int)
    } else {
        n as int
    };
    if a + 1 > i64::MAX {
        i64::MAX
    } else {
        (a + 1) as i64
    }
}

/// The magnitude of the literal `n` plus one, saturated into `i64`.
fn magnitude(n: i64) -> (r: i64)
    ensures
        r == magnitude_s(n),
{
    if n == i64::MIN {
        i64::MAX
    } else {
        let a: i64 = if n < 0 {
            -n
        } else {
            n
        };
        if a == i64::MAX {
            i64::MAX
        } else {
            a + 1
        }
    }
}

/// The larger of two optional magnitudes; an absent operand defers to the
/// other.
pub open spec fn opt_max_s(a: Option<i64>, b: Option<i64>) -> Option<i64> {
    match (a, b) {
        (Some(x), Some(y)) => if x >= y {
            a
        } else {
            b
        },
        (Some(_), None) => a,
        (None, _) => b,
    }
}

/// The larger of two optional magnitudes.
fn opt_max(a: Option<i64>, b: Option<i64>) -> (r: Option<i64>)
    ensures
        r == opt_max_s(a, b),
{
    match (a, b) {
        (Some(x), Some(y)) => if x >= y {
            Some(x)
        } else {
            Some(y)
        },
        (Some(x), None) => Some(x),
        (None, y) => y,
    }
}

impl ArithmeticExpr {
    /// The largest literal magnitude in the expression, plus one; absent
    /// when the expression holds no finite literal.
    pub open spec fn get_max_number_s(self) -> Option<i64>
        decreases self,
    {
        match self {
            ArithmeticExpr::Number(Integer::Value(n)) => Some(magnitude_s(n)),
            ArithmeticExpr::Interval(a1, a2) => opt_max_s(
                a1.get_max_number_s(),
                a2.get_max_number_s(),
            ),
            ArithmeticExpr::Add(a1, a2) => opt_max_s(a1.get_max_number_s(), a2.get_max_number_s()),
            ArithmeticExpr::Sub(a1, a2) => opt_max_s(a1.get_max_number_s(), a2.get_max_number_s()),
            ArithmeticExpr::Mul(a1, a2) => opt_max_s(a1.get_max_number_s(), a2.get_max_number_s()),
            ArithmeticExpr::Div(a1, a2) => opt_max_s(a1.get_max_number_s(), a2.get_max_number_s()),
            _ => None,
        }
    }

    /// The largest literal magnitude in the expression, plus one. Feeds
    /// the automatic clamp window.
    pub fn get_max_number(&self) -> (r: Option<i64>)
        ensures
            r == self.get_max_number_s(),
        decreases *self,
    {
        match self {
            ArithmeticExpr::Number(n) => match *n {
                Integer::Value(v) => Some(magnitude(v)),
                _ => None,
            },
            ArithmeticExpr::Interval(a1, a2) => opt_max(a1.get_max_number(), a2.get_max_number()),
            ArithmeticExpr::Add(a1, a2) => opt_max(a1.get_max_number(), a2.get_max_number()),
            ArithmeticExpr::Sub(a1, a2) => opt_max(a1.get_max_number(), a2.get_max_number()),
            ArithmeticExpr::Mul(a1, a2) => opt_max(a1.get_max_number(), a2.get_max_number()),
            ArithmeticExpr::Div(a1, a2) => opt_max(a1.get_max_number(), a2.get_max_number()),
            _ => None,
        }
    }
}

impl BooleanExpr {
    /// The largest literal magnitude under the comparisons of this
    /// expression, plus one.
    pub open spec fn get_max_number_s(self) -> Option<i64>
        decreases self,
    {
        match self {
            BooleanExpr::NumEq(a1, a2) => opt_max_s(a1.get_max_number_s(), a2.get_max_number_s()),
            BooleanExpr::NumNotEq(a1, a2) => opt_max_s(
                a1.get_max_number_s(),
                a2.get_max_number_s(),
            ),
            BooleanExpr::NumLt(a1, a2) => opt_max_s(a1.get_max_number_s(), a2.get_max_number_s()),
            BooleanExpr::NumGt(a1, a2) => opt_max_s(a1.get_max_number_s(), a2.get_max_number_s()),
            BooleanExpr::NumLtEq(a1, a2) => opt_max_s(a1.get_max_number_s(), a2.get_max_number_s()),
            BooleanExpr::NumGtEq(a1, a2) => opt_max_s(a1.get_max_number_s(), a2.get_max_number_s()),
            _ => None,
        }
    }

    /// The largest literal magnitude under the comparisons of this
    /// expression, plus one.
    pub fn get_max_number(&self) -> (r: Option<i64>)
        ensures
            r == self.get_max_number_s(),
    {
        match self {
            BooleanExpr::NumEq(a1, a2) => opt_max(a1.get_max_number(), a2.get_max_number()),
            BooleanExpr::NumNotEq(a1, a2) => opt_max(a1.get_max_number(), a2.get_max_number()),
            BooleanExpr::NumLt(a1, a2) => opt_max(a1.get_max_number(), a2.get_max_number()),
            BooleanExpr::NumGt(a1, a2) => opt_max(a1.get_max_number(), a2.get_max_number()),
            BooleanExpr::NumLtEq(a1, a2) => opt_max(a1.get_max_number(), a2.get_max_number()),
            BooleanExpr::NumGtEq(a1, a2) => opt_max(a1.get_max_number(), a2.get_max_number()),
            _ => None,
        }
    }
}

impl Statement {
    /// The largest literal magnitude in the statement, plus one; absent
    /// when the program holds no finite literal.
    pub open spec fn get_max_number_s(self) -> Option<i64>
        decreases self,
    {
        match self {
            Statement::Skip => None,
            Statement::Chain(s1, s2) => opt_max_s(s1.get_max_number_s(), s2.get_max_number_s()),
            Statement::Assignment { var: _, val } => val.get_max_number_s(),
            Statement::If { cond, s1, s2 } => opt_max_s(
                cond.get_max_number_s(),
                opt_max_s(s1.get_max_number_s(), s2.get_max_number_s()),
            ),
            Statement::While { cond, body, delay: _ } => opt_max_s(
                cond.get_max_number_s(),
                body.get_max_number_s(),
            ),
            Statement::RepeatUntil { body, cond, delay: _ } => opt_max_s(
                cond.get_max_number_s(),
                body.get_max_number_s(),
            ),
        }
    }

    /// The largest literal magnitude in the statement, plus one. The
    /// automatic clamp window is `[-m, m]` for this magnitude `m`.
    pub fn get_max_number(&self) -> (r: Option<i64>)
        ensures
            r == self.get_max_number_s(),
        decreases *self,
    {
        match self {
            Statement::Skip => None,
            Statement::Chain(s1, s2) => opt_max(s1.get_max_number(), s2.get_max_number()),
            Statement::Assignment { var: _, val } => val.get_max_number(),
            Statement::If { cond, s1, s2 } => opt_max(
                cond.get_max_number(),
                opt_max(s1.get_max_number(), s2.get_max_number()),
            ),
            Statement::While { cond, body, delay: _ } => opt_max(
                cond.get_max_number(),
                body.get_max_number(),
            ),
            Statement::RepeatUntil { body, cond, delay: _ } => opt_max(
                cond.get_max_number(),
                body.get_max_number(),
            ),
        }
    }

    /// The configured widening delay of a loop statement, zero when none
    /// is set or the statement is no loop.
    pub open spec fn loop_delay_s(self) -> i64 {
        match self {
            Statement::While { cond: _, body: _, delay: Some(d) } => if d > 0 {
                d
            } else {
                0
            },
            Statement::RepeatUntil { body: _, cond: _, delay: Some(d) } => if d > 0 {
                d
            } else {
                0
            },
            _ => 0,
        }
    }

    /// The configured widening delay of a loop statement.
    pub fn get_loop_delay(&self) -> (r: i64)
        ensures
            r == self.loop_delay_s(),
    {
        match self {
            Statement::While { cond: _, body: _, delay: Some(d) } => if *d > 0 {
                *d
            } else {
                0
            },
            Statement::RepeatUntil { body: _, cond: _, delay: Some(d) } => if *d > 0 {
                *d
            } else {
                0
            },
            _ => 0,
        }
    }
}

/// A structural size measure for termination of statement recursion.
pub open spec fn stmt_size(s: Statement) -> nat
    decreases s,
{
    match s {
        Statement::Skip => 1,
        Statement::Assignment { .. } => 1,
        Statement::Chain(s1, s2) => stmt_size(*s1) + stmt_size(*s2) + 1,
        Statement::If { cond: _, s1, s2 } => stmt_size(*s1) + stmt_size(*s2) + 2,
        Statement::While { cond: _, body, delay: _ } => stmt_size(*body) + 2,
        Statement::RepeatUntil { body, cond: _, delay: _ } => stmt_size(*body) + 2,
    }
}

/// The number of program points of a statement: one per skip and
/// assignment, and the guard, branch and merge points of conditionals and
/// loops. The recorded trace of an analysis holds exactly one abstract
/// state per program point, in program order.
pub open spec fn num_points(s: Statement) -> int
    decreases s,
{
    match s {
        Statement::Skip => 1,
        Statement::Assignment { .. } => 1,
        Statement::Chain(s1, s2) => num_points(*s1) + num_points(*s2),
        Statement::If { cond: _, s1, s2 } => num_points(*s1) + num_points(*s2) + 3,
        Statement::While { cond: _, body, delay: _ } => num_points(*body) + 3,
        Statement::RepeatUntil { body, cond: _, delay: _ } => num_points(*body) + num_points(*body)
            + 3,
    }
}

} // verus!

