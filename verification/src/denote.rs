//! The denotational evaluator: arithmetic and boolean expressions as
//! abstract-state transformers, and statements as transformers that also
//! record one abstract state per program point.

use vstd::prelude::*;

use crate::ast::{num_points, stmt_size, ArithmeticExpr, ArithmeticExprError, BooleanExpr, Statement};
use crate::bounds::Bounds;
use crate::domain::Domain;
use crate::expression_tree::{ArithOp, ExpressionTree};
use crate::lattice::Lattice;
use crate::state::{
    equiv_view, glb_f, join_states_view, lub_f, meet_states_view, narrow_f, put_view, read_view,
    widen_f, State,
};

verus! {

/// The mapping a state stands for: `None` is the unreachable state.
pub type StateView<T> = Option<Map<Seq<char>, T>>;

/// The meaning of an arithmetic expression: its abstract value and the
/// state after its side effects, or an arithmetic error. Under the
/// unreachable state nothing is evaluated: the value is bottom and no
/// error can arise. Division fails exactly when its divisor evaluates to
/// the constant zero; under a clamp window that excludes zero, the
/// literal zero abstracts to a wider clamped range and is then no longer
/// that constant, so such a division splits the range instead of failing.
pub open spec fn eval_aexpr_s<T: Domain>(e: ArithmeticExpr, v: StateView<T>, b: Bounds) -> Result<
    (T, StateView<T>),
    ArithmeticExprError,
>
    decreases e,
{
    if v is None {
        Ok((T::bot_s(), None))
    } else {
        match e {
            ArithmeticExpr::Number(n) => Ok((T::from_number_s(n, b), v)),
            ArithmeticExpr::Variable(x) => Ok((read_view(v->Some_0, x@), v)),
            ArithmeticExpr::PostIncrement(x) => {
                let val = read_view(v->Some_0, x@);
                Ok((val, put_view(v, x@, val.plus_d(T::unit_s(b), b))))
            },
            ArithmeticExpr::PostDecrement(x) => {
                let val = read_view(v->Some_0, x@);
                Ok((val, put_view(v, x@, val.minus_d(T::unit_s(b), b))))
            },
            ArithmeticExpr::Interval(a1, a2) => match eval_aexpr_s::<T>(*a1, v, b) {
                Err(er) => Err(er),
                Ok((x1, v1)) => match eval_aexpr_s::<T>(*a2, v1, b) {
                    Err(er) => Err(er),
                    Ok((x2, v2)) => match x1.interval_lit_s(x2, b) {
                        Some(val) => Ok((val, v2)),
                        None => Err(ArithmeticExprError::InvalidIntervalBounds),
                    },
                },
            },
            ArithmeticExpr::Add(a1, a2) => match eval_aexpr_s::<T>(*a1, v, b) {
                Err(er) => Err(er),
                Ok((x1, v1)) => match eval_aexpr_s::<T>(*a2, v1, b) {
                    Err(er) => Err(er),
                    Ok((x2, v2)) => Ok((x1.plus_d(x2, b), v2)),
                },
            },
            ArithmeticExpr::Sub(a1, a2) => match eval_aexpr_s::<T>(*a1, v, b) {
                Err(er) => Err(er),
                Ok((x1, v1)) => match eval_aexpr_s::<T>(*a2, v1, b) {
                    Err(er) => Err(er),
                    Ok((x2, v2)) => Ok((x1.minus_d(x2, b), v2)),
                },
            },
            ArithmeticExpr::Mul(a1, a2) => match eval_aexpr_s::<T>(*a1, v, b) {
                Err(er) => Err(er),
                Ok((x1, v1)) => match eval_aexpr_s::<T>(*a2, v1, b) {
                    Err(er) => Err(er),
                    Ok((x2, v2)) => Ok((x1.times_d(x2, b), v2)),
                },
            },
            ArithmeticExpr::Div(a1, a2) => match eval_aexpr_s::<T>(*a1, v, b) {
                Err(er) => Err(er),
                Ok((x1, v1)) => match eval_aexpr_s::<T>(*a2, v1, b) {
                    Err(er) => Err(er),
                    Ok((x2, v2)) => if x2.is_zero_s() {
                        Err(ArithmeticExprError::DivByZero)
                    } else {
                        Ok((x1.div_d(x2, b), v2))
                    },
                },
            },
        }
    }
}

/// The expression tree of `e` under `v`: each node carries the abstract
/// value of its sub-expression, and the returned state carries the whole
/// expression's side effects.
pub open spec fn build_s<T: Domain>(e: ArithmeticExpr, v: StateView<T>, b: Bounds) -> Result<
    (ExpressionTree<T>, StateView<T>),
    ArithmeticExprError,
>
    decreases e,
{
    match eval_aexpr_s::<T>(e, v, b) {
        Err(er) => Err(er),
        Ok((val, nv)) => match e {
            ArithmeticExpr::Number(_) => Ok((ExpressionTree::Value(val), nv)),
            ArithmeticExpr::Interval(_, _) => Ok((ExpressionTree::Value(val), nv)),
            ArithmeticExpr::Variable(x) => Ok((ExpressionTree::Variable(x, val), nv)),
            ArithmeticExpr::PostIncrement(x) => Ok((ExpressionTree::Variable(x, val), nv)),
            ArithmeticExpr::PostDecrement(x) => Ok((ExpressionTree::Variable(x, val), nv)),
            ArithmeticExpr::Add(a1, a2) => match build_s::<T>(*a1, v, b) {
                Err(er) => Err(er),
                Ok((l, s)) => match build_s::<T>(*a2, s, b) {
                    Err(er) => Err(er),
                    Ok((t2, _)) => Ok(
                        (
                            ExpressionTree::Binop {
                                op: ArithOp::Add,
                                value: val,
                                l: Box::new(l),
                                r: Box::new(t2),
                            },
                            nv,
                        ),
                    ),
                },
            },
            ArithmeticExpr::Sub(a1, a2) => match build_s::<T>(*a1, v, b) {
                Err(er) => Err(er),
                Ok((l, s)) => match build_s::<T>(*a2, s, b) {
                    Err(er) => Err(er),
                    Ok((t2, _)) => Ok(
                        (
                            ExpressionTree::Binop {
                                op: ArithOp::Sub,
                                value: val,
                                l: Box::new(l),
                                r: Box::new(t2),
                            },
                            nv,
                        ),
                    ),
                },
            },
            ArithmeticExpr::Mul(a1, a2) => match build_s::<T>(*a1, v, b) {
                Err(er) => Err(er),
                Ok((l, s)) => match build_s::<T>(*a2, s, b) {
                    Err(er) => Err(er),
                    Ok((t2, _)) => Ok(
                        (
                            ExpressionTree::Binop {
                                op: ArithOp::Mul,
                                value: val,
                                l: Box::new(l),
                                r: Box::new(t2),
                            },
                            nv,
                        ),
                    ),
                },
            },
            ArithmeticExpr::Div(a1, a2) => match build_s::<T>(*a1, v, b) {
                Err(er) => Err(er),
                Ok((l, s)) => match build_s::<T>(*a2, s, b) {
                    Err(er) => Err(er),
                    Ok((t2, _)) => Ok(
                        (
                            ExpressionTree::Binop {
                                op: ArithOp::Div,
                                value: val,
                                l: Box::new(l),
                                r: Box::new(t2),
                            },
                            nv,
                        ),
                    ),
                },
            },
        },
    }
}

/// The state refined by an equality test: both operand trees are cut down
/// to the meet of their values; an empty meet proves the test infeasible.
/// The operands' side effects are then replayed on the refined state.
pub open spec fn eval_eq_s<T: Domain>(
    a1: ArithmeticExpr,
    a2: ArithmeticExpr,
    v: StateView<T>,
    b: Bounds,
) -> Result<StateView<T>, ArithmeticExprError> {
    match build_s::<T>(a1, v, b) {
        Err(er) => Err(er),
        Ok((t1, _)) => match build_s::<T>(a2, v, b) {
            Err(er) => Err(er),
            Ok((t2, _)) => {
                let inter = t1.value_s().glb_s(t2.value_s(), b);
                if inter == T::bot_s() {
                    Ok(None)
                } else {
                    let s1 = t1.refine_s(inter, v, b);
                    let s2 = t2.refine_s(inter, s1, b);
                    match eval_aexpr_s::<T>(a1, s2, b) {
                        Err(er) => Err(er),
                        Ok((_, s3)) => match eval_aexpr_s::<T>(a2, s3, b) {
                            Err(er) => Err(er),
                            Ok((_, s4)) => Ok(s4),
                        },
                    }
                }
            },
        },
    }
}

/// The state after a disequality test: two structurally similar operands
/// can never differ; otherwise the domain may refute the test, and a
/// feasible test keeps the state with the operands' side effects.
pub open spec fn eval_neq_s<T: Domain>(
    a1: ArithmeticExpr,
    a2: ArithmeticExpr,
    v: StateView<T>,
    b: Bounds,
) -> Result<StateView<T>, ArithmeticExprError> {
    if a1.is_same_s(a2) {
        Ok(None)
    } else {
        match eval_aexpr_s::<T>(a1, v, b) {
            Err(er) => Err(er),
            Ok((x1, v1)) => match eval_aexpr_s::<T>(a2, v1, b) {
                Err(er) => Err(er),
                Ok((x2, v2)) => if x1.neq_feasible_s(x2) {
                    Ok(v2)
                } else {
                    Ok(None)
                },
            },
        }
    }
}

/// The state refined by a strict comparison: each operand tree is cut to
/// its refinement target; an empty target proves the comparison
/// infeasible. Structurally similar operands can never compare strictly.
pub open spec fn eval_lt_s<T: Domain>(
    a1: ArithmeticExpr,
    a2: ArithmeticExpr,
    v: StateView<T>,
    b: Bounds,
) -> Result<StateView<T>, ArithmeticExprError> {
    if a1.is_same_s(a2) {
        Ok(None)
    } else {
        match build_s::<T>(a1, v, b) {
            Err(er) => Err(er),
            Ok((t1, _)) => match build_s::<T>(a2, v, b) {
                Err(er) => Err(er),
                Ok((t2, _)) => {
                    let targets = t1.value_s().lt_targets_s(t2.value_s(), b);
                    if targets.0 == T::bot_s() || targets.1 == T::bot_s() {
                        Ok(None)
                    } else {
                        let s1 = t1.refine_s(targets.0, v, b);
                        let s2 = t2.refine_s(targets.1, s1, b);
                        match eval_aexpr_s::<T>(a1, s2, b) {
                            Err(er) => Err(er),
                            Ok((_, s3)) => match eval_aexpr_s::<T>(a2, s3, b) {
                                Err(er) => Err(er),
                                Ok((_, s4)) => Ok(s4),
                            },
                        }
                    }
                },
            },
        }
    }
}

/// A non-strict comparison holds where the strict comparison or the
/// equality holds: the join of both refined states.
pub open spec fn eval_lteq_s<T: Domain>(
    a1: ArithmeticExpr,
    a2: ArithmeticExpr,
    v: StateView<T>,
    b: Bounds,
) -> Result<StateView<T>, ArithmeticExprError> {
    match eval_lt_s::<T>(a1, a2, v, b) {
        Err(er) => Err(er),
        Ok(l) => match eval_eq_s::<T>(a1, a2, v, b) {
            Err(er) => Err(er),
            Ok(e) => Ok(join_states_view(l, e, lub_f::<T>(b))),
        },
    }
}

/// The meaning of a boolean test: the sub-state of `v` on which the test
/// (or, under `neg`, its negation) may hold. Negation is pushed inward,
/// so every case ends at a comparison or a constant.
pub open spec fn eval_bexpr_s<T: Domain>(
    e: BooleanExpr,
    neg: bool,
    v: StateView<T>,
    b: Bounds,
) -> Result<StateView<T>, ArithmeticExprError>
    decreases e,
{
    match e {
        BooleanExpr::True => if neg {
            Ok(None)
        } else {
            Ok(v)
        },
        BooleanExpr::False => if neg {
            Ok(v)
        } else {
            Ok(None)
        },
        BooleanExpr::Not(b1) => eval_bexpr_s::<T>(*b1, !neg, v, b),
        BooleanExpr::And(b1, b2) => match eval_bexpr_s::<T>(*b1, neg, v, b) {
            Err(er) => Err(er),
            Ok(l) => match eval_bexpr_s::<T>(*b2, neg, l, b) {
                Err(er) => Err(er),
                Ok(r) => if neg {
                    Ok(join_states_view(l, r, lub_f::<T>(b)))
                } else {
                    Ok(meet_states_view(l, r, glb_f::<T>(b)))
                },
            },
        },
        BooleanExpr::Or(b1, b2) => match eval_bexpr_s::<T>(*b1, neg, v, b) {
            Err(er) => Err(er),
            Ok(l) => match eval_bexpr_s::<T>(*b2, neg, l, b) {
                Err(er) => Err(er),
                Ok(r) => if neg {
                    Ok(meet_states_view(l, r, glb_f::<T>(b)))
                } else {
                    Ok(join_states_view(l, r, lub_f::<T>(b)))
                },
            },
        },
        BooleanExpr::NumEq(a1, a2) => if neg {
            eval_neq_s::<T>(*a1, *a2, v, b)
        } else {
            eval_eq_s::<T>(*a1, *a2, v, b)
        },
        BooleanExpr::NumNotEq(a1, a2) => if neg {
            eval_eq_s::<T>(*a1, *a2, v, b)
        } else {
            eval_neq_s::<T>(*a1, *a2, v, b)
        },
        BooleanExpr::NumLt(a1, a2) => if neg {
            eval_lteq_s::<T>(*a2, *a1, v, b)
        } else {
            eval_lt_s::<T>(*a1, *a2, v, b)
        },
        BooleanExpr::NumGt(a1, a2) => if neg {
            eval_lteq_s::<T>(*a1, *a2, v, b)
        } else {
            eval_lt_s::<T>(*a2, *a1, v, b)
        },
        BooleanExpr::NumLtEq(a1, a2) => if neg {
            eval_lt_s::<T>(*a2, *a1, v, b)
        } else {
            eval_lteq_s::<T>(*a1, *a2, v, b)
        },
        BooleanExpr::NumGtEq(a1, a2) => if neg {
            eval_lt_s::<T>(*a1, *a2, v, b)
        } else {
            eval_lteq_s::<T>(*a2, *a1, v, b)
        },
    }
}

/// Evaluates an arithmetic expression to its abstract value and the state
/// after its side effects; an arithmetic fault is surfaced as an error.
pub fn eval_aexpr<T: Domain>(e: &ArithmeticExpr, state: &State<T>, b: &Bounds) -> (r: Result<
    (T, State<T>),
    ArithmeticExprError,
>)
    requires
        b.wf(),
        state.wf_state(*b),
    ensures
        match (r, eval_aexpr_s::<T>(*e, state@, *b)) {
            (Ok(p), Ok(q)) => p.0 == q.0 && p.1@ == q.1 && p.0.wf(*b) && p.1.wf_state(*b),
            (Err(e1), Err(e2)) => e1 == e2,
            _ => false,
        },
    decreases *e, 1int,
{
    if state.is_bottom() {
        return Ok((T::bot(), State::Bottom));
    }
    match e {
        ArithmeticExpr::Number(n) => Ok((T::from_number(*n, b), state.clone())),
        ArithmeticExpr::Variable(x) => Ok((state.read(x, b), state.clone())),
        ArithmeticExpr::PostIncrement(x) => {
            let val = state.read(x, b);
            let nv = val.plus_v(&T::unit(b), b);
            Ok((val, state.put(x, nv, b)))
        },
        ArithmeticExpr::PostDecrement(x) => {
            let val = state.read(x, b);
            let nv = val.minus_v(&T::unit(b), b);
            Ok((val, state.put(x, nv, b)))
        },
        _ => eval_aexpr_compound(e, state, b),
    }
}

/// Evaluates a literal range or an operator application: both operands in
/// sequence, then the node's own operation.
fn eval_aexpr_compound<T: Domain>(e: &ArithmeticExpr, state: &State<T>, b: &Bounds) -> (r: Result<
    (T, State<T>),
    ArithmeticExprError,
>)
    requires
        b.wf(),
        state.wf_state(*b),
        state@ is Some,
        e matches ArithmeticExpr::Interval(_, _) || e matches ArithmeticExpr::Add(_, _)
            || e matches ArithmeticExpr::Sub(_, _) || e matches ArithmeticExpr::Mul(_, _)
            || e matches ArithmeticExpr::Div(_, _),
    ensures
        match (r, eval_aexpr_s::<T>(*e, state@, *b)) {
            (Ok(p), Ok(q)) => p.0 == q.0 && p.1@ == q.1 && p.0.wf(*b) && p.1.wf_state(*b),
            (Err(e1), Err(e2)) => e1 == e2,
            _ => false,
        },
    decreases *e, 0int,
{
    let (a1, a2) = match e {
        ArithmeticExpr::Interval(a1, a2) => (a1, a2),
        ArithmeticExpr::Add(a1, a2) => (a1, a2),
        ArithmeticExpr::Sub(a1, a2) => (a1, a2),
        ArithmeticExpr::Mul(a1, a2) => (a1, a2),
        ArithmeticExpr::Div(a1, a2) => (a1, a2),
        _ => {
            proof {
                assert(false);
            }
            return Err(ArithmeticExprError::DivByZero);
        },
    };
    match eval_aexpr(a1, state, b) {
        Err(er) => Err(er),
        Ok((x1, s1)) => match eval_aexpr(a2, &s1, b) {
            Err(er) => Err(er),
            Ok((x2, s2)) => match e {
                ArithmeticExpr::Interval(_, _) => match x1.interval_lit(&x2, b) {
                    Some(val) => Ok((val, s2)),
                    None => Err(ArithmeticExprError::InvalidIntervalBounds),
                },
                ArithmeticExpr::Add(_, _) => Ok((x1.plus_v(&x2, b), s2)),
                ArithmeticExpr::Sub(_, _) => Ok((x1.minus_v(&x2, b), s2)),
                ArithmeticExpr::Mul(_, _) => Ok((x1.times_v(&x2, b), s2)),
                _ => if x2.is_zero() {
                    Err(ArithmeticExprError::DivByZero)
                } else {
                    Ok((x1.div_v(&x2, b), s2))
                },
            },
        },
    }
}

/// Builds the expression tree of `e` under `state`, recording the
/// abstract value of every sub-expression.
pub fn build<T: Domain>(e: &ArithmeticExpr, state: &State<T>, b: &Bounds) -> (r: Result<
    (ExpressionTree<T>, State<T>),
    ArithmeticExprError,
>)
    requires
        b.wf(),
        state.wf_state(*b),
    ensures
        match (r, build_s::<T>(*e, state@, *b)) {
            (Ok(p), Ok(q)) => p.0 == q.0 && p.1@ == q.1 && p.0.wf_tree(*b) && p.1.wf_state(*b),
            (Err(e1), Err(e2)) => e1 == e2,
            _ => false,
        },
    decreases *e, 1int,
{
    match e {
        ArithmeticExpr::Add(_, _) => build_compound(e, state, b),
        ArithmeticExpr::Sub(_, _) => build_compound(e, state, b),
        ArithmeticExpr::Mul(_, _) => build_compound(e, state, b),
        ArithmeticExpr::Div(_, _) => build_compound(e, state, b),
        _ => match eval_aexpr(e, state, b) {
            Err(er) => Err(er),
            Ok((val, nv)) => match e {
                ArithmeticExpr::Number(_) => Ok((ExpressionTree::Value(val), nv)),
                ArithmeticExpr::Interval(_, _) => Ok((ExpressionTree::Value(val), nv)),
                ArithmeticExpr::Variable(x) => Ok((ExpressionTree::Variable(x.clone(), val), nv)),
                ArithmeticExpr::PostIncrement(x) => Ok(
                    (ExpressionTree::Variable(x.clone(), val), nv),
                ),
                _ => {
                    let x = match e {
                        ArithmeticExpr::PostDecrement(x) => x,
                        _ => {
                            proof {
                                assert(false);
                            }
                            return Err(ArithmeticExprError::DivByZero);
                        },
                    };
                    Ok((ExpressionTree::Variable(x.clone(), val), nv))
                },
            },
        },
    }
}

/// Builds the tree of an operator application: the node's value from the
/// whole expression, the children from each operand in sequence.
fn build_compound<T: Domain>(e: &ArithmeticExpr, state: &State<T>, b: &Bounds) -> (r: Result<
    (ExpressionTree<T>, State<T>),
    ArithmeticExprError,
>)
    requires
        b.wf(),
        state.wf_state(*b),
        e matches ArithmeticExpr::Add(_, _) || e matches ArithmeticExpr::Sub(_, _)
            || e matches ArithmeticExpr::Mul(_, _) || e matches ArithmeticExpr::Div(_, _),
    ensures
        match (r, build_s::<T>(*e, state@, *b)) {
            (Ok(p), Ok(q)) => p.0 == q.0 && p.1@ == q.1 && p.0.wf_tree(*b) && p.1.wf_state(*b),
            (Err(e1), Err(e2)) => e1 == e2,
            _ => false,
        },
    decreases *e, 0int,
{
    let (op, a1, a2) = match e {
        ArithmeticExpr::Add(a1, a2) => (ArithOp::Add, a1, a2),
        ArithmeticExpr::Sub(a1, a2) => (ArithOp::Sub, a1, a2),
        ArithmeticExpr::Mul(a1, a2) => (ArithOp::Mul, a1, a2),
        ArithmeticExpr::Div(a1, a2) => (ArithOp::Div, a1, a2),
        _ => {
            proof {
                assert(false);
            }
            return Err(ArithmeticExprError::DivByZero);
        },
    };
    match eval_aexpr(e, state, b) {
        Err(er) => Err(er),
        Ok((val, nv)) => match build(a1, state, b) {
            Err(er) => Err(er),
            Ok((l, s)) => match build(a2, &s, b) {
                Err(er) => Err(er),
                Ok((t2, _)) => Ok(
                    (
                        ExpressionTree::Binop {
                            op,
                            value: val,
                            l: Box::new(l),
                            r: Box::new(t2),
                        },
                        nv,
                    ),
                ),
            },
        },
    }
}

/// Refines the state by an equality test between two expressions.
fn eval_eq<T: Domain>(
    a1: &ArithmeticExpr,
    a2: &ArithmeticExpr,
    state: &State<T>,
    b: &Bounds,
) -> (r: Result<State<T>, ArithmeticExprError>)
    requires
        b.wf(),
        state.wf_state(*b),
    ensures
        match (r, eval_eq_s::<T>(*a1, *a2, state@, *b)) {
            (Ok(p), Ok(q)) => p@ == q && p.wf_state(*b),
            (Err(e1), Err(e2)) => e1 == e2,
            _ => false,
        },
{
    match build(a1, state, b) {
        Err(er) => Err(er),
        Ok((t1, _)) => match build(a2, state, b) {
            Err(er) => Err(er),
            Ok((t2, _)) => {
                let inter = t1.value().glb(&t2.value(), b);
                if inter.is_bot() {
                    Ok(State::Bottom)
                } else {
                    let s1 = t1.refine(inter, state.clone(), b);
                    let s2 = t2.refine(inter, s1, b);
                    match eval_aexpr(a1, &s2, b) {
                        Err(er) => Err(er),
                        Ok((_, s3)) => match eval_aexpr(a2, &s3, b) {
                            Err(er) => Err(er),
                            Ok((_, s4)) => Ok(s4),
                        },
                    }
                }
            },
        },
    }
}

/// Refines the state by a disequality test between two expressions.
fn eval_neq<T: Domain>(
    a1: &ArithmeticExpr,
    a2: &ArithmeticExpr,
    state: &State<T>,
    b: &Bounds,
) -> (r: Result<State<T>, ArithmeticExprError>)
    requires
        b.wf(),
        state.wf_state(*b),
    ensures
        match (r, eval_neq_s::<T>(*a1, *a2, state@, *b)) {
            (Ok(p), Ok(q)) => p@ == q && p.wf_state(*b),
            (Err(e1), Err(e2)) => e1 == e2,
            _ => false,
        },
{
    if a1.is_same(a2) {
        Ok(State::Bottom)
    } else {
        match eval_aexpr(a1, state, b) {
            Err(er) => Err(er),
            Ok((x1, s1)) => match eval_aexpr(a2, &s1, b) {
                Err(er) => Err(er),
                Ok((x2, s2)) => if x1.neq_feasible(&x2) {
                    Ok(s2)
                } else {
                    Ok(State::Bottom)
                },
            },
        }
    }
}

/// Refines the state by a strict comparison between two expressions.
fn eval_lt<T: Domain>(
    a1: &ArithmeticExpr,
    a2: &ArithmeticExpr,
    state: &State<T>,
    b: &Bounds,
) -> (r: Result<State<T>, ArithmeticExprError>)
    requires
        b.wf(),
        state.wf_state(*b),
    ensures
        match (r, eval_lt_s::<T>(*a1, *a2, state@, *b)) {
            (Ok(p), Ok(q)) => p@ == q && p.wf_state(*b),
            (Err(e1), Err(e2)) => e1 == e2,
            _ => false,
        },
{
    if a1.is_same(a2) {
        Ok(State::Bottom)
    } else {
        match build(a1, state, b) {
            Err(er) => Err(er),
            Ok((t1, _)) => match build(a2, state, b) {
                Err(er) => Err(er),
                Ok((t2, _)) => {
                    let targets = t1.value().lt_targets(&t2.value(), b);
                    if targets.0.is_bot() || targets.1.is_bot() {
                        Ok(State::Bottom)
                    } else {
                        let s1 = t1.refine(targets.0, state.clone(), b);
                        let s2 = t2.refine(targets.1, s1, b);
                        match eval_aexpr(a1, &s2, b) {
                            Err(er) => Err(er),
                            Ok((_, s3)) => match eval_aexpr(a2, &s3, b) {
                                Err(er) => Err(er),
                                Ok((_, s4)) => Ok(s4),
                            },
                        }
                    }
                },
            },
        }
    }
}

/// Refines the state by a non-strict comparison between two expressions.
fn eval_lteq<T: Domain>(
    a1: &ArithmeticExpr,
    a2: &ArithmeticExpr,
    state: &State<T>,
    b: &Bounds,
) -> (r: Result<State<T>, ArithmeticExprError>)
    requires
        b.wf(),
        state.wf_state(*b),
    ensures
        match (r, eval_lteq_s::<T>(*a1, *a2, state@, *b)) {
            (Ok(p), Ok(q)) => p@ == q && p.wf_state(*b),
            (Err(e1), Err(e2)) => e1 == e2,
            _ => false,
        },
{
    match eval_lt(a1, a2, state, b) {
        Err(er) => Err(er),
        Ok(l) => match eval_eq(a1, a2, state, b) {
            Err(er) => Err(er),
            Ok(e) => Ok(l.lub(&e, b)),
        },
    }
}

/// Evaluates a boolean test, keeping the sub-state on which the test (or,
/// under `neg`, its negation) may hold.
pub fn eval_bexpr<T: Domain>(e: &BooleanExpr, neg: bool, state: &State<T>, b: &Bounds) -> (r:
    Result<State<T>, ArithmeticExprError>)
    requires
        b.wf(),
        state.wf_state(*b),
    ensures
        match (r, eval_bexpr_s::<T>(*e, neg, state@, *b)) {
            (Ok(p), Ok(q)) => p@ == q && p.wf_state(*b),
            (Err(e1), Err(e2)) => e1 == e2,
            _ => false,
        },
    decreases *e,
{
    match e {
        BooleanExpr::True => if neg {
            Ok(State::Bottom)
        } else {
            Ok(state.clone())
        },
        BooleanExpr::False => if neg {
            Ok(state.clone())
        } else {
            Ok(State::Bottom)
        },
        BooleanExpr::Not(b1) => eval_bexpr(b1, !neg, state, b),
        BooleanExpr::And(b1, b2) => match eval_bexpr(b1, neg, state, b) {
            Err(er) => Err(er),
            Ok(l) => match eval_bexpr(b2, neg, &l, b) {
                Err(er) => Err(er),
                Ok(r2) => if neg {
                    Ok(l.lub(&r2, b))
                } else {
                    Ok(l.glb(&r2, b))
                },
            },
        },
        BooleanExpr::Or(b1, b2) => match eval_bexpr(b1, neg, state, b) {
            Err(er) => Err(er),
            Ok(l) => match eval_bexpr(b2, neg, &l, b) {
                Err(er) => Err(er),
                Ok(r2) => if neg {
                    Ok(l.glb(&r2, b))
                } else {
                    Ok(l.lub(&r2, b))
                },
            },
        },
        BooleanExpr::NumEq(a1, a2) => if neg {
            eval_neq(a1, a2, state, b)
        } else {
            eval_eq(a1, a2, state, b)
        },
        BooleanExpr::NumNotEq(a1, a2) => if neg {
            eval_eq(a1, a2, state, b)
        } else {
            eval_neq(a1, a2, state, b)
        },
        BooleanExpr::NumLt(a1, a2) => if neg {
            eval_lteq(a2, a1, state, b)
        } else {
            eval_lt(a1, a2, state, b)
        },
        BooleanExpr::NumGt(a1, a2) => if neg {
            eval_lteq(a1, a2, state, b)
        } else {
            eval_lt(a2, a1, state, b)
        },
        BooleanExpr::NumLtEq(a1, a2) => if neg {
            eval_lt(a2, a1, state, b)
        } else {
            eval_lteq(a1, a2, state, b)
        },
        BooleanExpr::NumGtEq(a1, a2) => if neg {
            eval_lt(a1, a2, state, b)
        } else {
            eval_lteq(a2, a1, state, b)
        },
    }
}

/// An error of whole-program analysis: an arithmetic fault of the
/// analyzed program, or a fixpoint iteration that failed to stabilize
/// within its generous iteration cap (which flags a broken widening
/// operator, never a long-running loop of the analyzed program).
#[derive(Clone, Copy, Debug, PartialEq, Eq, Structural)]
pub enum AnalysisError {
    Arithmetic(ArithmeticExprError),
    Unconverged,
}

/// Fixpoint iterations allowed past the configured delay. Widening
/// guarantees stabilization long before this; the cap only flags a domain
/// whose widening is broken.
pub const FIX_CAP: u64 = 100000;

/// The iteration budget of one fixpoint phase.
pub open spec fn fix_fuel(delay: i64) -> nat {
    (if delay >= 0 {
        delay as nat
    } else {
        0
    }) + FIX_CAP as nat
}

/// The mappings a sequence of states stands for, in order.
pub open spec fn views_of<T>(s: Seq<State<T>>) -> Seq<StateView<T>> {
    s.map_values(|st: State<T>| st@)
}

/// Recording one more state appends its mapping.
proof fn lemma_views_push<T>(s: Seq<State<T>>, x: State<T>)
    ensures
        views_of(s.push(x)) == views_of(s).push(x@),
{
    assert(views_of(s.push(x)) =~= views_of(s).push(x@));
}

/// One fixpoint phase: from the candidate `prev`, evaluate the guard and
/// the body, join the result with the loop's entry state, and combine
/// with the candidate: within the configured delay by plain join, then by
/// widening (first phase) or narrowing (second). The phase ends when the
/// candidate stops changing on the variables both sides know.
pub open spec fn fix_s<T: Domain>(
    cond: BooleanExpr,
    neg: bool,
    body: Statement,
    entry: StateView<T>,
    prev: StateView<T>,
    delay: i64,
    widening: bool,
    fuel: nat,
    b: Bounds,
) -> Result<StateView<T>, AnalysisError>
    decreases stmt_size(body) + 1, fuel, 0nat,
{
    if fuel == 0 {
        Err(AnalysisError::Unconverged)
    } else {
        match eval_bexpr_s::<T>(cond, neg, prev, b) {
            Err(er) => Err(AnalysisError::Arithmetic(er)),
            Ok(cs) => match eval_stmt_s::<T>(body, cs, b) {
                Err(e) => Err(e),
                Ok((bs, _)) => {
                    let raw = join_states_view(entry, bs, lub_f::<T>(b));
                    let curr = if delay > 0 {
                        raw
                    } else if widening {
                        join_states_view(prev, raw, widen_f::<T>(b))
                    } else {
                        meet_states_view(prev, raw, narrow_f::<T>(b))
                    };
                    if equiv_view(prev, curr) {
                        Ok(curr)
                    } else {
                        fix_s::<T>(
                            cond,
                            neg,
                            body,
                            entry,
                            curr,
                            if delay > 0 {
                                (delay - 1) as i64
                            } else {
                                0
                            },
                            widening,
                            (fuel - 1) as nat,
                            b,
                        )
                    }
                },
            },
        }
    }
}

/// The meaning of a loop with guard `cond` (negated when `neg` holds):
/// a widening fixpoint from bottom, a narrowing pass from its result, and
/// then the loop-exit state under the guard's negation. The recorded
/// states are the loop invariant, the guarded entry, one state per body
/// point from a final run of the body, and the exit state.
pub open spec fn while_sem_s<T: Domain>(
    cond: BooleanExpr,
    neg: bool,
    body: Statement,
    delay: i64,
    entry: StateView<T>,
    b: Bounds,
) -> Result<(StateView<T>, Seq<StateView<T>>), AnalysisError>
    decreases stmt_size(body) + 2, 0nat, 0nat,
{
    match fix_s::<T>(cond, neg, body, entry, None, delay, true, fix_fuel(delay), b) {
        Err(e) => Err(e),
        Ok(w) => match fix_s::<T>(cond, neg, body, entry, w, delay, false, fix_fuel(delay), b) {
            Err(e) => Err(e),
            Ok(narrowed) => match eval_bexpr_s::<T>(cond, neg, narrowed, b) {
                Err(er) => Err(AnalysisError::Arithmetic(er)),
                Ok(cs) => match eval_stmt_s::<T>(body, cs, b) {
                    Err(e) => Err(e),
                    Ok((_, bt)) => match eval_bexpr_s::<T>(cond, !neg, narrowed, b) {
                        Err(er) => Err(AnalysisError::Arithmetic(er)),
                        Ok(exit) => Ok((exit, seq![narrowed, cs] + bt + seq![exit])),
                    },
                },
            },
        },
    }
}

/// The meaning of a statement: the state it leaves behind, and one
/// recorded state per program point in program order.
pub open spec fn eval_stmt_s<T: Domain>(stmt: Statement, v: StateView<T>, b: Bounds) -> Result<
    (StateView<T>, Seq<StateView<T>>),
    AnalysisError,
>
    decreases stmt_size(stmt), 1nat, 0nat,
{
    match stmt {
        Statement::Skip => Ok((v, seq![v])),
        Statement::Assignment { var, val } => match eval_aexpr_s::<T>(*val, v, b) {
            Err(er) => Err(AnalysisError::Arithmetic(er)),
            Ok((x, v1)) => {
                let nv = put_view(v1, var@, x);
                Ok((nv, seq![nv]))
            },
        },
        Statement::Chain(s1, s2) => match eval_stmt_s::<T>(*s1, v, b) {
            Err(e) => Err(e),
            Ok((v1, t1)) => match eval_stmt_s::<T>(*s2, v1, b) {
                Err(e) => Err(e),
                Ok((v2, t2)) => Ok((v2, t1 + t2)),
            },
        },
        Statement::If { cond, s1, s2 } => match eval_bexpr_s::<T>(*cond, false, v, b) {
            Err(er) => Err(AnalysisError::Arithmetic(er)),
            Ok(tt) => match eval_bexpr_s::<T>(*cond, true, v, b) {
                Err(er) => Err(AnalysisError::Arithmetic(er)),
                Ok(ff) => match eval_stmt_s::<T>(*s1, tt, b) {
                    Err(e) => Err(e),
                    Ok((o1, t1)) => match eval_stmt_s::<T>(*s2, ff, b) {
                        Err(e) => Err(e),
                        Ok((o2, t2)) => {
                            let endif = join_states_view(o1, o2, lub_f::<T>(b));
                            Ok((endif, seq![tt] + t1 + seq![ff] + t2 + seq![endif]))
                        },
                    },
                },
            },
        },
        Statement::While { cond, body, delay: _ } => while_sem_s::<T>(
            *cond,
            false,
            *body,
            stmt.loop_delay_s(),
            v,
            b,
        ),
        Statement::RepeatUntil { body, cond, delay: _ } => match eval_stmt_s::<T>(*body, v, b) {
            Err(e) => Err(e),
            Ok((v1, t1)) => match while_sem_s::<T>(*cond, true, *body, stmt.loop_delay_s(), v1, b) {
                Err(e) => Err(e),
                Ok((v2, t2)) => Ok((v2, t1 + t2)),
            },
        },
    }
}

/// A successful analysis records exactly one state per program point.
#[verifier::rlimit(60)]
pub proof fn lemma_eval_stmt_points<T: Domain>(stmt: Statement, v: StateView<T>, b: Bounds)
    ensures
        eval_stmt_s::<T>(stmt, v, b) matches Ok(q) ==> q.1.len() == num_points(stmt),
    decreases stmt_size(stmt), 1nat, 0nat,
{
    match stmt {
        Statement::Chain(s1, s2) => {
            lemma_eval_stmt_points::<T>(*s1, v, b);
            match eval_stmt_s::<T>(*s1, v, b) {
                Ok((v1, _)) => {
                    lemma_eval_stmt_points::<T>(*s2, v1, b);
                },
                _ => {},
            }
        },
        Statement::If { cond, s1, s2 } => {
            match eval_bexpr_s::<T>(*cond, false, v, b) {
                Ok(tt) => {
                    lemma_eval_stmt_points::<T>(*s1, tt, b);
                    match eval_bexpr_s::<T>(*cond, true, v, b) {
                        Ok(ff) => {
                            lemma_eval_stmt_points::<T>(*s2, ff, b);
                        },
                        _ => {},
                    }
                },
                _ => {},
            }
        },
        Statement::While { cond, body, delay: _ } => {
            lemma_while_points::<T>(*cond, false, *body, stmt.loop_delay_s(), v, b);
        },
        Statement::RepeatUntil { body, cond, delay: _ } => {
            lemma_eval_stmt_points::<T>(*body, v, b);
            match eval_stmt_s::<T>(*body, v, b) {
                Ok((v1, _)) => {
                    lemma_while_points::<T>(*cond, true, *body, stmt.loop_delay_s(), v1, b);
                },
                _ => {},
            }
        },
        _ => {},
    }
}

/// A successful loop analysis records the loop invariant, the guarded
/// entry, the body's points, and the exit state.
#[verifier::rlimit(60)]
pub proof fn lemma_while_points<T: Domain>(
    cond: BooleanExpr,
    neg: bool,
    body: Statement,
    delay: i64,
    entry: StateView<T>,
    b: Bounds,
)
    ensures
        while_sem_s::<T>(cond, neg, body, delay, entry, b) matches Ok(q) ==> q.1.len()
            == num_points(body) + 3,
    decreases stmt_size(body) + 2, 0nat, 0nat,
{
    match fix_s::<T>(cond, neg, body, entry, None, delay, true, fix_fuel(delay), b) {
        Ok(w) => {
            match fix_s::<T>(cond, neg, body, entry, w, delay, false, fix_fuel(delay), b) {
                Ok(narrowed) => {
                    match eval_bexpr_s::<T>(cond, neg, narrowed, b) {
                        Ok(cs) => {
                            lemma_eval_stmt_points::<T>(body, cs, b);
                        },
                        _ => {},
                    }
                },
                _ => {},
            }
        },
        _ => {},
    }
}

/// One fixpoint phase, iterated until the candidate state stops changing,
/// or until the iteration budget runs out.
fn fix_exec<T: Domain>(
    cond: &BooleanExpr,
    neg: bool,
    body: &Statement,
    entry: &State<T>,
    prev: State<T>,
    delay: i64,
    widening: bool,
    fuel: u64,
    b: &Bounds,
) -> (r: Result<State<T>, AnalysisError>)
    requires
        b.wf(),
        entry.wf_state(*b),
        prev.wf_state(*b),
    ensures
        match (r, fix_s::<T>(*cond, neg, *body, entry@, prev@, delay, widening, fuel as nat, *b)) {
            (Ok(s), Ok(q)) => s@ == q && s.wf_state(*b),
            (Err(e1), Err(e2)) => e1 == e2,
            _ => false,
        },
    decreases stmt_size(*body) + 1, fuel as nat, 0nat,
{
    if fuel == 0 {
        return Err(AnalysisError::Unconverged);
    }
    match eval_bexpr(cond, neg, &prev, b) {
        Err(er) => Err(AnalysisError::Arithmetic(er)),
        Ok(cs) => {
            let mut scratch: Vec<State<T>> = Vec::new();
            match eval_stmt(body, &cs, &mut scratch, b) {
                Err(e) => Err(e),
                Ok(bs) => {
                    let raw = entry.lub(&bs, b);
                    let curr = if delay > 0 {
                        raw
                    } else if widening {
                        prev.widen(&raw, b)
                    } else {
                        prev.narrow(&raw, b)
                    };
                    if prev.equiv(&curr) {
                        Ok(curr)
                    } else {
                        let nd: i64 = if delay > 0 {
                            delay - 1
                        } else {
                            0
                        };
                        fix_exec(cond, neg, body, entry, curr, nd, widening, fuel - 1, b)
                    }
                },
            }
        },
    }
}

/// Analyzes a loop: widening fixpoint, narrowing pass, and the exit state
/// under the negated guard; records the loop's program points.
#[verifier::rlimit(100)]
#[verifier::spinoff_prover]
fn while_sem<T: Domain>(
    cond: &BooleanExpr,
    neg: bool,
    body: &Statement,
    delay: i64,
    entry: &State<T>,
    inv: &mut Vec<State<T>>,
    b: &Bounds,
) -> (r: Result<State<T>, AnalysisError>)
    requires
        b.wf(),
        entry.wf_state(*b),
        delay >= 0,
    ensures
        old(inv)@.len() <= final(inv)@.len(),
        forall|i: int| 0 <= i < old(inv)@.len() ==> final(inv)@[i] == old(inv)@[i],
        match (r, while_sem_s::<T>(*cond, neg, *body, delay, entry@, *b)) {
            (Ok(s), Ok(q)) => s@ == q.0 && s.wf_state(*b) && views_of(final(inv)@) == views_of(
                old(inv)@,
            ) + q.1 && (forall|i: int|
                old(inv)@.len() <= i < final(inv)@.len() ==> (#[trigger] final(inv)@[i]).wf_state(
                    *b,
                )),
            (Err(e1), Err(e2)) => e1 == e2,
            _ => false,
        },
    decreases stmt_size(*body) + 2, 0nat, 0nat,
{
    let fuel: u64 = (delay as u64) + FIX_CAP;
    proof {
        assert(fuel as nat == fix_fuel(delay));
    }
    match fix_exec(cond, neg, body, entry, State::Bottom, delay, true, fuel, b) {
        Err(e) => Err(e),
        Ok(w) => match fix_exec(cond, neg, body, entry, w, delay, false, fuel, b) {
            Err(e) => Err(e),
            Ok(narrowed) => match eval_bexpr(cond, neg, &narrowed, b) {
                Err(er) => Err(AnalysisError::Arithmetic(er)),
                Ok(cs) => {
                    let ghost snap0 = inv@;
                    let nc = narrowed.clone();
                    proof {
                        lemma_views_push(snap0, nc);
                    }
                    inv.push(nc);
                    let ghost snapa = inv@;
                    let cc = cs.clone();
                    proof {
                        lemma_views_push(snapa, cc);
                    }
                    inv.push(cc);
                    let ghost snap1 = inv@;
                    match eval_stmt(body, &cs, inv, b) {
                        Err(e) => Err(e),
                        Ok(_) => match eval_bexpr(cond, !neg, &narrowed, b) {
                            Err(er) => Err(AnalysisError::Arithmetic(er)),
                            Ok(exit) => {
                                let ghost snap2 = inv@;
                                let ec = exit.clone();
                                proof {
                                    lemma_views_push(snap2, ec);
                                }
                                inv.push(ec);
                                proof {
                                    let q = while_sem_s::<T>(
                                        *cond,
                                        neg,
                                        *body,
                                        delay,
                                        entry@,
                                        *b,
                                    )->Ok_0;
                                    assert(views_of(inv@) =~= views_of(snap0) + q.1);
                                }
                                Ok(exit)
                            },
                        },
                    }
                },
            },
        },
    }
}

/// Evaluates a statement from `state`, appending one abstract state per
/// program point to `inv`, in program order.
#[verifier::rlimit(100)]
#[verifier::spinoff_prover]
pub fn eval_stmt<T: Domain>(
    stmt: &Statement,
    state: &State<T>,
    inv: &mut Vec<State<T>>,
    b: &Bounds,
) -> (r: Result<State<T>, AnalysisError>)
    requires
        b.wf(),
        state.wf_state(*b),
    ensures
        old(inv)@.len() <= final(inv)@.len(),
        forall|i: int| 0 <= i < old(inv)@.len() ==> final(inv)@[i] == old(inv)@[i],
        match (r, eval_stmt_s::<T>(*stmt, state@, *b)) {
            (Ok(s), Ok(q)) => s@ == q.0 && s.wf_state(*b) && views_of(final(inv)@) == views_of(
                old(inv)@,
            ) + q.1 && (forall|i: int|
                old(inv)@.len() <= i < final(inv)@.len() ==> (#[trigger] final(inv)@[i]).wf_state(
                    *b,
                )),
            (Err(e1), Err(e2)) => e1 == e2,
            _ => false,
        },
    decreases stmt_size(*stmt), 1nat, 0nat,
{
    match stmt {
        Statement::Skip => {
            let sc = state.clone();
            proof {
                lemma_views_push(inv@, sc);
            }
            inv.push(sc);
            proof {
                assert(views_of(inv@) =~= views_of(old(inv)@) + seq![state@]);
            }
            Ok(state.clone())
        },
        Statement::Assignment { var, val } => match eval_aexpr(val, state, b) {
            Err(er) => Err(AnalysisError::Arithmetic(er)),
            Ok((x, s1)) => {
                let ns = s1.put(var, x, b);
                let nc = ns.clone();
                proof {
                    lemma_views_push(inv@, nc);
                }
                inv.push(nc);
                proof {
                    assert(views_of(inv@) =~= views_of(old(inv)@) + seq![ns@]);
                }
                Ok(ns)
            },
        },
        Statement::Chain(s1, s2) => match eval_stmt(s1, state, inv, b) {
            Err(e) => Err(e),
            Ok(m) => {
                let ghost snap1 = inv@;
                match eval_stmt(s2, &m, inv, b) {
                    Err(e) => Err(e),
                    Ok(fin) => {
                        proof {
                            let q1 = eval_stmt_s::<T>(**s1, state@, *b)->Ok_0;
                            let q2 = eval_stmt_s::<T>(**s2, m@, *b)->Ok_0;
                            assert(views_of(inv@) =~= views_of(old(inv)@) + (q1.1 + q2.1));
                        }
                        Ok(fin)
                    },
                }
            },
        },
        Statement::If { cond, s1, s2 } => match eval_bexpr(cond, false, state, b) {
            Err(er) => Err(AnalysisError::Arithmetic(er)),
            Ok(tt) => match eval_bexpr(cond, true, state, b) {
                Err(er) => Err(AnalysisError::Arithmetic(er)),
                Ok(ff) => {
                    let tc = tt.clone();
                    proof {
                        lemma_views_push(inv@, tc);
                    }
                    inv.push(tc);
                    match eval_stmt(s1, &tt, inv, b) {
                        Err(e) => Err(e),
                        Ok(o1) => {
                            let fc = ff.clone();
                            proof {
                                lemma_views_push(inv@, fc);
                            }
                            inv.push(fc);
                            match eval_stmt(s2, &ff, inv, b) {
                                Err(e) => Err(e),
                                Ok(o2) => {
                                    let endif = o1.lub(&o2, b);
                                    let gc = endif.clone();
                                    proof {
                                        lemma_views_push(inv@, gc);
                                    }
                                    inv.push(gc);
                                    proof {
                                        let q1 = eval_stmt_s::<T>(**s1, tt@, *b)->Ok_0;
                                        let q2 = eval_stmt_s::<T>(**s2, ff@, *b)->Ok_0;
                                        assert(views_of(inv@) =~= views_of(old(inv)@) + (seq![tt@]
                                            + q1.1 + seq![ff@] + q2.1 + seq![endif@]));
                                    }
                                    Ok(endif)
                                },
                            }
                        },
                    }
                },
            },
        },
        Statement::While { cond, body, delay: _ } => {
            let d = stmt.get_loop_delay();
            while_sem(cond, false, body, d, state, inv, b)
        },
        Statement::RepeatUntil { body, cond, delay: _ } => {
            let d = stmt.get_loop_delay();
            match eval_stmt(body, state, inv, b) {
                Err(e) => Err(e),
                Ok(m) => match while_sem(cond, true, body, d, &m, inv, b) {
                    Err(e) => Err(e),
                    Ok(fin) => {
                        proof {
                            let q1 = eval_stmt_s::<T>(**body, state@, *b)->Ok_0;
                            let q2 = while_sem_s::<T>(**cond, true, **body, d, m@, *b)->Ok_0;
                            assert(views_of(inv@) =~= views_of(old(inv)@) + (q1.1 + q2.1));
                        }
                        Ok(fin)
                    },
                },
            }
        },
    }
}

/// Analyzes a whole program from the empty state: its final abstract
/// state, and one abstract state per program point in program order.
pub fn denote_stmt<T: Domain>(stmt: &Statement, b: &Bounds) -> (r: Result<
    (State<T>, Vec<State<T>>),
    AnalysisError,
>)
    requires
        b.wf(),
    ensures
        match (r, eval_stmt_s::<T>(*stmt, Some(Map::empty()), *b)) {
            (Ok(p), Ok(q)) => p.0@ == q.0 && views_of(p.1@) == q.1 && p.1@.len() == num_points(
                *stmt,
            ) && p.0.wf_state(*b) && (forall|i: int|
                0 <= i < p.1@.len() ==> (#[trigger] p.1@[i]).wf_state(*b)),
            (Err(e1), Err(e2)) => e1 == e2,
            _ => false,
        },
{
    let state = State::<T>::new();
    let mut inv: Vec<State<T>> = Vec::new();
    match eval_stmt(stmt, &state, &mut inv, b) {
        Err(e) => Err(e),
        Ok(fin) => {
            proof {
                lemma_eval_stmt_points::<T>(*stmt, Some(Map::empty()), *b);
                assert(views_of(inv@) =~= eval_stmt_s::<T>(*stmt, Some(Map::empty()), *b)->Ok_0.1);
            }
            Ok((fin, inv))
        },
    }
}

} // verus!

