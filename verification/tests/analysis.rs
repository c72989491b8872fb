use whilep::ast::{ArithmeticExpr, ArithmeticExprError, BooleanExpr, Statement};
use whilep::bounds::Bounds;
use whilep::constant::Constant;
use whilep::denote::{denote_stmt, AnalysisError};
use whilep::integer::Integer;
use whilep::interval::Interval;
use whilep::program_point::{get_program_points, ProgramPoint};
use whilep::state::State;

fn num(n: i64) -> Box<ArithmeticExpr> {
    Box::new(ArithmeticExpr::Number(Integer::Value(n)))
}

fn var(x: &str) -> Box<ArithmeticExpr> {
    Box::new(ArithmeticExpr::Variable(String::from(x)))
}

fn assign(x: &str, e: Box<ArithmeticExpr>) -> Box<Statement> {
    Box::new(Statement::Assignment { var: String::from(x), val: e })
}

fn chain(s1: Box<Statement>, s2: Box<Statement>) -> Box<Statement> {
    Box::new(Statement::Chain(s1, s2))
}

fn itv(lo: i64, hi: i64) -> Interval {
    Interval::from_bounds(Integer::Value(lo), Integer::Value(hi))
}

fn read(s: &State<Interval>, x: &str, b: &Bounds) -> Interval {
    s.read(&String::from(x), b)
}

#[test]
fn straight_line_assignments() {
    // x := 5; y := x + 3  under intervals with no clamp
    let prog = chain(
        assign("x", num(5)),
        assign(
            "y",
            Box::new(ArithmeticExpr::Add(var("x"), num(3))),
        ),
    );
    let b = Bounds::unbounded();
    let (fin, inv) = denote_stmt::<Interval>(&prog, &b).unwrap();
    assert_eq!(read(&fin, "x", &b), itv(5, 5));
    assert_eq!(read(&fin, "y", &b), itv(8, 8));
    assert_eq!(inv.len(), 2);
}

#[test]
fn straight_line_constants() {
    let prog = chain(
        assign("x", num(5)),
        assign(
            "y",
            Box::new(ArithmeticExpr::Add(var("x"), num(3))),
        ),
    );
    let b = Bounds::unbounded();
    let (fin, _) = denote_stmt::<Constant>(&prog, &b).unwrap();
    assert_eq!(
        fin.read(&String::from("y"), &b),
        Constant::Value(Integer::Value(8))
    );
}

#[test]
fn conditional_refines_both_branches() {
    // x := [0,10]; if x < 5 then y := 1 else y := 0 end
    let prog = chain(
        assign(
            "x",
            Box::new(ArithmeticExpr::Interval(num(0), num(10))),
        ),
        Box::new(Statement::If {
            cond: Box::new(BooleanExpr::NumLt(var("x"), num(5))),
            s1: assign("y", num(1)),
            s2: assign("y", num(0)),
        }),
    );
    let b = Bounds::unbounded();
    let (fin, inv) = denote_stmt::<Interval>(&prog, &b).unwrap();
    // trace: [x-assign, then-guard, then-assign, else-guard, else-assign, merge]
    assert_eq!(inv.len(), 6);
    assert_eq!(read(&inv[1], "x", &b), itv(0, 4));
    assert_eq!(read(&inv[3], "x", &b), itv(5, 10));
    assert_eq!(read(&fin, "y", &b), itv(0, 1));
    assert_eq!(read(&fin, "x", &b), itv(0, 10));
}

#[test]
fn conditional_merge_in_constant_domain() {
    let prog = chain(
        assign(
            "x",
            Box::new(ArithmeticExpr::Interval(num(0), num(10))),
        ),
        Box::new(Statement::If {
            cond: Box::new(BooleanExpr::NumLt(var("x"), num(5))),
            s1: assign("y", num(1)),
            s2: assign("y", num(0)),
        }),
    );
    let b = Bounds::unbounded();
    let (fin, _) = denote_stmt::<Constant>(&prog, &b).unwrap();
    assert_eq!(fin.read(&String::from("y"), &b), Constant::Any);
}

#[test]
fn loop_widens_then_narrows_to_exact_exit() {
    // x := 0; while x < 3 do x := x + 1 done  with no delay
    let prog = chain(
        assign("x", num(0)),
        Box::new(Statement::While {
            cond: Box::new(BooleanExpr::NumLt(var("x"), num(3))),
            body: assign(
                "x",
                Box::new(ArithmeticExpr::Add(var("x"), num(1))),
            ),
            delay: None,
        }),
    );
    let b = Bounds::unbounded();
    let (fin, inv) = denote_stmt::<Interval>(&prog, &b).unwrap();
    assert_eq!(read(&fin, "x", &b), itv(3, 3));
    // trace: [x-assign, loop-invariant, guard, body-assign, exit]
    assert_eq!(inv.len(), 5);
    assert_eq!(read(&inv[1], "x", &b), itv(0, 3));
    assert_eq!(read(&inv[2], "x", &b), itv(0, 2));
    assert_eq!(read(&inv[4], "x", &b), itv(3, 3));
}

#[test]
fn loop_with_widening_delay_converges_to_same_exit() {
    let prog = chain(
        assign("x", num(0)),
        Box::new(Statement::While {
            cond: Box::new(BooleanExpr::NumLt(var("x"), num(3))),
            body: assign(
                "x",
                Box::new(ArithmeticExpr::Add(var("x"), num(1))),
            ),
            delay: Some(2),
        }),
    );
    let b = Bounds::unbounded();
    let (fin, _) = denote_stmt::<Interval>(&prog, &b).unwrap();
    assert_eq!(read(&fin, "x", &b), itv(3, 3));
}

#[test]
fn repeat_until_runs_body_at_least_once() {
    // x := 0; repeat x := x + 1 until x >= 3
    let prog = chain(
        assign("x", num(0)),
        Box::new(Statement::RepeatUntil {
            body: assign(
                "x",
                Box::new(ArithmeticExpr::Add(var("x"), num(1))),
            ),
            cond: Box::new(BooleanExpr::NumGtEq(var("x"), num(3))),
            delay: None,
        }),
    );
    let b = Bounds::unbounded();
    let (fin, inv) = denote_stmt::<Interval>(&prog, &b).unwrap();
    assert_eq!(read(&fin, "x", &b), itv(3, 3));
    // trace: [x-assign, first-body-assign, loop-invariant, guard, body-assign, exit]
    assert_eq!(inv.len(), 6);
    assert_eq!(read(&inv[1], "x", &b), itv(1, 1));
}

#[test]
fn division_by_zero_constant_is_an_error() {
    // x := 1; y := x / 0  must fail, not silently turn into bottom
    let prog = chain(
        assign("x", num(1)),
        assign(
            "y",
            Box::new(ArithmeticExpr::Div(var("x"), num(0))),
        ),
    );
    let b = Bounds::unbounded();
    let r = denote_stmt::<Interval>(&prog, &b);
    assert_eq!(
        r.err(),
        Some(AnalysisError::Arithmetic(ArithmeticExprError::DivByZero))
    );
    let rc = denote_stmt::<Constant>(&prog, &b);
    assert_eq!(
        rc.err(),
        Some(AnalysisError::Arithmetic(ArithmeticExprError::DivByZero))
    );
}

#[test]
fn division_by_zero_on_unreachable_branch_is_no_error() {
    // if false then y := 1 / 0 else skip end
    let prog = Box::new(Statement::If {
        cond: Box::new(BooleanExpr::False),
        s1: assign(
            "y",
            Box::new(ArithmeticExpr::Div(num(1), num(0))),
        ),
        s2: Box::new(Statement::Skip),
    });
    let b = Bounds::unbounded();
    let (_, inv) = denote_stmt::<Interval>(&prog, &b).unwrap();
    assert!(inv[1].is_bottom());
}

#[test]
fn reversed_interval_literal_is_an_error() {
    // x := [5, 2]
    let prog = assign(
        "x",
        Box::new(ArithmeticExpr::Interval(num(5), num(2))),
    );
    let b = Bounds::unbounded();
    let r = denote_stmt::<Interval>(&prog, &b);
    assert_eq!(
        r.err(),
        Some(AnalysisError::Arithmetic(
            ArithmeticExprError::InvalidIntervalBounds
        ))
    );
    let rc = denote_stmt::<Constant>(&prog, &b);
    assert_eq!(
        rc.err(),
        Some(AnalysisError::Arithmetic(
            ArithmeticExprError::InvalidIntervalBounds
        ))
    );
}

#[test]
fn clamp_window_bounds_every_loop_result() {
    // clamp [-10,10]; x := 1000; while x < 2000 do x := x + 1 done
    let prog = chain(
        assign("x", num(1000)),
        Box::new(Statement::While {
            cond: Box::new(BooleanExpr::NumLt(var("x"), num(2000))),
            body: assign(
                "x",
                Box::new(ArithmeticExpr::Add(var("x"), num(1))),
            ),
            delay: None,
        }),
    );
    let b = Bounds::new(Integer::Value(-10), Integer::Value(10)).unwrap();
    let (fin, inv) = denote_stmt::<Interval>(&prog, &b).unwrap();
    // every finite bound, in the final state and at every program point,
    // lies inside the window
    let mut states: Vec<State<Interval>> = inv;
    states.push(fin);
    for s in &states {
        if !s.is_bottom() {
            if let Interval::Range(lo, hi) = read(s, "x", &b) {
                if let Integer::Value(v) = lo {
                    assert!(-10 <= v && v <= 10);
                }
                if let Integer::Value(v) = hi {
                    assert!(-10 <= v && v <= 10);
                }
            }
        }
    }
}

#[test]
fn equality_test_refines_compound_expressions() {
    // x := [0,10]; if x + 1 == 6 then skip else skip end: both guards sharpen x
    let prog = chain(
        assign(
            "x",
            Box::new(ArithmeticExpr::Interval(num(0), num(10))),
        ),
        Box::new(Statement::If {
            cond: Box::new(BooleanExpr::NumEq(
                Box::new(ArithmeticExpr::Add(var("x"), num(1))),
                num(6),
            )),
            s1: Box::new(Statement::Skip),
            s2: Box::new(Statement::Skip),
        }),
    );
    let b = Bounds::unbounded();
    let (_, inv) = denote_stmt::<Interval>(&prog, &b).unwrap();
    assert_eq!(read(&inv[1], "x", &b), itv(5, 5));
}

#[test]
fn post_increment_reads_then_moves() {
    // x := 1; y := x++; so y gets 1 and x becomes 2
    let prog = chain(
        assign("x", num(1)),
        assign(
            "y",
            Box::new(ArithmeticExpr::PostIncrement(String::from("x"))),
        ),
    );
    let b = Bounds::unbounded();
    let (fin, _) = denote_stmt::<Interval>(&prog, &b).unwrap();
    assert_eq!(read(&fin, "y", &b), itv(1, 1));
    assert_eq!(read(&fin, "x", &b), itv(2, 2));
}

#[test]
fn comparing_an_expression_with_itself_is_infeasible() {
    // if x < x then y := 1 else skip end: the then branch is unreachable
    let prog = Box::new(Statement::If {
        cond: Box::new(BooleanExpr::NumLt(var("x"), var("x"))),
        s1: assign("y", num(1)),
        s2: Box::new(Statement::Skip),
    });
    let b = Bounds::unbounded();
    let (_, inv) = denote_stmt::<Interval>(&prog, &b).unwrap();
    assert!(inv[0].is_bottom());
}

#[test]
fn program_points_align_with_the_trace() {
    let prog = chain(
        assign(
            "x",
            Box::new(ArithmeticExpr::Interval(num(0), num(10))),
        ),
        Box::new(Statement::If {
            cond: Box::new(BooleanExpr::NumLt(var("x"), num(5))),
            s1: assign("y", num(1)),
            s2: assign("y", num(0)),
        }),
    );
    let b = Bounds::unbounded();
    let (_, inv) = denote_stmt::<Interval>(&prog, &b).unwrap();
    let points = get_program_points(&prog);
    assert_eq!(points.len(), inv.len());
    assert!(matches!(points[0], ProgramPoint::Assignment(_)));
    assert!(matches!(points[1], ProgramPoint::IfGuard(_)));
    assert!(matches!(points[2], ProgramPoint::Assignment(_)));
    assert!(matches!(points[3], ProgramPoint::ElseGuard(_)));
    assert!(matches!(points[4], ProgramPoint::Assignment(_)));
    assert!(matches!(points[5], ProgramPoint::EndIf));
}

#[test]
fn program_points_of_loops() {
    let lp = Box::new(Statement::While {
        cond: Box::new(BooleanExpr::NumLt(var("x"), num(3))),
        body: Box::new(Statement::Skip),
        delay: Some(7),
    });
    let points = get_program_points(&lp);
    assert_eq!(points.len(), 4);
    assert!(matches!(points[0], ProgramPoint::WhileInv { delay: 7 }));
    assert!(matches!(points[1], ProgramPoint::WhileGuard(_)));
    assert!(matches!(points[2], ProgramPoint::Skip(_)));
    assert!(matches!(points[3], ProgramPoint::EndWhile(_)));
}

#[test]
fn negate_pushes_through_connectives() {
    let e = BooleanExpr::And(
        Box::new(BooleanExpr::NumLt(var("x"), num(3))),
        Box::new(BooleanExpr::True),
    );
    let n = e.negate();
    match n {
        BooleanExpr::Or(a, b) => {
            assert!(matches!(*a, BooleanExpr::Not(_)));
            assert!(matches!(*b, BooleanExpr::Not(_)));
        }
        _ => panic!("negation of a conjunction must be a disjunction"),
    }
    assert!(matches!(
        BooleanExpr::NumLt(var("x"), num(3)).negate(),
        BooleanExpr::NumGtEq(_, _)
    ));
    assert!(matches!(BooleanExpr::True.negate(), BooleanExpr::False));
}

#[test]
fn is_same_respects_commutativity() {
    let a = ArithmeticExpr::Add(var("x"), var("y"));
    let b = ArithmeticExpr::Add(var("y"), var("x"));
    assert!(a.is_same(&b));
    let c = ArithmeticExpr::Sub(var("x"), var("y"));
    let d = ArithmeticExpr::Sub(var("y"), var("x"));
    assert!(!c.is_same(&d));
}

#[test]
fn get_max_number_finds_the_largest_literal_magnitude() {
    let prog = chain(
        assign("x", num(5)),
        assign(
            "y",
            Box::new(ArithmeticExpr::Sub(var("x"), num(-7))),
        ),
    );
    assert_eq!(prog.get_max_number(), Some(8));
    assert_eq!(Statement::Skip.get_max_number(), None);
}

#[test]
fn disequality_in_constant_domain() {
    // x := 2; if x != 2 then y := 1 else y := 0 end: then branch infeasible
    let prog = chain(
        assign("x", num(2)),
        Box::new(Statement::If {
            cond: Box::new(BooleanExpr::NumNotEq(var("x"), num(2))),
            s1: assign("y", num(1)),
            s2: assign("y", num(0)),
        }),
    );
    let b = Bounds::unbounded();
    let (fin, inv) = denote_stmt::<Constant>(&prog, &b).unwrap();
    assert!(inv[1].is_bottom());
    assert_eq!(
        fin.read(&String::from("y"), &b),
        Constant::Value(Integer::Value(0))
    );
}

#[test]
fn equality_test_refines_through_subtraction() {
    // x := [0,10]; if x - 2 == 1 then skip else skip end
    let prog = chain(
        assign(
            "x",
            Box::new(ArithmeticExpr::Interval(num(0), num(10))),
        ),
        Box::new(Statement::If {
            cond: Box::new(BooleanExpr::NumEq(
                Box::new(ArithmeticExpr::Sub(var("x"), num(2))),
                num(1),
            )),
            s1: Box::new(Statement::Skip),
            s2: Box::new(Statement::Skip),
        }),
    );
    let b = Bounds::unbounded();
    let (_, inv) = denote_stmt::<Interval>(&prog, &b).unwrap();
    assert_eq!(read(&inv[1], "x", &b), itv(3, 3));
}

#[test]
fn conjunction_and_disjunction_guards() {
    // x := [0,10]; if x > 2 && x < 7 then skip else skip end
    let prog = chain(
        assign(
            "x",
            Box::new(ArithmeticExpr::Interval(num(0), num(10))),
        ),
        Box::new(Statement::If {
            cond: Box::new(BooleanExpr::And(
                Box::new(BooleanExpr::NumGt(var("x"), num(2))),
                Box::new(BooleanExpr::NumLt(var("x"), num(7))),
            )),
            s1: Box::new(Statement::Skip),
            s2: Box::new(Statement::Skip),
        }),
    );
    let b = Bounds::unbounded();
    let (_, inv) = denote_stmt::<Interval>(&prog, &b).unwrap();
    assert_eq!(read(&inv[1], "x", &b), itv(3, 6));
}

#[test]
fn equality_test_refines_through_division() {
    // x := [0,100]; if x / 2 == 3 then skip else skip end: the dividend
    // is cut to the quotient times the divisor, widened by the slack of
    // truncation
    let prog = chain(
        assign(
            "x",
            Box::new(ArithmeticExpr::Interval(num(0), num(100))),
        ),
        Box::new(Statement::If {
            cond: Box::new(BooleanExpr::NumEq(
                Box::new(ArithmeticExpr::Div(var("x"), num(2))),
                num(3),
            )),
            s1: Box::new(Statement::Skip),
            s2: Box::new(Statement::Skip),
        }),
    );
    let b = Bounds::unbounded();
    let (_, inv) = denote_stmt::<Interval>(&prog, &b).unwrap();
    assert_eq!(read(&inv[1], "x", &b), itv(5, 7));
}

#[test]
fn window_excluding_zero_degrades_the_zero_divisor() {
    // under a clamp window that excludes zero the literal zero abstracts
    // to a wider clamped range, so dividing by it is not the constant-zero
    // error but an ordinary split division
    let prog = chain(
        assign("x", num(1)),
        assign(
            "y",
            Box::new(ArithmeticExpr::Div(var("x"), num(0))),
        ),
    );
    let b = Bounds::new(Integer::Value(5), Integer::Value(8)).unwrap();
    assert!(denote_stmt::<Interval>(&prog, &b).is_ok());
}
