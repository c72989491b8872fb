//! The syntactic program points of a statement, in the order the recorded
//! invariant trace visits them.

use vstd::prelude::*;

use crate::ast::{num_points, BooleanExpr, Statement};

verus! {

/// A syntactic location at which the analysis records one abstract state:
/// a skip or assignment, the two guards and the merge of a conditional,
/// and a loop's invariant, guard and exit.
#[derive(Debug)]
pub enum ProgramPoint {
    Skip(Statement),
    Assignment(Statement),
    IfGuard(BooleanExpr),
    ElseGuard(BooleanExpr),
    EndIf,
    WhileInv { delay: i64 },
    WhileGuard(BooleanExpr),
    EndWhile(BooleanExpr),
}

/// The program points of a statement, in program order: the same order in
/// which the analysis records abstract states, so the two sequences can
/// be read side by side position by position.
pub open spec fn points_of(s: Statement) -> Seq<ProgramPoint>
    decreases s,
{
    match s {
        Statement::Skip => seq![ProgramPoint::Skip(s)],
        Statement::Assignment { .. } => seq![ProgramPoint::Assignment(s)],
        Statement::Chain(s1, s2) => points_of(*s1) + points_of(*s2),
        Statement::If { cond, s1, s2 } => seq![ProgramPoint::IfGuard(*cond)] + points_of(*s1)
            + seq![ProgramPoint::ElseGuard(cond.negate_s())] + points_of(*s2)
            + seq![ProgramPoint::EndIf],
        Statement::While { cond, body, delay: _ } => seq![
            ProgramPoint::WhileInv { delay: s.loop_delay_s() },
            ProgramPoint::WhileGuard(*cond),
        ] + points_of(*body) + seq![ProgramPoint::EndWhile(cond.negate_s())],
        Statement::RepeatUntil { body, cond, delay: _ } => points_of(*body) + seq![
            ProgramPoint::WhileInv { delay: s.loop_delay_s() },
            ProgramPoint::WhileGuard(*cond),
        ] + points_of(*body) + seq![ProgramPoint::EndWhile(cond.negate_s())],
    }
}

/// A statement has exactly as many program points as the analysis records
/// abstract states.
pub proof fn lemma_points_count(s: Statement)
    ensures
        points_of(s).len() == num_points(s),
    decreases s,
{
    match s {
        Statement::Chain(s1, s2) => {
            lemma_points_count(*s1);
            lemma_points_count(*s2);
        },
        Statement::If { cond: _, s1, s2 } => {
            lemma_points_count(*s1);
            lemma_points_count(*s2);
        },
        Statement::While { cond: _, body, delay: _ } => {
            lemma_points_count(*body);
        },
        Statement::RepeatUntil { body, cond: _, delay: _ } => {
            lemma_points_count(*body);
        },
        _ => {},
    }
}

/// Enumerates the program points of a statement, in the order the
/// recorded trace visits them.
pub fn get_program_points(stmt: &Statement) -> (r: Vec<ProgramPoint>)
    ensures
        r@ == points_of(*stmt),
        r@.len() == num_points(*stmt),
    decreases *stmt,
{
    proof {
        lemma_points_count(*stmt);
    }
    match stmt {
        Statement::Skip => {
            let mut out: Vec<ProgramPoint> = Vec::new();
            out.push(ProgramPoint::Skip(stmt.clone()));
            proof {
                assert(out@ =~= points_of(*stmt));
            }
            out
        },
        Statement::Assignment { .. } => {
            let mut out: Vec<ProgramPoint> = Vec::new();
            out.push(ProgramPoint::Assignment(stmt.clone()));
            proof {
                assert(out@ =~= points_of(*stmt));
            }
            out
        },
        Statement::Chain(s1, s2) => {
            let mut out = get_program_points(s1);
            let mut t2 = get_program_points(s2);
            out.append(&mut t2);
            proof {
                assert(out@ =~= points_of(*stmt));
            }
            out
        },
        Statement::If { cond, s1, s2 } => {
            let mut out: Vec<ProgramPoint> = Vec::new();
            out.push(ProgramPoint::IfGuard((**cond).clone()));
            let mut t1 = get_program_points(s1);
            out.append(&mut t1);
            out.push(ProgramPoint::ElseGuard(cond.negate()));
            let mut t2 = get_program_points(s2);
            out.append(&mut t2);
            out.push(ProgramPoint::EndIf);
            proof {
                assert(out@ =~= points_of(*stmt));
            }
            out
        },
        Statement::While { cond, body, delay: _ } => {
            let mut out: Vec<ProgramPoint> = Vec::new();
            out.push(ProgramPoint::WhileInv { delay: stmt.get_loop_delay() });
            out.push(ProgramPoint::WhileGuard((**cond).clone()));
            let mut t = get_program_points(body);
            out.append(&mut t);
            out.push(ProgramPoint::EndWhile(cond.negate()));
            proof {
                assert(out@ =~= points_of(*stmt));
            }
            out
        },
        Statement::RepeatUntil { body, cond, delay: _ } => {
            let mut out = get_program_points(body);
            out.push(ProgramPoint::WhileInv { delay: stmt.get_loop_delay() });
            out.push(ProgramPoint::WhileGuard((**cond).clone()));
            let mut t = get_program_points(body);
            out.append(&mut t);
            out.push(ProgramPoint::EndWhile(cond.negate()));
            proof {
                assert(out@ =~= points_of(*stmt));
            }
            out
        },
    }
}

} // verus!
