//! Expression trees: the shape of an arithmetic expression with the
//! abstract value computed at every node, used to push a refined value
//! back down to the variables that produced it.

use vstd::prelude::*;

use crate::bounds::Bounds;
use crate::domain::Domain;
use crate::lattice::Lattice;
use crate::state::{put_view, State};

verus! {

/// The operator of an inner expression-tree node.
#[derive(Clone, Copy, Debug, PartialEq, Eq, Structural)]
pub enum ArithOp {
    Add,
    Sub,
    Mul,
    Div,
}

/// An arithmetic expression annotated with the abstract value of every
/// sub-expression: a literal's value, a variable occurrence, or an
/// operator over two annotated children.
#[derive(Debug)]
pub enum ExpressionTree<T> {
    Value(T),
    Variable(String, T),
    Binop { op: ArithOp, value: T, l: Box<ExpressionTree<T>>, r: Box<ExpressionTree<T>> },
}

/// The root value of a well-formed tree is well-formed.
proof fn lemma_value_wf<T: Domain>(t: ExpressionTree<T>, b: Bounds)
    requires
        t.wf_tree(b),
    ensures
        t.value_s().wf(b),
{
}

impl<T: Domain> ExpressionTree<T> {
    /// The abstract value recorded at the root.
    pub open spec fn value_s(self) -> T {
        match self {
            ExpressionTree::Value(v) => v,
            ExpressionTree::Variable(_, v) => v,
            ExpressionTree::Binop { value, .. } => value,
        }
    }

    /// Every value recorded in the tree is well-formed.
    pub open spec fn wf_tree(self, b: Bounds) -> bool
        decreases self,
    {
        match self {
            ExpressionTree::Value(v) => v.wf(b),
            ExpressionTree::Variable(_, v) => v.wf(b),
            ExpressionTree::Binop { value, l, r, .. } => value.wf(b) && l.wf_tree(b) && r.wf_tree(
                b,
            ),
        }
    }

    /// The state after pushing the tightened value `target` down the
    /// tree. A literal absorbs it; a variable occurrence is cut down to
    /// the meet of its recorded value and the target; an operator node
    /// inverts itself to hand each child its own tightened target.
    /// Multiplication does not refine past a factor that may be zero.
    /// Division refines only its dividend, to the quotient times the
    /// divisor widened by the truncation slack, and only for a divisor
    /// excluding zero; its divisor keeps its own value, since a quotient
    /// admitting zero constrains the divisor not at all.
    pub open spec fn refine_s(
        self,
        target: T,
        v: Option<Map<Seq<char>, T>>,
        b: Bounds,
    ) -> Option<Map<Seq<char>, T>>
        decreases self,
    {
        match self {
            ExpressionTree::Value(_) => v,
            ExpressionTree::Variable(x, val) => put_view(v, x@, val.glb_s(target, b)),
            ExpressionTree::Binop { op, value, l, r } => {
                let c = value.glb_s(target, b);
                let a = l.value_s();
                let d = r.value_s();
                let new_a = match op {
                    ArithOp::Add => c.minus_d(d, b),
                    ArithOp::Sub => c.plus_d(d, b),
                    ArithOp::Mul => if d.contains_zero_s() {
                        a
                    } else {
                        c.div_d(d, b)
                    },
                    ArithOp::Div => if d.contains_zero_s() {
                        a
                    } else {
                        c.div_inv_s(d, b)
                    },
                };
                let new_b = match op {
                    ArithOp::Add => c.minus_d(a, b),
                    ArithOp::Sub => a.minus_d(c, b),
                    ArithOp::Mul => if a.contains_zero_s() {
                        d
                    } else {
                        c.div_d(a, b)
                    },
                    ArithOp::Div => d,
                };
                let ta = a.glb_s(new_a, b);
                let td = d.glb_s(new_b, b);
                r.refine_s(td, l.refine_s(ta, v, b), b)
            },
        }
    }

    /// Reads the abstract value recorded at the root.
    pub fn value(&self) -> (r: T)
        ensures
            r == self.value_s(),
    {
        match self {
            ExpressionTree::Value(v) => *v,
            ExpressionTree::Variable(_, v) => *v,
            ExpressionTree::Binop { value, .. } => *value,
        }
    }

    /// Pushes the tightened value `target` down the tree, narrowing the
    /// variables that fed the expression.
    pub fn refine(&self, target: T, state: State<T>, b: &Bounds) -> (r: State<T>)
        requires
            b.wf(),
            self.wf_tree(*b),
            target.wf(*b),
            state.wf_state(*b),
        ensures
            r@ == self.refine_s(target, state@, *b),
            r.wf_state(*b),
        decreases *self,
    {
        match self {
            ExpressionTree::Value(_) => state,
            ExpressionTree::Variable(x, val) => {
                let nv = val.glb(&target, b);
                state.put(x, nv, b)
            },
            ExpressionTree::Binop { op, value, l, r } => {
                proof {
                    lemma_value_wf(**l, *b);
                    lemma_value_wf(**r, *b);
                }
                let c = value.glb(&target, b);
                let a = l.value();
                let d = r.value();
                let new_a = match *op {
                    ArithOp::Add => c.minus_v(&d, b),
                    ArithOp::Sub => c.plus_v(&d, b),
                    ArithOp::Mul => if d.contains_zero() {
                        a
                    } else {
                        c.div_v(&d, b)
                    },
                    ArithOp::Div => if d.contains_zero() {
                        a
                    } else {
                        c.div_inv(&d, b)
                    },
                };
                let new_b = match *op {
                    ArithOp::Add => c.minus_v(&a, b),
                    ArithOp::Sub => a.minus_v(&c, b),
                    ArithOp::Mul => if a.contains_zero() {
                        d
                    } else {
                        c.div_v(&a, b)
                    },
                    ArithOp::Div => d,
                };
                let ta = a.glb(&new_a, b);
                let td = d.glb(&new_b, b);
                let l_state = l.refine(ta, state, b);
                let r_state = r.refine(td, l_state, b);
                r_state
            },
        }
    }
}

} // verus!
