//! Abstract interpretation of a small imperative "while" language.
//!
//! The crate evaluates programs over an abstract numeric domain instead of
//! concrete integers: every variable is mapped to an approximate value (an
//! interval or a constant), statements become transformers of abstract
//! states, and loops are solved by a widening/narrowing fixpoint. The result
//! of an analysis is a final abstract state together with one abstract state
//! per program point.

pub mod ast;
pub mod bounds;
pub mod constant;
pub mod denote;
pub mod domain;
pub mod expression_tree;
pub mod integer;
pub mod interval;
pub mod lattice;
pub mod program_point;
pub mod sign;
pub mod state;
