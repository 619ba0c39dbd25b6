//! A schema-to-behaviour compiler for persistent entities.
//!
//! An entity is described once, as an ordered list of typed fields that carry
//! declarative attributes. From that description the crate derives the rules
//! that validate an instance, the audit snapshot of an instance, the plan
//! that resolves references into joined rows, and the accessors of the
//! well-known field roles.

pub mod accessor;
pub mod descriptor;
pub mod evaluation;
pub mod identifier;
pub mod population;
pub mod rule;
pub mod schema;
pub mod seqs;
pub mod shape;
pub mod snapshot;
pub mod text;
pub mod value;
