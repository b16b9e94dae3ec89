//! The decision layer of `#[derive(Accounts)]`: the model of an accounts struct's fields
//! and their directives, the structural rules they must obey, and the phase plan that
//! code generation follows.

pub mod model;
pub mod directives;
pub mod syntax;
pub mod lower;
pub mod rules;
pub mod planner;
pub mod laws;
pub mod header;
pub mod client;
