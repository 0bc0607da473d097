//! A line-oriented script interpreter: command classification, variable
//! substitution, and an execution engine driven by an explicit instruction
//! pointer over an ordered sequence of lines.

pub mod command;
pub mod engine;
pub mod laws;
pub mod script;
pub mod session;
pub mod text;
