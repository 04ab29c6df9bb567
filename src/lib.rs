//! Lowers a parsed syntax tree into a linear, register-based instruction
//! stream, collecting diagnostics for whatever cannot be lowered.

pub mod ast;
pub mod errors;
pub mod generator;
pub mod ir;
pub mod laws;
pub mod render;
pub mod text;
