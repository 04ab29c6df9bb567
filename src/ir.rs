//! The instruction stream that lowering produces.

use vstd::prelude::*;

verus! {

use crate::ast::Span;

/// A virtual register; registers are numbered in the order they are handed out.
#[derive(Clone, Copy, Debug, PartialEq, Eq, Structural)]
pub struct RegId(pub u32);

impl RegId {
    pub fn new(n: u32) -> (r: RegId)
        ensures
            r.0 == n,
    {
        RegId(n)
    }

    pub fn get(&self) -> (r: u32)
        ensures
            r == self.0,
    {
        self.0
    }
}

/// A constant value loaded into a register.
#[derive(Clone, Copy, Debug, PartialEq, Eq, Structural)]
pub enum Literal {
    Int(i64),
}

/// The operation that a binary instruction performs.
#[derive(Clone, Copy, Debug, PartialEq, Eq, Structural)]
pub enum Operator {
    Plus,
    Multiply,
}

/// One step of the program; its index in the stream is its program counter.
#[derive(Clone, Copy, Debug, PartialEq, Eq, Structural)]
pub enum Instruction {
    /// Puts `lit` in `dst`.
    LoadLiteral { dst: RegId, lit: Literal },
    /// Replaces `lhs_dst` with `lhs_dst op rhs`.
    BinaryOp { lhs_dst: RegId, op: Operator, rhs: RegId },
    /// Ends the program with the value of `src`.
    Return { src: RegId },
}

/// The assembled result of one lowering pass.
///
/// `spans` and `ast` hold one entry per instruction; they are placeholders
/// (empty spans, no node) until source positions are carried through.
pub struct IrBlock {
    pub instructions: Vec<Instruction>,
    pub spans: Vec<Span>,
    pub data: Vec<u8>,
    pub ast: Vec<Option<crate::ast::NodeId>>,
    pub comments: Vec<String>,
    pub register_count: u32,
    pub file_count: u32,
}

} // verus!
