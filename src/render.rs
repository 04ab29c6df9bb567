//! Text rendering of numbers, instructions and diagnostics.

use vstd::prelude::*;
use vstd::string::StringExecFns;

verus! {

use crate::errors::{Severity, SourceError};
use crate::ast::AstNode;
use crate::ir::{Instruction, Literal, Operator, RegId};

/// The decimal digit `d`.
pub open spec fn digit_char(d: nat) -> char {
    seq!['0', '1', '2', '3', '4', '5', '6', '7', '8', '9'][d as int]
}

/// The decimal rendering of `n`, without leading zeros.
pub open spec fn decimal(n: nat) -> Seq<char>
    decreases n,
{
    if n < 10 {
        seq![digit_char(n)]
    } else {
        decimal(n / 10).push(digit_char(n % 10))
    }
}

/// The decimal rendering of a signed integer.
pub open spec fn signed_decimal(v: int) -> Seq<char> {
    if v < 0 {
        "-"@ + decimal((-v) as nat)
    } else {
        decimal(v as nat)
    }
}

/// A register as the engine's IR prints it.
pub open spec fn reg_text(r: RegId) -> Seq<char> {
    "RegId("@ + decimal(r.0 as nat) + ")"@
}

/// An operator as the engine's IR prints it.
pub open spec fn operator_text(o: Operator) -> Seq<char> {
    match o {
        Operator::Plus => "Math(Plus)"@,
        Operator::Multiply => "Math(Multiply)"@,
    }
}

/// An instruction as the engine's IR prints it.
pub open spec fn instruction_text(i: Instruction) -> Seq<char> {
    match i {
        Instruction::LoadLiteral { dst, lit: Literal::Int(v) } => "LoadLiteral { dst: "@ + reg_text(
            dst,
        ) + ", lit: Int("@ + signed_decimal(v as int) + ") }"@,
        Instruction::BinaryOp { lhs_dst, op, rhs } => "BinaryOp { lhs_dst: "@ + reg_text(lhs_dst)
            + ", op: "@ + operator_text(op) + ", rhs: "@ + reg_text(rhs) + " }"@,
        Instruction::Return { src } => "Return { src: "@ + reg_text(src) + " }"@,
    }
}

/// The name of a node's kind.
pub open spec fn node_kind_text(n: AstNode) -> Seq<char> {
    match n {
        AstNode::Int => "Int"@,
        AstNode::Float => "Float"@,
        AstNode::String => "String"@,
        AstNode::Name => "Name"@,
        AstNode::Variable => "Variable"@,
        AstNode::Plus => "Plus"@,
        AstNode::Minus => "Minus"@,
        AstNode::Multiply => "Multiply"@,
        AstNode::Divide => "Divide"@,
        AstNode::Equal => "Equal"@,
        AstNode::LessThan => "LessThan"@,
        AstNode::GreaterThan => "GreaterThan"@,
        AstNode::Block(_) => "Block"@,
        AstNode::BinaryOp { .. } => "BinaryOp"@,
        AstNode::Let { .. } => "Let"@,
        AstNode::Garbage => "Garbage"@,
    }
}

/// Relies on `usize`'s `ToString`: the decimal digits of the number.
#[verifier::external_body]
pub(crate) fn usize_text(n: usize) -> (r: String)
    ensures
        r@ == decimal(n as nat),
{
    n.to_string()
}

/// Relies on `i64`'s `ToString`: a `-` for negative numbers, then the
/// decimal digits of the magnitude.
#[verifier::external_body]
pub(crate) fn i64_text(v: i64) -> (r: String)
    ensures
        r@ == signed_decimal(v as int),
{
    v.to_string()
}

/// Appends the rendering of a register.
fn push_reg(out: &mut String, r: RegId)
    ensures
        final(out)@ == old(out)@ + reg_text(r),
{
    out.append("RegId(");
    out.append(usize_text(r.0 as usize).as_str());
    out.append(")");
}

/// Renders an instruction as `instruction_text` describes.
pub fn instruction_string(i: &Instruction) -> (r: String)
    ensures
        r@ == instruction_text(*i),
{
    match i {
        Instruction::LoadLiteral { dst, lit: Literal::Int(v) } => {
            let mut out = String::from_str("LoadLiteral { dst: ");
            push_reg(&mut out, *dst);
            out.append(", lit: Int(");
            out.append(i64_text(*v).as_str());
            out.append(") }");
            out
        },
        Instruction::BinaryOp { lhs_dst, op, rhs } => {
            let mut out = String::from_str("BinaryOp { lhs_dst: ");
            push_reg(&mut out, *lhs_dst);
            out.append(", op: ");
            match op {
                Operator::Plus => out.append("Math(Plus)"),
                Operator::Multiply => out.append("Math(Multiply)"),
            }
            out.append(", rhs: ");
            push_reg(&mut out, *rhs);
            out.append(" }");
            out
        },
        Instruction::Return { src } => {
            let mut out = String::from_str("Return { src: ");
            push_reg(&mut out, *src);
            out.append(" }");
            out
        },
    }
}

/// Names a node's kind as `node_kind_text` describes.
pub fn node_kind_name(n: &AstNode) -> (r: &'static str)
    ensures
        r@ == node_kind_text(*n),
{
    match n {
        AstNode::Int => "Int",
        AstNode::Float => "Float",
        AstNode::String => "String",
        AstNode::Name => "Name",
        AstNode::Variable => "Variable",
        AstNode::Plus => "Plus",
        AstNode::Minus => "Minus",
        AstNode::Multiply => "Multiply",
        AstNode::Divide => "Divide",
        AstNode::Equal => "Equal",
        AstNode::LessThan => "LessThan",
        AstNode::GreaterThan => "GreaterThan",
        AstNode::Block(_) => "Block",
        AstNode::BinaryOp { .. } => "BinaryOp",
        AstNode::Let { .. } => "Let",
        AstNode::Garbage => "Garbage",
    }
}

/// The name of a severity.
pub open spec fn severity_text(s: Severity) -> Seq<char> {
    match s {
        Severity::Error => "Error"@,
        Severity::Warning => "Warning"@,
    }
}

pub fn severity_name(s: Severity) -> (r: &'static str)
    ensures
        r@ == severity_text(s),
{
    match s {
        Severity::Error => "Error",
        Severity::Warning => "Warning",
    }
}

/// One line per instruction among the first `k`: its index, then its text.
pub open spec fn instruction_lines(instrs: Seq<Instruction>, k: int) -> Seq<char>
    decreases k,
{
    if k <= 0 || k > instrs.len() {
        Seq::empty()
    } else {
        instruction_lines(instrs, k - 1) + decimal((k - 1) as nat) + ": "@ + instruction_text(
            instrs[k - 1],
        ) + "\n"@
    }
}

/// One line per diagnostic among the first `k`: severity, node and message.
pub open spec fn error_lines(errs: Seq<SourceError>, k: int) -> Seq<char>
    decreases k,
{
    if k <= 0 || k > errs.len() {
        Seq::empty()
    } else {
        error_lines(errs, k - 1) + severity_text(errs[k - 1].severity) + " (NodeId "@ + decimal(
            errs[k - 1].node_id.0 as nat,
        ) + "): "@ + errs[k - 1].message@ + "\n"@
    }
}

/// The full rendering of a generator's state.
pub open spec fn state_text(
    register_count: nat,
    file_count: nat,
    instrs: Seq<Instruction>,
    errs: Seq<SourceError>,
) -> Seq<char> {
    "==== IR ====\n"@ + "register_count: "@ + decimal(register_count) + "\n"@ + "file_count: "@
        + decimal(file_count) + "\n"@ + instruction_lines(instrs, instrs.len() as int) + if errs.len()
        > 0 {
        "==== IR ERRORS ====\n"@ + error_lines(errs, errs.len() as int)
    } else {
        Seq::empty()
    }
}

/// Renders instructions and diagnostics as `state_text` describes.
pub fn render_state(
    register_count: u32,
    file_count: u32,
    instrs: &Vec<Instruction>,
    errs: &Vec<SourceError>,
) -> (r: String)
    ensures
        r@ == state_text(register_count as nat, file_count as nat, instrs@, errs@),
{
    let mut result = String::from_str("==== IR ====\n");
    result.append("register_count: ");
    result.append(usize_text(register_count as usize).as_str());
    result.append("\n");
    result.append("file_count: ");
    result.append(usize_text(file_count as usize).as_str());
    result.append("\n");
    let ghost head = result@;
    let mut i: usize = 0;
    while i < instrs.len()
        invariant
            i <= instrs@.len(),
            result@ == head + instruction_lines(instrs@, i as int),
        decreases instrs@.len() - i,
    {
        result.append(usize_text(i).as_str());
        result.append(": ");
        result.append(instruction_string(&instrs[i]).as_str());
        result.append("\n");
        i = i + 1;
    }
    if errs.len() > 0 {
        result.append("==== IR ERRORS ====\n");
        let ghost body = result@;
        let mut j: usize = 0;
        while j < errs.len()
            invariant
                j <= errs@.len(),
                result@ == body + error_lines(errs@, j as int),
            decreases errs@.len() - j,
        {
            let e = &errs[j];
            result.append(severity_name(e.severity));
            result.append(" (NodeId ");
            result.append(usize_text(e.node_id.0).as_str());
            result.append("): ");
            result.append(e.message.as_str());
            result.append("\n");
            j = j + 1;
        }
    }
    result
}

} // verus!
