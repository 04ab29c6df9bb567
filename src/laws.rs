//! What holds of every lowering pass: instructions and diagnostics are only
//! appended, registers are loaded in strictly increasing order and before
//! they are read, failures reach the parent, and a pass is a function of the
//! parse alone.

use vstd::prelude::*;

verus! {

use crate::ast::{AstNode, Compiler, NodeId};
use crate::errors::{Severity, SourceError};
use crate::render::{error_lines, state_text};
use crate::generator::{
    generate_spec, lemma_prefix_stops, literal_result, literal_value, lower, lower_prefix,
    diag_view, operator_error, operator_of, unsupported_error, Diag, GenState, IrGenerator,
};
use crate::ir::{Instruction, Literal, RegId};

/// The instruction loads a literal.
pub open spec fn is_load(i: Instruction) -> bool {
    i is LoadLiteral
}

/// The register that a load writes (zero for other instructions).
pub open spec fn load_reg(i: Instruction) -> nat {
    match i {
        Instruction::LoadLiteral { dst, .. } => dst.0 as nat,
        _ => 0,
    }
}

/// Registers are loaded in strictly increasing order, each below the count
/// of registers handed out.
pub open spec fn registers_ascending(s: GenState) -> bool {
    &&& forall|i: int, j: int|
        0 <= i < j < s.instrs.len() && is_load(#[trigger] s.instrs[i]) && is_load(
            #[trigger] s.instrs[j],
        ) ==> load_reg(s.instrs[i]) < load_reg(s.instrs[j])
    &&& forall|i: int| 0 <= i < s.instrs.len() && is_load(#[trigger] s.instrs[i]) ==> load_reg(
        s.instrs[i],
    ) < s.regs
}

/// `t` continues `s`: instructions and diagnostics are only appended, and
/// the register count never goes down.
pub open spec fn extends(s: GenState, t: GenState) -> bool {
    &&& s.instrs.len() <= t.instrs.len()
    &&& t.instrs.subrange(0, s.instrs.len() as int) == s.instrs
    &&& s.diags.len() <= t.diags.len()
    &&& t.diags.subrange(0, s.diags.len() as int) == s.diags
    &&& s.regs <= t.regs
}

proof fn lemma_extends_trans(a: GenState, b: GenState, c: GenState)
    requires
        extends(a, b),
        extends(b, c),
    ensures
        extends(a, c),
{
    assert(c.instrs.subrange(0, a.instrs.len() as int) =~= b.instrs.subrange(0, a.instrs.len() as int));
    assert(c.diags.subrange(0, a.diags.len() as int) =~= b.diags.subrange(0, a.diags.len() as int));
}

proof fn lemma_emit_load(s: GenState, reg: RegId, v: i64)
    requires
        registers_ascending(s),
        reg.0 as nat == s.regs,
    ensures
        ({
            let t = GenState { regs: s.regs + 1, ..s }.emit(
                Instruction::LoadLiteral { dst: reg, lit: Literal::Int(v) },
            );
            registers_ascending(t) && extends(s, t)
        }),
{
    let t = GenState { regs: s.regs + 1, ..s }.emit(
        Instruction::LoadLiteral { dst: reg, lit: Literal::Int(v) },
    );
    assert(t.instrs.subrange(0, s.instrs.len() as int) =~= s.instrs);
    assert(t.diags.subrange(0, s.diags.len() as int) =~= s.diags);
    assert forall|i: int, j: int|
        0 <= i < j < t.instrs.len() && is_load(#[trigger] t.instrs[i]) && is_load(
            #[trigger] t.instrs[j],
        ) implies load_reg(t.instrs[i]) < load_reg(t.instrs[j]) by {
        if j == s.instrs.len() {
            assert(t.instrs[i] == s.instrs[i]);
        } else {
            assert(t.instrs[i] == s.instrs[i]);
            assert(t.instrs[j] == s.instrs[j]);
        }
    }
    assert forall|i: int| 0 <= i < t.instrs.len() && is_load(#[trigger] t.instrs[i]) implies load_reg(
        t.instrs[i],
    ) < t.regs by {
        if i < s.instrs.len() {
            assert(t.instrs[i] == s.instrs[i]);
        }
    }
}

proof fn lemma_emit_other(s: GenState, ins: Instruction)
    requires
        registers_ascending(s),
        !is_load(ins),
    ensures
        registers_ascending(s.emit(ins)),
        extends(s, s.emit(ins)),
{
    let t = s.emit(ins);
    assert(t.instrs.subrange(0, s.instrs.len() as int) =~= s.instrs);
    assert(t.diags.subrange(0, s.diags.len() as int) =~= s.diags);
    assert forall|i: int, j: int|
        0 <= i < j < t.instrs.len() && is_load(#[trigger] t.instrs[i]) && is_load(
            #[trigger] t.instrs[j],
        ) implies load_reg(t.instrs[i]) < load_reg(t.instrs[j]) by {
        assert(t.instrs[i] == s.instrs[i]);
        assert(t.instrs[j] == s.instrs[j]);
    }
    assert forall|i: int| 0 <= i < t.instrs.len() && is_load(#[trigger] t.instrs[i]) implies load_reg(
        t.instrs[i],
    ) < t.regs by {
        assert(t.instrs[i] == s.instrs[i]);
    }
}

proof fn lemma_diag(s: GenState, id: NodeId, m: Seq<char>)
    requires
        registers_ascending(s),
    ensures
        registers_ascending(s.diag(id, m)),
        extends(s, s.diag(id, m)),
{
    let t = s.diag(id, m);
    assert(t.instrs.subrange(0, s.instrs.len() as int) =~= s.instrs);
    assert(t.diags.subrange(0, s.diags.len() as int) =~= s.diags);
}

proof fn lemma_extends_refl(s: GenState)
    ensures
        extends(s, s),
{
    assert(s.instrs.subrange(0, s.instrs.len() as int) =~= s.instrs);
    assert(s.diags.subrange(0, s.diags.len() as int) =~= s.diags);
}

/// Lowering any node only appends instructions and diagnostics, never lowers
/// the register count, and keeps registers loaded in strictly increasing
/// order.
pub proof fn lemma_lower_extends(c: Compiler, s: GenState, id: NodeId)
    requires
        registers_ascending(s),
    ensures
        extends(s, lower(c, s, id).0),
        registers_ascending(lower(c, s, id).0),
    decreases id.0 * 2 + 1, 0int,
{
    lemma_extends_refl(s);
    if id.0 < c.ast_nodes@.len() {
        match c.ast_nodes@[id.0 as int] {
            AstNode::Int => {
                if s.regs < u32::MAX {
                    let s1 = GenState { regs: s.regs + 1, ..s };
                    let reg = RegId(s.regs as u32);
                    match literal_result(c, id) {
                        Ok(v) => {
                            lemma_emit_load(s, reg, v);
                        },
                        Err(m) => {
                            assert(registers_ascending(s1));
                            lemma_diag(s1, id, m);
                            assert(s1.diag(id, m).diags.subrange(0, s.diags.len() as int) =~= s.diags);
                            assert(s1.diag(id, m).instrs.subrange(0, s.instrs.len() as int) =~= s.instrs);
                        },
                    }
                } else {
                    lemma_diag(s, id, "no register is left"@);
                }
            },
            AstNode::Block(b) => {
                if b.0 < c.blocks@.len() {
                    let nodes = c.blocks@[b.0 as int].nodes@;
                    lemma_prefix_extends(c, s, id, nodes, nodes.len() as int);
                }
            },
            AstNode::BinaryOp { lhs, op, rhs } => {
                if lhs.0 < id.0 && rhs.0 < id.0 {
                    let (s1, l) = lower(c, s, lhs);
                    lemma_lower_extends(c, s, lhs);
                    if l is Some {
                        let (s2, r) = lower(c, s1, rhs);
                        lemma_lower_extends(c, s1, rhs);
                        lemma_extends_trans(s, s1, s2);
                        if r is Some {
                            match operator_of(c, op) {
                                Some(o) => {
                                    let ins = Instruction::BinaryOp {
                                        lhs_dst: l->0,
                                        op: o,
                                        rhs: r->0,
                                    };
                                    lemma_emit_other(s2, ins);
                                    lemma_extends_trans(s, s2, s2.emit(ins));
                                },
                                None => {
                                    lemma_diag(s2, op, operator_error(c, op));
                                    lemma_extends_trans(s, s2, s2.diag(op, operator_error(c, op)));
                                },
                            }
                        }
                    }
                }
            },
            _ => {
                lemma_diag(s, id, unsupported_error(c.ast_nodes@[id.0 as int]));
            },
        }
    }
}

/// The block form of `lemma_lower_extends`, over the first `k` members.
pub proof fn lemma_prefix_extends(c: Compiler, s: GenState, parent: NodeId, nodes: Seq<NodeId>, k: int)
    requires
        registers_ascending(s),
    ensures
        extends(s, lower_prefix(c, s, parent, nodes, k).0),
        registers_ascending(lower_prefix(c, s, parent, nodes, k).0),
    decreases parent.0 * 2, k,
{
    lemma_extends_refl(s);
    if 0 < k <= nodes.len() {
        let (s1, r) = lower_prefix(c, s, parent, nodes, k - 1);
        lemma_prefix_extends(c, s, parent, nodes, k - 1);
        if !(k > 1 && r is None) && nodes[k - 1].0 < parent.0 {
            lemma_lower_extends(c, s1, nodes[k - 1]);
            lemma_extends_trans(s, s1, lower(c, s1, nodes[k - 1]).0);
        }
    }
}

/// In a whole pass, registers are loaded in strictly increasing order, so no
/// register is loaded twice, and each lies below the final register count.
pub proof fn lemma_registers_ascending(c: Compiler)
    ensures
        registers_ascending(generate_spec(c, GenState::empty())),
{
    let s = GenState::empty();
    if c.ast_nodes@.len() > 0 {
        let (s1, r) = lower(c, s, NodeId((c.ast_nodes@.len() - 1) as usize));
        lemma_lower_extends(c, s, NodeId((c.ast_nodes@.len() - 1) as usize));
        if r is Some {
            lemma_emit_other(s1, Instruction::Return { src: r->0 });
        }
    }
}

/// A pass over an empty parse produces no instructions and no diagnostics.
pub proof fn lemma_empty_parse(c: Compiler)
    requires
        c.ast_nodes@.len() == 0,
    ensures
        generate_spec(c, GenState::empty()).instrs.len() == 0,
        generate_spec(c, GenState::empty()).diags.len() == 0,
{
}

/// An integer literal whose text is not a signed 64-bit integer yields no
/// register, no instruction and exactly one error, at that node, saying why;
/// the diagnostics before it are kept as they were.
pub proof fn lemma_bad_literal(c: Compiler, s: GenState, id: NodeId)
    requires
        id.0 < c.ast_nodes@.len(),
        c.ast_nodes@[id.0 as int] is Int,
        literal_value(c, id) is None,
    ensures
        lower(c, s, id).1 is None,
        lower(c, s, id).0.instrs == s.instrs,
        lower(c, s, id).0.diags == s.diags.push(
            Diag {
                node: id,
                severity: Severity::Error,
                message: if s.regs < u32::MAX {
                    literal_result(c, id)->Err_0
                } else {
                    "no register is left"@
                },
            },
        ),
{
}

/// The node kinds that lowering handles.
pub open spec fn is_supported(n: AstNode) -> bool {
    n is Int || n is Block || n is BinaryOp
}

/// A node of any other kind yields no register and exactly one error, at
/// that node, saying that its kind is not supported yet; everything else,
/// the earlier diagnostics included, stays as it was.
pub proof fn lemma_unsupported_node(c: Compiler, s: GenState, id: NodeId)
    requires
        id.0 < c.ast_nodes@.len(),
        !is_supported(c.ast_nodes@[id.0 as int]),
    ensures
        lower(c, s, id) == (
            s.diag(id, unsupported_error(c.ast_nodes@[id.0 as int])),
            None::<RegId>,
        ),
{
}

/// A binary operation whose left or right operand yields no register yields
/// none itself, and keeps the diagnostics collected before it.
pub proof fn lemma_binary_operand_fails(c: Compiler, s: GenState, id: NodeId)
    requires
        c.wf(),
        registers_ascending(s),
        id.0 < c.ast_nodes@.len(),
        c.ast_nodes@[id.0 as int] is BinaryOp,
        lower(c, s, c.ast_nodes@[id.0 as int]->lhs).1 is None || lower(
            c,
            lower(c, s, c.ast_nodes@[id.0 as int]->lhs).0,
            c.ast_nodes@[id.0 as int]->rhs,
        ).1 is None,
    ensures
        lower(c, s, id).1 is None,
        extends(s, lower(c, s, id).0),
{
    assert(crate::ast::node_ok(&c, id.0 as int));
    lemma_lower_extends(c, s, id);
}

/// A block in which some member yields no register yields none itself, and
/// keeps the diagnostics collected before it.
pub proof fn lemma_block_member_fails(c: Compiler, s: GenState, id: NodeId, k: int)
    requires
        c.wf(),
        registers_ascending(s),
        id.0 < c.ast_nodes@.len(),
        c.ast_nodes@[id.0 as int] is Block,
        1 <= k <= c.blocks@[(c.ast_nodes@[id.0 as int]->Block_0).0 as int].nodes@.len(),
        lower_prefix(
            c,
            s,
            id,
            c.blocks@[(c.ast_nodes@[id.0 as int]->Block_0).0 as int].nodes@,
            k,
        ).1 is None,
    ensures
        lower(c, s, id).1 is None,
        extends(s, lower(c, s, id).0),
{
    assert(crate::ast::node_ok(&c, id.0 as int));
    let nodes = c.blocks@[(c.ast_nodes@[id.0 as int]->Block_0).0 as int].nodes@;
    lemma_prefix_stops(c, s, id, nodes, k, nodes.len() as int);
    lemma_lower_extends(c, s, id);
}

/// Two passes over the same parse, each from a fresh generator, produce the
/// same instructions, the same registers and the same diagnostics, messages
/// included.
pub proof fn lemma_deterministic(a: IrGenerator, b: IrGenerator)
    requires
        a.source() == b.source(),
        a.state() == generate_spec(a.source(), GenState::empty()),
        b.state() == generate_spec(b.source(), GenState::empty()),
    ensures
        a.instrs() == b.instrs(),
        a.state() == b.state(),
        diag_view(a.errs()) == diag_view(b.errs()),
{
}

/// Register `r` is loaded by one of the instructions.
pub open spec fn loaded(instrs: Seq<Instruction>, r: RegId) -> bool {
    exists|i: int| 0 <= i < instrs.len() && is_load(#[trigger] instrs[i]) && load_reg(instrs[i]) == r.0
}

/// What instruction `k` reads was loaded before it.
pub open spec fn reads_loaded(instrs: Seq<Instruction>, k: int) -> bool {
    match instrs[k] {
        Instruction::BinaryOp { lhs_dst, rhs, .. } => loaded(instrs.take(k), lhs_dst) && loaded(
            instrs.take(k),
            rhs,
        ),
        Instruction::Return { src } => loaded(instrs.take(k), src),
        _ => true,
    }
}

/// Every register that an instruction reads was loaded by an earlier one.
pub open spec fn reads_defined(instrs: Seq<Instruction>) -> bool {
    forall|k: int| 0 <= k < instrs.len() ==> #[trigger] reads_loaded(instrs, k)
}

proof fn lemma_loaded_grows(a: Seq<Instruction>, b: Seq<Instruction>, r: RegId)
    requires
        a.len() <= b.len(),
        b.subrange(0, a.len() as int) == a,
        loaded(a, r),
    ensures
        loaded(b, r),
{
    let i = choose|i: int| 0 <= i < a.len() && is_load(#[trigger] a[i]) && load_reg(a[i]) == r.0;
    assert(b[i] == b.subrange(0, a.len() as int)[i]);
}

proof fn lemma_push_defined(a: Seq<Instruction>, ins: Instruction)
    requires
        reads_defined(a),
        reads_loaded(a.push(ins), a.len() as int),
    ensures
        reads_defined(a.push(ins)),
{
    let b = a.push(ins);
    assert forall|k: int| 0 <= k < b.len() implies #[trigger] reads_loaded(b, k) by {
        if k < a.len() {
            assert(reads_loaded(a, k));
            assert(b.take(k) =~= a.take(k));
            assert(b[k] == a[k]);
        }
    }
}

proof fn lemma_load_defined(a: Seq<Instruction>, reg: RegId, v: i64)
    requires
        reads_defined(a),
    ensures
        reads_defined(a.push(Instruction::LoadLiteral { dst: reg, lit: Literal::Int(v) })),
        loaded(a.push(Instruction::LoadLiteral { dst: reg, lit: Literal::Int(v) }), reg),
{
    let b = a.push(Instruction::LoadLiteral { dst: reg, lit: Literal::Int(v) });
    lemma_push_defined(a, Instruction::LoadLiteral { dst: reg, lit: Literal::Int(v) });
    assert(is_load(b[a.len() as int]));
}

/// Lowering keeps every read register loaded before its use, and the
/// register that a node yields has been loaded.
pub proof fn lemma_lower_defines(c: Compiler, s: GenState, id: NodeId)
    requires
        registers_ascending(s),
        reads_defined(s.instrs),
    ensures
        reads_defined(lower(c, s, id).0.instrs),
        lower(c, s, id).1 matches Some(r) ==> loaded(lower(c, s, id).0.instrs, r),
    decreases id.0 * 2 + 1, 0int,
{
    if id.0 < c.ast_nodes@.len() {
        match c.ast_nodes@[id.0 as int] {
            AstNode::Int => {
                if s.regs < u32::MAX {
                    match literal_value(c, id) {
                        Some(v) => {
                            lemma_load_defined(s.instrs, RegId(s.regs as u32), v);
                        },
                        None => {},
                    }
                }
            },
            AstNode::Block(b) => {
                if b.0 < c.blocks@.len() {
                    let nodes = c.blocks@[b.0 as int].nodes@;
                    lemma_prefix_defines(c, s, id, nodes, nodes.len() as int);
                }
            },
            AstNode::BinaryOp { lhs, op, rhs } => {
                if lhs.0 < id.0 && rhs.0 < id.0 {
                    let (s1, l) = lower(c, s, lhs);
                    lemma_lower_defines(c, s, lhs);
                    lemma_lower_extends(c, s, lhs);
                    if l is Some {
                        let (s2, r) = lower(c, s1, rhs);
                        lemma_lower_defines(c, s1, rhs);
                        lemma_lower_extends(c, s1, rhs);
                        if r is Some {
                            lemma_loaded_grows(s1.instrs, s2.instrs, l->0);
                            match operator_of(c, op) {
                                Some(o) => {
                                    let ins = Instruction::BinaryOp {
                                        lhs_dst: l->0,
                                        op: o,
                                        rhs: r->0,
                                    };
                                    assert(s2.instrs.push(ins).take(s2.instrs.len() as int)
                                        =~= s2.instrs);
                                    lemma_push_defined(s2.instrs, ins);
                                    lemma_loaded_grows(s2.instrs, s2.instrs.push(ins), l->0);
                                    assert(s2.instrs.push(ins).subrange(0, s2.instrs.len() as int)
                                        =~= s2.instrs);
                                },
                                None => {},
                            }
                        }
                    }
                }
            },
            _ => {},
        }
    }
}

/// The block form of `lemma_lower_defines`, over the first `k` members.
pub proof fn lemma_prefix_defines(c: Compiler, s: GenState, parent: NodeId, nodes: Seq<NodeId>, k: int)
    requires
        registers_ascending(s),
        reads_defined(s.instrs),
    ensures
        reads_defined(lower_prefix(c, s, parent, nodes, k).0.instrs),
        lower_prefix(c, s, parent, nodes, k).1 matches Some(r) ==> loaded(
            lower_prefix(c, s, parent, nodes, k).0.instrs,
            r,
        ),
    decreases parent.0 * 2, k,
{
    if 0 < k <= nodes.len() {
        let (s1, r) = lower_prefix(c, s, parent, nodes, k - 1);
        lemma_prefix_defines(c, s, parent, nodes, k - 1);
        lemma_prefix_extends(c, s, parent, nodes, k - 1);
        if !(k > 1 && r is None) && nodes[k - 1].0 < parent.0 {
            lemma_lower_defines(c, s1, nodes[k - 1]);
        }
    }
}

/// In a whole pass, every register that an instruction reads was loaded by
/// an earlier instruction.
pub proof fn lemma_registers_defined_before_use(c: Compiler)
    ensures
        reads_defined(generate_spec(c, GenState::empty()).instrs),
{
    let s = GenState::empty();
    if c.ast_nodes@.len() > 0 {
        let top = NodeId((c.ast_nodes@.len() - 1) as usize);
        let (s1, r) = lower(c, s, top);
        lemma_lower_defines(c, s, top);
        if r is Some {
            let ins = Instruction::Return { src: r->0 };
            assert(s1.instrs.push(ins).take(s1.instrs.len() as int) =~= s1.instrs);
            lemma_push_defined(s1.instrs, ins);
        }
    }
}

/// The rendered diagnostics depend only on what the model sees of them.
proof fn lemma_error_lines_view(e1: Seq<SourceError>, e2: Seq<SourceError>, k: int)
    requires
        diag_view(e1) == diag_view(e2),
    ensures
        error_lines(e1, k) == error_lines(e2, k),
    decreases k,
{
    assert(e1.len() == diag_view(e1).len());
    assert(e2.len() == diag_view(e2).len());
    if 0 < k <= e1.len() {
        lemma_error_lines_view(e1, e2, k - 1);
        let d1 = diag_view(e1)[k - 1];
        let d2 = diag_view(e2)[k - 1];
        assert(d1 == d2);
        assert(e1[k - 1].severity == e2[k - 1].severity);
        assert(e1[k - 1].node_id == e2[k - 1].node_id);
        assert(e1[k - 1].message@ == e2[k - 1].message@);
    }
}

/// Two passes over the same parse, each from a fresh generator, render
/// byte for byte the same.
pub proof fn lemma_rendering_deterministic(a: IrGenerator, b: IrGenerator)
    requires
        a.source() == b.source(),
        a.files() == b.files(),
        a.state() == generate_spec(a.source(), GenState::empty()),
        b.state() == generate_spec(b.source(), GenState::empty()),
    ensures
        state_text(a.regs(), a.files() as nat, a.instrs(), a.errs()) == state_text(
            b.regs(),
            b.files() as nat,
            b.instrs(),
            b.errs(),
        ),
{
    lemma_error_lines_view(a.errs(), b.errs(), a.errs().len() as int);
    assert(a.errs().len() == diag_view(a.errs()).len());
    assert(b.errs().len() == diag_view(b.errs()).len());
}

} // verus!
