//! Lowering of the syntax tree into instructions.
//!
//! The walk is depth-first and pre-order. A node that cannot be lowered adds
//! a diagnostic and yields no register; its parent then yields none either,
//! while every diagnostic collected so far is kept.

use vstd::prelude::*;
use vstd::string::StringExecFns;

verus! {

use crate::ast::{AstNode, Compiler, NodeId, Span};
use crate::errors::{Severity, SourceError};
use crate::ir::{Instruction, IrBlock, Literal, Operator, RegId};
use crate::render::{node_kind_name, node_kind_text, render_state, state_text};
use crate::text::{int_error_text, int_text, parse_i64, str_from_utf8, utf8_error_text};
use vstd::utf8::{decode_utf8, valid_utf8};

/// A diagnostic as the model sees it: its node, severity and message.
pub struct Diag {
    pub node: NodeId,
    pub severity: Severity,
    pub message: Seq<char>,
}

/// What a pass has produced so far: the instructions, the number of
/// registers handed out and the diagnostics, in order.
pub struct GenState {
    pub instrs: Seq<Instruction>,
    pub regs: nat,
    pub diags: Seq<Diag>,
}

impl GenState {
    /// Nothing produced yet.
    pub open spec fn empty() -> GenState {
        GenState { instrs: Seq::empty(), regs: 0, diags: Seq::empty() }
    }

    /// `i` appended to the instructions.
    pub open spec fn emit(self, i: Instruction) -> GenState {
        GenState { instrs: self.instrs.push(i), ..self }
    }

    /// An error at `id` with `message` appended.
    pub open spec fn diag(self, id: NodeId, message: Seq<char>) -> GenState {
        GenState {
            diags: self.diags.push(Diag { node: id, severity: Severity::Error, message }),
            ..self
        }
    }
}

/// Hands out the next register, or reports at `id` that none is left.
pub open spec fn alloc_reg(s: GenState, id: NodeId) -> (GenState, Option<RegId>) {
    if s.regs < u32::MAX {
        (GenState { regs: s.regs + 1, ..s }, Some(RegId(s.regs as u32)))
    } else {
        (s.diag(id, "no register is left"@), None)
    }
}

/// The start of the message when a literal's text cannot be read.
pub open spec fn literal_error_prefix() -> Seq<char> {
    "failed to convert a node to string: "@
}

/// Reading the integer literal at `id`: its value, or the message of the
/// diagnostic that reports why its text is not one.
pub open spec fn literal_result(c: Compiler, id: NodeId) -> Result<i64, Seq<char>> {
    let bytes = c.span_bytes(id);
    if !valid_utf8(bytes) {
        Err(literal_error_prefix() + utf8_error_text(bytes))
    } else {
        match int_text(decode_utf8(bytes)) {
            Some(v) => Ok(v),
            None => Err(literal_error_prefix() + int_error_text(decode_utf8(bytes))),
        }
    }
}

/// The value of the integer literal at `id`, if its text is one.
pub open spec fn literal_value(c: Compiler, id: NodeId) -> Option<i64> {
    match literal_result(c, id) {
        Ok(v) => Some(v),
        Err(_) => None,
    }
}

/// The message for a node in operator position that is no operator.
pub open spec fn operator_error(c: Compiler, id: NodeId) -> Seq<char> {
    "unrecognized operator "@ + node_kind_text(c.ast_nodes@[id.0 as int])
}

/// The message for a node whose kind cannot be lowered yet.
pub open spec fn unsupported_error(n: AstNode) -> Seq<char> {
    "node "@ + node_kind_text(n) + " not supported yet"@
}

/// The operator that the node at `id` denotes, if it denotes one.
pub open spec fn operator_of(c: Compiler, id: NodeId) -> Option<Operator> {
    if id.0 < c.ast_nodes@.len() {
        match c.ast_nodes@[id.0 as int] {
            AstNode::Plus => Some(Operator::Plus),
            AstNode::Multiply => Some(Operator::Multiply),
            _ => None,
        }
    } else {
        None
    }
}

/// Lowering of the node at `id` from state `s`: the state after it and the
/// register that holds the node's value, if it has one.
pub open spec fn lower(c: Compiler, s: GenState, id: NodeId) -> (GenState, Option<RegId>)
    decreases id.0 * 2 + 1, 0int,
{
    if id.0 >= c.ast_nodes@.len() {
        (s, None)
    } else {
        match c.ast_nodes@[id.0 as int] {
            AstNode::Int => {
                let (s1, r) = alloc_reg(s, id);
                match r {
                    None => (s1, None),
                    Some(reg) => match literal_result(c, id) {
                        Ok(v) => (
                            s1.emit(Instruction::LoadLiteral { dst: reg, lit: Literal::Int(v) }),
                            Some(reg),
                        ),
                        Err(m) => (s1.diag(id, m), None),
                    },
                }
            },
            AstNode::Block(b) => {
                if b.0 < c.blocks@.len() {
                    let nodes = c.blocks@[b.0 as int].nodes@;
                    lower_prefix(c, s, id, nodes, nodes.len() as int)
                } else {
                    (s, None)
                }
            },
            AstNode::BinaryOp { lhs, op, rhs } => {
                if lhs.0 < id.0 && rhs.0 < id.0 {
                    let (s1, l) = lower(c, s, lhs);
                    match l {
                        None => (s1, None),
                        Some(lr) => {
                            let (s2, r) = lower(c, s1, rhs);
                            match r {
                                None => (s2, None),
                                Some(rr) => match operator_of(c, op) {
                                    Some(o) => (
                                        s2.emit(
                                            Instruction::BinaryOp { lhs_dst: lr, op: o, rhs: rr },
                                        ),
                                        Some(lr),
                                    ),
                                    None => (s2.diag(op, operator_error(c, op)), None),
                                },
                            }
                        },
                    }
                } else {
                    (s, None)
                }
            },
            _ => (s.diag(id, unsupported_error(c.ast_nodes@[id.0 as int])), None),
        }
    }
}

/// Lowering of the first `k` members of the block at `parent`: members are
/// lowered in order and the first failure ends the block without a value.
pub open spec fn lower_prefix(c: Compiler, s: GenState, parent: NodeId, nodes: Seq<NodeId>, k: int) -> (
    GenState,
    Option<RegId>,
)
    decreases parent.0 * 2, k,
{
    if k <= 0 || k > nodes.len() {
        (s, None)
    } else {
        let (s1, r) = lower_prefix(c, s, parent, nodes, k - 1);
        if k > 1 && r is None {
            (s1, None)
        } else if nodes[k - 1].0 < parent.0 {
            lower(c, s1, nodes[k - 1])
        } else {
            (s1, None)
        }
    }
}

/// A whole pass from state `s`: the last node is the program, and its value
/// is returned when it has one.
pub open spec fn generate_spec(c: Compiler, s: GenState) -> GenState {
    if c.ast_nodes@.len() == 0 {
        s
    } else {
        let (s1, r) = lower(c, s, NodeId((c.ast_nodes@.len() - 1) as usize));
        match r {
            Some(reg) => s1.emit(Instruction::Return { src: reg }),
            None => s1,
        }
    }
}

/// The diagnostics as the model sees them, in order.
pub open spec fn diag_view(errs: Seq<SourceError>) -> Seq<Diag> {
    errs.map_values(|e: SourceError| Diag { node: e.node_id, severity: e.severity, message: e.message@ })
}

/// `new` begins with all of `old`, unchanged.
pub open spec fn keeps(old: Seq<SourceError>, new: Seq<SourceError>) -> bool {
    &&& old.len() <= new.len()
    &&& forall|i: int| 0 <= i < old.len() ==> #[trigger] new[i] == old[i]
}

/// Generates instructions from a completed parse.
pub struct IrGenerator<'a> {
    compiler: &'a Compiler,
    errors: Vec<SourceError>,
    instructions: Vec<Instruction>,
    register_count: u32,
    file_count: u32,
}

impl<'a> IrGenerator<'a> {
    /// The parse result that the generator reads.
    pub closed spec fn source(&self) -> Compiler {
        *self.compiler
    }

    /// What the generator has produced so far.
    pub open spec fn state(&self) -> GenState {
        GenState { instrs: self.instrs(), regs: self.regs(), diags: diag_view(self.errs()) }
    }

    /// The number of registers handed out so far.
    pub closed spec fn regs(&self) -> nat {
        self.register_count as nat
    }

    /// The instructions emitted so far.
    pub closed spec fn instrs(&self) -> Seq<Instruction> {
        self.instructions@
    }

    /// The diagnostics collected so far.
    pub closed spec fn errs(&self) -> Seq<SourceError> {
        self.errors@
    }

    /// The number of files the program refers to.
    pub closed spec fn files(&self) -> u32 {
        self.file_count
    }

    /// The parse is well formed and every diagnostic is an error.
    pub closed spec fn inv(&self) -> bool {
        &&& self.compiler.wf()
        &&& forall|i: int| 0 <= i < self.errors@.len() ==> (#[trigger] self.errors@[i]).severity
            == Severity::Error
    }

    /// Binds a fresh generator to a completed parse.
    pub fn new(compiler: &'a Compiler) -> (r: Self)
        requires
            compiler.wf(),
        ensures
            r.inv(),
            r.source() == *compiler,
            r.state() == GenState::empty(),
            r.files() == 0,
    {
        let r = IrGenerator {
            compiler,
            errors: Vec::new(),
            instructions: Vec::new(),
            register_count: 0,
            file_count: 0,
        };
        assert(diag_view(r.errors@) =~= Seq::empty());
        r
    }

    /// Generates the program's instructions from the parse result.
    ///
    /// With no nodes nothing is produced. Otherwise the last node is lowered
    /// and, when it yields a register, a `Return` of it ends the stream.
    /// Read the result with `block` and `errors`, checking `errors` first.
    pub fn generate(&mut self)
        requires
            old(self).inv(),
        ensures
            final(self).inv(),
            final(self).source() == old(self).source(),
            final(self).files() == old(self).files(),
            keeps(old(self).errs(), final(self).errs()),
            final(self).state() == generate_spec(old(self).source(), old(self).state()),
            old(self).source().ast_nodes@.len() == 0 ==> final(self).state() == old(self).state(),
            forall|i: int|
                0 <= i < final(self).errs().len() ==> (#[trigger] final(self).errs()[i]).severity
                    == Severity::Error,
    {
        if self.compiler.ast_nodes.len() == 0 {
            return;
        }
        let top = NodeId(self.compiler.ast_nodes.len() - 1);
        match self.generate_node(top) {
            Some(reg) => {
                self.instructions.push(Instruction::Return { src: reg });
            },
            None => {},
        }
    }

    /// Returns the assembled block: the instructions, the register and file
    /// counts, one empty span and no node per instruction, and empty data and
    /// comment pools.
    pub fn block(self) -> (r: IrBlock)
        ensures
            r.instructions@ == self.instrs(),
            r.register_count as nat == self.regs(),
            r.file_count == self.files(),
            r.spans@.len() == r.instructions@.len(),
            forall|i: int| 0 <= i < r.spans@.len() ==> #[trigger] r.spans@[i] == (Span { start: 0, end: 0 }),
            r.ast@.len() == r.instructions@.len(),
            forall|i: int| 0 <= i < r.ast@.len() ==> #[trigger] r.ast@[i] is None,
            r.data@.len() == 0,
            r.comments@.len() == 0,
    {
        let n = self.instructions.len();
        let mut spans: Vec<Span> = Vec::new();
        let mut ast: Vec<Option<NodeId>> = Vec::new();
        let mut i: usize = 0;
        while i < n
            invariant
                i <= n,
                spans@.len() == i,
                ast@.len() == i,
                forall|k: int| 0 <= k < i ==> #[trigger] spans@[k] == (Span { start: 0, end: 0 }),
                forall|k: int| 0 <= k < i ==> #[trigger] ast@[k] is None,
            decreases n - i,
        {
            spans.push(Span { start: 0, end: 0 });
            ast.push(None);
            i = i + 1;
        }
        IrBlock {
            instructions: self.instructions,
            spans,
            data: Vec::new(),
            ast,
            comments: Vec::new(),
            register_count: self.register_count,
            file_count: self.file_count,
        }
    }

    /// Renders the register and file counts, every instruction with its
    /// index, and every diagnostic with its severity, node and message.
    pub fn display_state(&self) -> (r: String)
        ensures
            r@ == state_text(self.regs(), self.files() as nat, self.instrs(), self.errs()),
    {
        render_state(self.register_count, self.file_count, &self.instructions, &self.errors)
    }

    /// Returns the diagnostics of the pass.
    pub fn errors(&self) -> (r: &Vec<SourceError>)
        ensures
            r@ == self.errs(),
    {
        &self.errors
    }

    /// Hands out the next register, or reports at `node_id` that the
    /// register file is exhausted.
    fn next_register(&mut self, node_id: NodeId) -> (r: Option<RegId>)
        requires
            old(self).inv(),
        ensures
            final(self).inv(),
            final(self).source() == old(self).source(),
            final(self).files() == old(self).files(),
            keeps(old(self).errs(), final(self).errs()),
            (final(self).state(), r) == alloc_reg(old(self).state(), node_id),
    {
        if self.register_count < u32::MAX {
            let r = RegId::new(self.register_count);
            self.register_count = self.register_count + 1;
            Some(r)
        } else {
            self.error(String::from_str("no register is left"), node_id);
            None
        }
    }

    /// Records an error diagnostic at `node_id`.
    fn error(&mut self, message: String, node_id: NodeId)
        requires
            old(self).inv(),
        ensures
            final(self).inv(),
            final(self).source() == old(self).source(),
            final(self).files() == old(self).files(),
            keeps(old(self).errs(), final(self).errs()),
            final(self).state() == old(self).state().diag(node_id, message@),
            final(self).errs() == old(self).errs().push(
                SourceError { message, node_id, severity: Severity::Error },
            ),
    {
        let e = SourceError { message, node_id, severity: Severity::Error };
        self.errors.push(e);
        assert(diag_view(self.errors@) =~= diag_view(old(self).errors@).push(
            Diag { node: node_id, severity: Severity::Error, message: message@ },
        ));
    }

    /// The text of the node's span, or a diagnostic where it is not UTF-8.
    fn span_to_string(&mut self, node_id: NodeId) -> (r: Option<String>)
        requires
            old(self).inv(),
            node_id.0 < old(self).source().ast_nodes@.len(),
        ensures
            final(self).inv(),
            final(self).source() == old(self).source(),
            final(self).files() == old(self).files(),
            keeps(old(self).errs(), final(self).errs()),
            match r {
                Some(t) => valid_utf8(old(self).source().span_bytes(node_id)) && t@ == decode_utf8(
                    old(self).source().span_bytes(node_id),
                ) && final(self).state() == old(self).state(),
                None => !valid_utf8(old(self).source().span_bytes(node_id)) && final(self).state()
                    == old(self).state().diag(
                    node_id,
                    literal_error_prefix() + utf8_error_text(old(self).source().span_bytes(node_id)),
                ),
            },
    {
        let compiler = self.compiler;
        match str_from_utf8(compiler.get_span_contents(node_id)) {
            Ok(val) => Some(String::from_str(val)),
            Err(err) => {
                let mut msg = String::from_str("failed to convert a node to string: ");
                msg.append(err.as_str());
                self.error(msg, node_id);
                None
            },
        }
    }

    /// The integer that the node's text spells, or a diagnostic.
    fn span_to_i64(&mut self, node_id: NodeId) -> (r: Option<i64>)
        requires
            old(self).inv(),
            node_id.0 < old(self).source().ast_nodes@.len(),
        ensures
            final(self).inv(),
            final(self).source() == old(self).source(),
            final(self).files() == old(self).files(),
            keeps(old(self).errs(), final(self).errs()),
            r == literal_value(old(self).source(), node_id),
            final(self).state() == match literal_result(old(self).source(), node_id) {
                Ok(_) => old(self).state(),
                Err(m) => old(self).state().diag(node_id, m),
            },
    {
        let text = match self.span_to_string(node_id) {
            Some(t) => t,
            None => return None,
        };
        match parse_i64(text.as_str()) {
            Ok(val) => Some(val),
            Err(err) => {
                let mut msg = String::from_str("failed to convert a node to string: ");
                msg.append(err.as_str());
                self.error(msg, node_id);
                None
            },
        }
    }

    /// The operator that the node denotes, or a diagnostic.
    fn node_to_operator(&mut self, node_id: NodeId) -> (r: Option<Operator>)
        requires
            old(self).inv(),
            node_id.0 < old(self).source().ast_nodes@.len(),
        ensures
            final(self).inv(),
            final(self).source() == old(self).source(),
            final(self).files() == old(self).files(),
            keeps(old(self).errs(), final(self).errs()),
            r == operator_of(old(self).source(), node_id),
            final(self).state() == if r is Some {
                old(self).state()
            } else {
                old(self).state().diag(node_id, operator_error(old(self).source(), node_id))
            },
    {
        let compiler = self.compiler;
        let node = compiler.get_node(node_id);
        match node {
            AstNode::Plus => Some(Operator::Plus),
            AstNode::Multiply => Some(Operator::Multiply),
            _ => {
                let mut msg = String::from_str("unrecognized operator ");
                msg.append(node_kind_name(node));
                self.error(msg, node_id);
                None
            },
        }
    }

    /// Lowers the node at `node_id`, returning the register of its value.
    fn generate_node(&mut self, node_id: NodeId) -> (r: Option<RegId>)
        requires
            old(self).inv(),
            node_id.0 < old(self).source().ast_nodes@.len(),
        ensures
            final(self).inv(),
            final(self).source() == old(self).source(),
            final(self).files() == old(self).files(),
            keeps(old(self).errs(), final(self).errs()),
            (final(self).state(), r) == lower(old(self).source(), old(self).state(), node_id),
        decreases node_id.0,
    {
        let compiler = self.compiler;
        assert(crate::ast::node_ok(compiler, node_id.0 as int));
        let ast_node = compiler.get_node(node_id);
        match ast_node {
            AstNode::Int => {
                let next_reg = match self.next_register(node_id) {
                    Some(reg) => reg,
                    None => return None,
                };
                let val = match self.span_to_i64(node_id) {
                    Some(v) => v,
                    None => return None,
                };
                self.instructions.push(Instruction::LoadLiteral { dst: next_reg, lit: Literal::Int(val) });
                Some(next_reg)
            },
            AstNode::Block(block_id) => {
                let nodes = &compiler.blocks[block_id.0].nodes;
                let ghost s0 = self.state();
                let mut last: Option<RegId> = None;
                let mut i: usize = 0;
                while i < nodes.len()
                    invariant
                        self.inv(),
                        self.source() == *compiler,
                        old(self).source() == *compiler,
                        s0 == old(self).state(),
                        keeps(old(self).errs(), self.errs()),
                        compiler.ast_nodes@[node_id.0 as int] == AstNode::Block(*block_id),
                        self.files() == old(self).files(),
                        compiler.wf(),
                        node_id.0 < compiler.ast_nodes@.len(),
                        block_id.0 < compiler.blocks@.len(),
                        nodes == &compiler.blocks@[block_id.0 as int].nodes,
                        forall|j: int| 0 <= j < nodes@.len() ==> (#[trigger] nodes@[j]).0 < node_id.0,
                        i <= nodes@.len(),
                        (self.state(), last) == lower_prefix(*compiler, s0, node_id, nodes@, i as int),
                        i > 0 ==> last is Some,
                    decreases nodes@.len() - i,
                {
                    last = self.generate_node(nodes[i]);
                    if last.is_none() {
                        proof {
                            lemma_prefix_stops(*compiler, s0, node_id, nodes@, i as int + 1, nodes@.len() as int);
                        }
                        return None;
                    }
                    i = i + 1;
                }
                last
            },
            AstNode::BinaryOp { lhs, op, rhs } => {
                let l = match self.generate_node(*lhs) {
                    Some(l) => l,
                    None => return None,
                };
                let r = match self.generate_node(*rhs) {
                    Some(r) => r,
                    None => return None,
                };
                let o = match self.node_to_operator(*op) {
                    Some(o) => o,
                    None => return None,
                };
                self.instructions.push(Instruction::BinaryOp { lhs_dst: l, op: o, rhs: r });
                Some(l)
            },
            _ => {
                let mut msg = String::from_str("node ");
                msg.append(node_kind_name(ast_node));
                msg.append(" not supported yet");
                self.error(msg, node_id);
                None
            },
        }
    }
}

/// Once a block member fails, the members after it are not lowered.
pub proof fn lemma_prefix_stops(c: Compiler, s: GenState, parent: NodeId, nodes: Seq<NodeId>, j: int, k: int)
    requires
        1 <= j <= k <= nodes.len(),
        lower_prefix(c, s, parent, nodes, j).1 is None,
    ensures
        lower_prefix(c, s, parent, nodes, k) == lower_prefix(c, s, parent, nodes, j),
    decreases k - j,
{
    if k > j {
        lemma_prefix_stops(c, s, parent, nodes, j, k - 1);
    }
}



} // verus!
