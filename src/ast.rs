//! The parse result that lowering reads: a node table, a table of blocks and
//! the source text that each node spans.

use vstd::prelude::*;
use vstd::slice::slice_subrange;

verus! {

/// Handle of a node in the parse result's node table.
#[derive(Clone, Copy, Debug, PartialEq, Eq, Structural)]
pub struct NodeId(pub usize);

/// Handle of a block in the parse result's block table.
#[derive(Clone, Copy, Debug, PartialEq, Eq, Structural)]
pub struct BlockId(pub usize);

/// Byte range `start..end` of the source text.
#[derive(Clone, Copy, Debug, PartialEq, Eq, Structural)]
pub struct Span {
    pub start: usize,
    pub end: usize,
}

/// A node of the syntax tree.
#[derive(Clone, Copy, Debug, PartialEq, Eq, Structural)]
pub enum AstNode {
    Int,
    Float,
    String,
    Name,
    Variable,
    Plus,
    Minus,
    Multiply,
    Divide,
    Equal,
    LessThan,
    GreaterThan,
    Block(BlockId),
    BinaryOp { lhs: NodeId, op: NodeId, rhs: NodeId },
    Let { variable_name: NodeId, initializer: NodeId },
    Garbage,
}

/// An ordered sequence of nodes, evaluated one after another.
#[derive(Clone, Debug)]
pub struct Block {
    pub nodes: Vec<NodeId>,
}

/// A completed parse: nodes, blocks, the source and one span per node.
///
/// Children are always created before their parent, so every child of node
/// `i` has an id below `i`; the last node is the top-level program.
pub struct Compiler {
    pub source: Vec<u8>,
    pub ast_nodes: Vec<AstNode>,
    pub spans: Vec<Span>,
    pub blocks: Vec<Block>,
}

/// The span of node `i` lies within the source.
pub open spec fn span_ok(c: &Compiler, i: int) -> bool {
    c.spans@[i].start <= c.spans@[i].end && c.spans@[i].end <= c.source@.len()
}

/// Every node referenced by node `i` exists, and its operands come before it.
pub open spec fn node_ok(c: &Compiler, i: int) -> bool {
    match c.ast_nodes@[i] {
        AstNode::Block(b) => b.0 < c.blocks@.len() && forall|j: int|
            0 <= j < c.blocks@[b.0 as int].nodes@.len() ==> (
            #[trigger] c.blocks@[b.0 as int].nodes@[j]).0 < i,
        AstNode::BinaryOp { lhs, op, rhs } => lhs.0 < i && rhs.0 < i && op.0
            < c.ast_nodes@.len(),
        _ => true,
    }
}

impl Compiler {
    /// One span per node, each inside the source, and every reference
    /// pointing at an existing, earlier node or an existing block.
    pub open spec fn wf(&self) -> bool {
        &&& self.spans@.len() == self.ast_nodes@.len()
        &&& forall|i: int| 0 <= i < self.ast_nodes@.len() ==> #[trigger] span_ok(self, i)
        &&& forall|i: int| 0 <= i < self.ast_nodes@.len() ==> #[trigger] node_ok(self, i)
    }

    /// The source bytes that node `id` spans.
    pub open spec fn span_bytes(&self, id: NodeId) -> Seq<u8> {
        self.source@.subrange(self.spans@[id.0 as int].start as int, self.spans@[id.0 as int].end as int)
    }

    /// Decides whether the parse result is well formed.
    pub fn is_well_formed(&self) -> (r: bool)
        ensures
            r == self.wf(),
    {
        if self.spans.len() != self.ast_nodes.len() {
            return false;
        }
        let n = self.ast_nodes.len();
        let mut i: usize = 0;
        while i < n
            invariant
                n == self.ast_nodes@.len(),
                self.spans@.len() == n,
                i <= n,
                forall|k: int| 0 <= k < i ==> #[trigger] span_ok(self, k),
                forall|k: int| 0 <= k < i ==> #[trigger] node_ok(self, k),
            decreases n - i,
        {
            let span = self.spans[i];
            if span.start > span.end || span.end > self.source.len() {
                assert(!span_ok(self, i as int));
                return false;
            }
            if !self.node_refs_ok(i) {
                assert(!node_ok(self, i as int));
                return false;
            }
            i = i + 1;
        }
        true
    }

    fn node_refs_ok(&self, i: usize) -> (r: bool)
        requires
            i < self.ast_nodes@.len(),
        ensures
            r == node_ok(self, i as int),
    {
        match self.ast_nodes[i] {
            AstNode::Block(b) => {
                if b.0 >= self.blocks.len() {
                    return false;
                }
                let nodes = &self.blocks[b.0].nodes;
                let mut j: usize = 0;
                while j < nodes.len()
                    invariant
                        i < self.ast_nodes@.len(),
                        self.ast_nodes@[i as int] == AstNode::Block(b),
                        b.0 < self.blocks@.len(),
                        nodes == &self.blocks@[b.0 as int].nodes,
                        j <= nodes@.len(),
                        forall|k: int| 0 <= k < j ==> (#[trigger] nodes@[k]).0 < i,
                    decreases nodes@.len() - j,
                {
                    if nodes[j].0 >= i {
                        assert(self.blocks@[b.0 as int].nodes@[j as int].0 >= i);
                        return false;
                    }
                    j = j + 1;
                }
                true
            },
            AstNode::BinaryOp { lhs, op, rhs } => lhs.0 < i && rhs.0 < i && op.0
                < self.ast_nodes.len(),
            _ => true,
        }
    }

    /// The node that `id` names.
    pub fn get_node(&self, id: NodeId) -> (r: &AstNode)
        requires
            id.0 < self.ast_nodes@.len(),
        ensures
            *r == self.ast_nodes@[id.0 as int],
    {
        &self.ast_nodes[id.0]
    }

    /// The source bytes that node `id` spans.
    pub fn get_span_contents(&self, id: NodeId) -> (r: &[u8])
        requires
            self.wf(),
            id.0 < self.ast_nodes@.len(),
        ensures
            r@ == self.span_bytes(id),
    {
        assert(span_ok(self, id.0 as int));
        let span = self.spans[id.0];
        slice_subrange(self.source.as_slice(), span.start, span.end)
    }
}

} // verus!
