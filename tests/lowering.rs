use nu_ir::ast::{AstNode, Block, BlockId, Compiler, NodeId, Span};
use nu_ir::errors::Severity;
use nu_ir::generator::IrGenerator;
use nu_ir::ir::{Instruction, Literal, Operator, RegId};

fn parse(source: &str, nodes: Vec<(AstNode, usize, usize)>, blocks: Vec<Vec<usize>>) -> Compiler {
    let mut ast_nodes = Vec::new();
    let mut spans = Vec::new();
    for (node, start, end) in nodes {
        ast_nodes.push(node);
        spans.push(Span { start, end });
    }
    Compiler {
        source: source.as_bytes().to_vec(),
        ast_nodes,
        spans,
        blocks: blocks
            .into_iter()
            .map(|b| Block { nodes: b.into_iter().map(NodeId).collect() })
            .collect(),
    }
}

fn run(c: &Compiler) -> (Vec<Instruction>, u32, Vec<(NodeId, Severity)>) {
    assert!(c.is_well_formed());
    let mut g = IrGenerator::new(c);
    g.generate();
    let errs = g.errors().iter().map(|e| (e.node_id, e.severity)).collect();
    let b = g.block();
    (b.instructions, b.register_count, errs)
}

fn load(r: u32, v: i64) -> Instruction {
    Instruction::LoadLiteral { dst: RegId(r), lit: Literal::Int(v) }
}

fn binop(sep: &str, op: AstNode) -> Compiler {
    let src = format!("1{}2", sep);
    parse(
        &src,
        vec![
            (AstNode::Int, 0, 1),
            (op, 1, 1 + sep.len()),
            (AstNode::Int, 1 + sep.len(), 2 + sep.len()),
            (AstNode::BinaryOp { lhs: NodeId(0), op: NodeId(1), rhs: NodeId(2) }, 0, 2 + sep.len()),
        ],
        vec![],
    )
}

#[test]
fn single_integer_literal() {
    let c = parse("42", vec![(AstNode::Int, 0, 2)], vec![]);
    let (instrs, regs, errs) = run(&c);
    assert_eq!(instrs, vec![load(0, 42), Instruction::Return { src: RegId(0) }]);
    assert_eq!(regs, 1);
    assert!(errs.is_empty());
}

#[test]
fn addition_of_two_literals() {
    let c = binop(" + ", AstNode::Plus);
    let (instrs, regs, errs) = run(&c);
    assert_eq!(
        instrs,
        vec![
            load(0, 1),
            load(1, 2),
            Instruction::BinaryOp { lhs_dst: RegId(0), op: Operator::Plus, rhs: RegId(1) },
            Instruction::Return { src: RegId(0) },
        ]
    );
    assert_eq!(regs, 2);
    assert!(errs.is_empty());
}

#[test]
fn multiplication_of_two_literals() {
    let c = binop(" * ", AstNode::Multiply);
    let (instrs, _, errs) = run(&c);
    assert_eq!(
        instrs,
        vec![
            load(0, 1),
            load(1, 2),
            Instruction::BinaryOp { lhs_dst: RegId(0), op: Operator::Multiply, rhs: RegId(1) },
            Instruction::Return { src: RegId(0) },
        ]
    );
    assert!(errs.is_empty());
}

#[test]
fn signed_literals() {
    let c = parse("-5", vec![(AstNode::Int, 0, 2)], vec![]);
    assert_eq!(run(&c).0[0], load(0, -5));
    let c = parse("+7", vec![(AstNode::Int, 0, 2)], vec![]);
    assert_eq!(run(&c).0[0], load(0, 7));
    let c = parse("-9223372036854775808", vec![(AstNode::Int, 0, 20)], vec![]);
    assert_eq!(run(&c).0[0], load(0, i64::MIN));
}

#[test]
fn empty_parse_yields_nothing() {
    let c = parse("", vec![], vec![]);
    let (instrs, regs, errs) = run(&c);
    assert!(instrs.is_empty());
    assert_eq!(regs, 0);
    assert!(errs.is_empty());
}

#[test]
fn block_value_is_last_member() {
    let c = parse(
        "1; 2; 3",
        vec![
            (AstNode::Int, 0, 1),
            (AstNode::Int, 3, 4),
            (AstNode::Int, 6, 7),
            (AstNode::Block(BlockId(0)), 0, 7),
        ],
        vec![vec![0, 1, 2]],
    );
    let (instrs, regs, errs) = run(&c);
    assert_eq!(
        instrs,
        vec![load(0, 1), load(1, 2), load(2, 3), Instruction::Return { src: RegId(2) }]
    );
    assert_eq!(regs, 3);
    assert!(errs.is_empty());
}

#[test]
fn empty_block_has_no_value() {
    let c = parse("", vec![(AstNode::Block(BlockId(0)), 0, 0)], vec![vec![]]);
    let (instrs, regs, errs) = run(&c);
    assert!(instrs.is_empty());
    assert_eq!(regs, 0);
    assert!(errs.is_empty());
}

#[test]
fn registers_strictly_increase() {
    // (1 + 2) * 3, with the sum nested on the left.
    let c = parse(
        "1+2*3",
        vec![
            (AstNode::Int, 0, 1),
            (AstNode::Plus, 1, 2),
            (AstNode::Int, 2, 3),
            (AstNode::BinaryOp { lhs: NodeId(0), op: NodeId(1), rhs: NodeId(2) }, 0, 3),
            (AstNode::Multiply, 3, 4),
            (AstNode::Int, 4, 5),
            (AstNode::BinaryOp { lhs: NodeId(3), op: NodeId(4), rhs: NodeId(5) }, 0, 5),
        ],
        vec![],
    );
    let (instrs, regs, errs) = run(&c);
    assert!(errs.is_empty());
    assert_eq!(regs, 3);
    let loads: Vec<u32> = instrs
        .iter()
        .filter_map(|i| match i {
            Instruction::LoadLiteral { dst, .. } => Some(dst.0),
            _ => None,
        })
        .collect();
    assert_eq!(loads, vec![0, 1, 2]);
    assert_eq!(instrs[5], Instruction::Return { src: RegId(0) });
}

#[test]
fn unparseable_literal_is_one_diagnostic() {
    let c = parse("abc", vec![(AstNode::Int, 0, 3)], vec![]);
    let (instrs, _, errs) = run(&c);
    assert!(instrs.is_empty());
    assert_eq!(errs, vec![(NodeId(0), Severity::Error)]);
}

#[test]
fn out_of_range_literal_is_one_diagnostic() {
    let c = parse("99999999999999999999", vec![(AstNode::Int, 0, 20)], vec![]);
    let (instrs, _, errs) = run(&c);
    assert!(instrs.is_empty());
    assert_eq!(errs, vec![(NodeId(0), Severity::Error)]);
}

#[test]
fn invalid_utf8_literal_is_one_diagnostic() {
    let c = Compiler {
        source: vec![0xff, 0xfe],
        ast_nodes: vec![AstNode::Int],
        spans: vec![Span { start: 0, end: 2 }],
        blocks: vec![],
    };
    let (instrs, _, errs) = run(&c);
    assert!(instrs.is_empty());
    assert_eq!(errs, vec![(NodeId(0), Severity::Error)]);
}

#[test]
fn failed_literal_still_uses_its_register() {
    let c = parse(
        "1+x",
        vec![
            (AstNode::Int, 0, 1),
            (AstNode::Plus, 1, 2),
            (AstNode::Int, 2, 3),
            (AstNode::BinaryOp { lhs: NodeId(0), op: NodeId(1), rhs: NodeId(2) }, 0, 3),
        ],
        vec![],
    );
    let (instrs, regs, errs) = run(&c);
    assert_eq!(instrs, vec![load(0, 1)]);
    assert_eq!(regs, 2);
    assert_eq!(errs, vec![(NodeId(2), Severity::Error)]);
}

#[test]
fn unsupported_node_fails_its_parent() {
    let c = parse(
        "1 + \"s\"",
        vec![
            (AstNode::Int, 0, 1),
            (AstNode::Plus, 2, 3),
            (AstNode::String, 4, 7),
            (AstNode::BinaryOp { lhs: NodeId(0), op: NodeId(1), rhs: NodeId(2) }, 0, 7),
        ],
        vec![],
    );
    let (instrs, _, errs) = run(&c);
    assert_eq!(instrs, vec![load(0, 1)]);
    assert_eq!(errs, vec![(NodeId(2), Severity::Error)]);
}

#[test]
fn unknown_operator_is_one_diagnostic() {
    let c = binop(" - ", AstNode::Minus);
    let (instrs, _, errs) = run(&c);
    assert_eq!(instrs, vec![load(0, 1), load(1, 2)]);
    assert_eq!(errs, vec![(NodeId(1), Severity::Error)]);
}

#[test]
fn earlier_diagnostics_are_kept() {
    // The left operand fails inside its own operation; the outer operation
    // then fails too, with the one diagnostic kept.
    let c = parse(
        "a+1*2",
        vec![
            (AstNode::Name, 0, 1),
            (AstNode::Plus, 1, 2),
            (AstNode::Int, 2, 3),
            (AstNode::BinaryOp { lhs: NodeId(0), op: NodeId(1), rhs: NodeId(2) }, 0, 3),
            (AstNode::Multiply, 3, 4),
            (AstNode::Int, 4, 5),
            (AstNode::BinaryOp { lhs: NodeId(3), op: NodeId(4), rhs: NodeId(5) }, 0, 5),
        ],
        vec![],
    );
    let (instrs, regs, errs) = run(&c);
    assert!(instrs.is_empty());
    assert_eq!(regs, 0);
    assert_eq!(errs, vec![(NodeId(0), Severity::Error)]);
}

#[test]
fn block_stops_at_first_failure() {
    let c = parse(
        "1; x; 3",
        vec![
            (AstNode::Int, 0, 1),
            (AstNode::Variable, 3, 4),
            (AstNode::Int, 6, 7),
            (AstNode::Block(BlockId(0)), 0, 7),
        ],
        vec![vec![0, 1, 2]],
    );
    let (instrs, regs, errs) = run(&c);
    assert_eq!(instrs, vec![load(0, 1)]);
    assert_eq!(regs, 1);
    assert_eq!(errs, vec![(NodeId(1), Severity::Error)]);
}

#[test]
fn generation_is_deterministic() {
    let c = binop(" * ", AstNode::Multiply);
    let a = run(&c);
    let b = run(&c);
    assert_eq!(a, b);
}

#[test]
fn diagnostic_messages_name_the_problem() {
    let c = parse("abc", vec![(AstNode::Int, 0, 3)], vec![]);
    let mut g = IrGenerator::new(&c);
    g.generate();
    assert_eq!(
        g.errors()[0].message,
        "failed to convert a node to string: invalid digit found in string"
    );
    let c = parse("\"s\"", vec![(AstNode::String, 0, 3)], vec![]);
    let mut g = IrGenerator::new(&c);
    g.generate();
    assert_eq!(g.errors()[0].message, "node String not supported yet");
}

#[test]
fn block_has_placeholder_spans() {
    let c = parse("42", vec![(AstNode::Int, 0, 2)], vec![]);
    let mut g = IrGenerator::new(&c);
    g.generate();
    let b = g.block();
    assert_eq!(b.spans, vec![Span { start: 0, end: 0 }; 2]);
    assert_eq!(b.ast, vec![None, None]);
    assert!(b.data.is_empty());
    assert!(b.comments.is_empty());
    assert_eq!(b.file_count, 0);
}

#[test]
fn display_state_renders_everything() {
    let c = parse("42", vec![(AstNode::Int, 0, 2)], vec![]);
    let mut g = IrGenerator::new(&c);
    g.generate();
    assert_eq!(
        g.display_state(),
        "==== IR ====\nregister_count: 1\nfile_count: 0\n\
         0: LoadLiteral { dst: RegId(0), lit: Int(42) }\n\
         1: Return { src: RegId(0) }\n"
    );
    let c = parse("x", vec![(AstNode::Name, 0, 1)], vec![]);
    let mut g = IrGenerator::new(&c);
    g.generate();
    assert_eq!(
        g.display_state(),
        "==== IR ====\nregister_count: 0\nfile_count: 0\n\
         ==== IR ERRORS ====\nError (NodeId 0): node Name not supported yet\n"
    );
}

#[test]
fn well_formedness_is_checked() {
    let ok = binop(" + ", AstNode::Plus);
    assert!(ok.is_well_formed());
    let forward = parse(
        "1",
        vec![
            (AstNode::BinaryOp { lhs: NodeId(1), op: NodeId(1), rhs: NodeId(1) }, 0, 1),
            (AstNode::Int, 0, 1),
        ],
        vec![],
    );
    assert!(!forward.is_well_formed());
    let bad_span = parse("1", vec![(AstNode::Int, 0, 5)], vec![]);
    assert!(!bad_span.is_well_formed());
    let bad_block = parse("", vec![(AstNode::Block(BlockId(3)), 0, 0)], vec![]);
    assert!(!bad_block.is_well_formed());
}

#[test]
fn unknown_operator_message_names_the_node() {
    let c = binop(" - ", AstNode::Minus);
    let mut g = IrGenerator::new(&c);
    g.generate();
    assert_eq!(g.errors()[0].message, "unrecognized operator Minus");
}

#[test]
fn display_state_after_bad_literal() {
    let c = parse("abc", vec![(AstNode::Int, 0, 3)], vec![]);
    let mut g = IrGenerator::new(&c);
    g.generate();
    assert_eq!(
        g.display_state(),
        "==== IR ====\nregister_count: 1\nfile_count: 0\n\
         ==== IR ERRORS ====\n\
         Error (NodeId 0): failed to convert a node to string: invalid digit found in string\n"
    );
}

#[test]
fn display_state_renders_binary_op() {
    let c = parse("-3*4", vec![
        (AstNode::Int, 0, 2),
        (AstNode::Multiply, 2, 3),
        (AstNode::Int, 3, 4),
        (AstNode::BinaryOp { lhs: NodeId(0), op: NodeId(1), rhs: NodeId(2) }, 0, 4),
    ], vec![]);
    let mut g = IrGenerator::new(&c);
    g.generate();
    assert_eq!(
        g.display_state(),
        "==== IR ====\nregister_count: 2\nfile_count: 0\n\
         0: LoadLiteral { dst: RegId(0), lit: Int(-3) }\n\
         1: LoadLiteral { dst: RegId(1), lit: Int(4) }\n\
         2: BinaryOp { lhs_dst: RegId(0), op: Math(Multiply), rhs: RegId(1) }\n\
         3: Return { src: RegId(0) }\n"
    );
}

#[test]
fn let_node_is_well_formed_and_unsupported() {
    let c = parse(
        "let",
        vec![(AstNode::Let { variable_name: NodeId(4), initializer: NodeId(7) }, 0, 3)],
        vec![],
    );
    let (instrs, _, errs) = run(&c);
    assert!(instrs.is_empty());
    assert_eq!(errs, vec![(NodeId(0), Severity::Error)]);
    let mut g = IrGenerator::new(&c);
    g.generate();
    assert_eq!(g.errors()[0].message, "node Let not supported yet");
}
