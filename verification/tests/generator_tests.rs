use bytecode_vm::ast::{ASTNode, BinaryOperator};
use bytecode_vm::generator::BytecodeGenerator;
use bytecode_vm::instruction::{Instruction, Register};
use bytecode_vm::value::Value;

fn reg(index: usize) -> Register {
    Register { index }
}

#[test]
fn number_literal_emits_one_load() {
    let mut g = BytecodeGenerator::new();
    let r = g.generate(&ASTNode::NumberLiteral(7));
    assert_eq!(r, reg(0));
    assert_eq!(g.next_register, 1);
    assert_eq!(
        g.instructions,
        vec![Instruction::Load(reg(0), Value::Number(7))]
    );
}

#[test]
fn string_literal_emits_one_load() {
    let mut g = BytecodeGenerator::new();
    let r = g.generate(&ASTNode::StringLiteral("hey".to_string()));
    assert_eq!(r, reg(0));
    assert_eq!(
        g.instructions,
        vec![Instruction::Load(reg(0), Value::Text("hey".to_string()))]
    );
}

#[test]
fn binary_op_lowers_left_then_right() {
    let mut g = BytecodeGenerator::new();
    let r = g.generate(&ASTNode::BinaryOp(
        Box::new(ASTNode::NumberLiteral(1)),
        BinaryOperator::Add,
        Box::new(ASTNode::NumberLiteral(2)),
    ));
    assert_eq!(r, reg(2));
    assert_eq!(
        g.instructions,
        vec![
            Instruction::Load(reg(0), Value::Number(1)),
            Instruction::Load(reg(1), Value::Number(2)),
            Instruction::Add(reg(2), reg(0), reg(1)),
        ]
    );
}

#[test]
fn each_operator_picks_its_instruction() {
    for (op, expect) in [
        (BinaryOperator::Subtract, Instruction::Sub(reg(2), reg(0), reg(1))),
        (BinaryOperator::Multiply, Instruction::Mul(reg(2), reg(0), reg(1))),
        (BinaryOperator::Divide, Instruction::Div(reg(2), reg(0), reg(1))),
    ] {
        let mut g = BytecodeGenerator::new();
        g.generate(&ASTNode::BinaryOp(
            Box::new(ASTNode::NumberLiteral(8)),
            op,
            Box::new(ASTNode::NumberLiteral(4)),
        ));
        assert_eq!(g.instructions[2], expect);
    }
}

#[test]
fn variable_reference_emits_load_var() {
    let mut g = BytecodeGenerator::new();
    let r = g.generate(&ASTNode::Variable("x".to_string()));
    assert_eq!(r, reg(0));
    assert_eq!(
        g.instructions,
        vec![Instruction::LoadVar(reg(0), "x".to_string())]
    );
}

#[test]
fn assignment_emits_store_and_returns_value_register() {
    let mut g = BytecodeGenerator::new();
    let r = g.generate(&ASTNode::Assignment(
        "x".to_string(),
        Box::new(ASTNode::NumberLiteral(5)),
    ));
    assert_eq!(r, reg(0));
    assert_eq!(
        g.instructions,
        vec![
            Instruction::Load(reg(0), Value::Number(5)),
            Instruction::Store("x".to_string(), reg(0)),
        ]
    );
}

#[test]
fn empty_block_allocates_an_unwritten_register() {
    let mut g = BytecodeGenerator::new();
    let r = g.generate(&ASTNode::Block(vec![]));
    assert_eq!(r, reg(0));
    assert_eq!(g.next_register, 1);
    assert!(g.instructions.is_empty());
}

#[test]
fn block_returns_last_statement_register() {
    let mut g = BytecodeGenerator::new();
    let r = g.generate(&ASTNode::Block(vec![
        ASTNode::NumberLiteral(1),
        ASTNode::NumberLiteral(2),
    ]));
    // Register 0 is the block's own pre-allocated slot.
    assert_eq!(r, reg(2));
    assert_eq!(g.next_register, 3);
}

#[test]
fn if_without_else_backpatches_past_then_branch() {
    let mut g = BytecodeGenerator::new();
    g.generate(&ASTNode::If(
        Box::new(ASTNode::NumberLiteral(1)),
        Box::new(ASTNode::NumberLiteral(2)),
        None,
    ));
    assert_eq!(
        g.instructions,
        vec![
            Instruction::Load(reg(0), Value::Number(1)),
            Instruction::JmpFalse(reg(0), 3),
            Instruction::Load(reg(1), Value::Number(2)),
        ]
    );
}

#[test]
fn if_with_else_backpatches_both_jumps() {
    let mut g = BytecodeGenerator::new();
    g.generate(&ASTNode::If(
        Box::new(ASTNode::NumberLiteral(1)),
        Box::new(ASTNode::NumberLiteral(2)),
        Some(Box::new(ASTNode::NumberLiteral(3))),
    ));
    assert_eq!(
        g.instructions,
        vec![
            Instruction::Load(reg(0), Value::Number(1)),
            // Falsy condition lands exactly on the else branch (index 4).
            Instruction::JmpFalse(reg(0), 4),
            Instruction::Load(reg(1), Value::Number(2)),
            // The unconditional jump lands one past its target: index 5,
            // right after the else branch.
            Instruction::Jmp(5),
            Instruction::Load(reg(2), Value::Number(3)),
        ]
    );
}

#[test]
fn while_backpatches_exit_and_jumps_back() {
    let mut g = BytecodeGenerator::new();
    g.generate(&ASTNode::While(
        Box::new(ASTNode::NumberLiteral(0)),
        Box::new(ASTNode::NumberLiteral(9)),
    ));
    assert_eq!(
        g.instructions,
        vec![
            Instruction::Load(reg(0), Value::Number(0)),
            Instruction::JmpFalse(reg(0), 4),
            Instruction::Load(reg(1), Value::Number(9)),
            Instruction::Jmp(0),
        ]
    );
}

#[test]
fn no_placeholder_target_survives_generation() {
    // The demo program exercises every backpatching path; every jump in the
    // output must aim inside the program (one past the end included), and
    // every conditional jump must aim past instruction 0.
    let mut g = BytecodeGenerator::new();
    g.generate(&demo_tree());
    let len = g.instructions.len();
    for instr in &g.instructions {
        match instr {
            Instruction::Jmp(t) => assert!(*t <= len),
            Instruction::JmpFalse(_, t) => assert!(*t >= 1 && *t <= len),
            _ => {}
        }
    }
}

#[test]
fn register_allocation_is_monotonic_and_fits() {
    let mut g = BytecodeGenerator::new();
    g.generate(&demo_tree());
    let nregs = g.next_register;
    for instr in &g.instructions {
        let below = |r: &Register| assert!(r.index < nregs);
        match instr {
            Instruction::Load(r, _) => below(r),
            Instruction::Store(_, r) => below(r),
            Instruction::LoadVar(r, _) => below(r),
            Instruction::Add(d, a, b)
            | Instruction::Sub(d, a, b)
            | Instruction::Mul(d, a, b)
            | Instruction::Div(d, a, b) => {
                below(d);
                below(a);
                below(b);
            }
            Instruction::JmpFalse(r, _) => below(r),
            Instruction::DbgPrintReg(r) => below(r),
            _ => {}
        }
    }
}

fn demo_tree() -> ASTNode {
    ASTNode::Block(vec![
        ASTNode::Assignment("x".to_string(), Box::new(ASTNode::NumberLiteral(0))),
        ASTNode::While(
            Box::new(ASTNode::BinaryOp(
                Box::new(ASTNode::NumberLiteral(5)),
                BinaryOperator::Subtract,
                Box::new(ASTNode::Variable("x".to_string())),
            )),
            Box::new(ASTNode::Assignment(
                "x".to_string(),
                Box::new(ASTNode::BinaryOp(
                    Box::new(ASTNode::Variable("x".to_string())),
                    BinaryOperator::Add,
                    Box::new(ASTNode::NumberLiteral(1)),
                )),
            )),
        ),
        ASTNode::If(
            Box::new(ASTNode::Variable("x".to_string())),
            Box::new(ASTNode::Assignment(
                "result".to_string(),
                Box::new(ASTNode::NumberLiteral(1)),
            )),
            Some(Box::new(ASTNode::Assignment(
                "result".to_string(),
                Box::new(ASTNode::NumberLiteral(0)),
            ))),
        ),
    ])
}
