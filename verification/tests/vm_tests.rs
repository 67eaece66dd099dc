use bytecode_vm::ast::{ASTNode, BinaryOperator};
use bytecode_vm::generator::BytecodeGenerator;
use bytecode_vm::instruction::{Instruction, Register};
use bytecode_vm::process::{Process, RunOutcome};
use bytecode_vm::value::Value;
use bytecode_vm::vm::{ByteCodeVM, VMError};

fn reg(index: usize) -> Register {
    Register { index }
}

fn compile(node: &ASTNode) -> (Vec<Instruction>, usize) {
    let mut g = BytecodeGenerator::new();
    g.generate(node);
    (g.instructions, g.next_register)
}

fn var(p: &Process, name: &str) -> Option<Value> {
    p.variables.get(&name.to_string()).cloned()
}

const FUEL: u64 = 1_000_000;

#[test]
fn while_loop_counts_to_five() {
    // x := 0; while (5 - x) { x := x + 1 }
    let tree = ASTNode::Block(vec![
        ASTNode::Assignment("x".to_string(), Box::new(ASTNode::NumberLiteral(0))),
        ASTNode::While(
            Box::new(ASTNode::BinaryOp(
                Box::new(ASTNode::NumberLiteral(5)),
                BinaryOperator::Subtract,
                Box::new(ASTNode::Variable("x".to_string())),
            )),
            Box::new(ASTNode::Block(vec![ASTNode::Assignment(
                "x".to_string(),
                Box::new(ASTNode::BinaryOp(
                    Box::new(ASTNode::Variable("x".to_string())),
                    BinaryOperator::Add,
                    Box::new(ASTNode::NumberLiteral(1)),
                )),
            )])),
        ),
    ]);
    let (program, nregs) = compile(&tree);
    let mut p = Process::new(0);
    p.load_program(program, nregs);
    assert_eq!(p.run_program(FUEL), RunOutcome::Completed);
    assert_eq!(var(&p, "x"), Some(Value::Number(5)));
}

#[test]
fn if_with_bound_variable_takes_else_branch() {
    // First program binds x to 5; the second, loaded into the same process,
    // compiles `if (x - 5) { result := 1 } else { result := 0 }`. The
    // variable store survives the reload, so x - 5 is 0 (falsy): result 0.
    let (bind, bind_regs) = compile(&ASTNode::Assignment(
        "x".to_string(),
        Box::new(ASTNode::NumberLiteral(5)),
    ));
    let cond = ASTNode::If(
        Box::new(ASTNode::BinaryOp(
            Box::new(ASTNode::Variable("x".to_string())),
            BinaryOperator::Subtract,
            Box::new(ASTNode::NumberLiteral(5)),
        )),
        Box::new(ASTNode::Assignment(
            "result".to_string(),
            Box::new(ASTNode::NumberLiteral(1)),
        )),
        Some(Box::new(ASTNode::Assignment(
            "result".to_string(),
            Box::new(ASTNode::NumberLiteral(0)),
        ))),
    );
    let (program, nregs) = compile(&cond);
    let mut p = Process::new(0);
    p.load_program(bind, bind_regs);
    assert_eq!(p.run_program(FUEL), RunOutcome::Completed);
    p.load_program(program, nregs);
    assert_eq!(p.run_program(FUEL), RunOutcome::Completed);
    assert_eq!(var(&p, "result"), Some(Value::Number(0)));
    assert_eq!(var(&p, "x"), Some(Value::Number(5)));
}

#[test]
fn if_with_nonzero_condition_takes_then_branch() {
    let tree = ASTNode::Block(vec![
        ASTNode::Assignment("x".to_string(), Box::new(ASTNode::NumberLiteral(7))),
        ASTNode::If(
            Box::new(ASTNode::BinaryOp(
                Box::new(ASTNode::Variable("x".to_string())),
                BinaryOperator::Subtract,
                Box::new(ASTNode::NumberLiteral(5)),
            )),
            Box::new(ASTNode::Assignment(
                "result".to_string(),
                Box::new(ASTNode::NumberLiteral(1)),
            )),
            Some(Box::new(ASTNode::Assignment(
                "result".to_string(),
                Box::new(ASTNode::NumberLiteral(0)),
            ))),
        ),
    ]);
    let (program, nregs) = compile(&tree);
    let mut p = Process::new(0);
    p.load_program(program, nregs);
    assert_eq!(p.run_program(FUEL), RunOutcome::Completed);
    assert_eq!(var(&p, "result"), Some(Value::Number(1)));
}

#[test]
fn text_number_coercion_through_add() {
    // hello := "hi "; world := 3; s := hello + world
    let tree = ASTNode::Block(vec![
        ASTNode::Assignment(
            "hello".to_string(),
            Box::new(ASTNode::StringLiteral("hi ".to_string())),
        ),
        ASTNode::Assignment("world".to_string(), Box::new(ASTNode::NumberLiteral(3))),
        ASTNode::Assignment(
            "s".to_string(),
            Box::new(ASTNode::BinaryOp(
                Box::new(ASTNode::Variable("hello".to_string())),
                BinaryOperator::Add,
                Box::new(ASTNode::Variable("world".to_string())),
            )),
        ),
    ]);
    let (program, nregs) = compile(&tree);
    let mut p = Process::new(0);
    p.load_program(program, nregs);
    assert_eq!(p.run_program(FUEL), RunOutcome::Completed);
    assert_eq!(var(&p, "s"), Some(Value::Text("hi 3".to_string())));
}

#[test]
fn variable_store_accumulates_across_reloads() {
    let (init, init_regs) = compile(&ASTNode::Assignment(
        "x".to_string(),
        Box::new(ASTNode::NumberLiteral(0)),
    ));
    let (bump, bump_regs) = compile(&ASTNode::Assignment(
        "x".to_string(),
        Box::new(ASTNode::BinaryOp(
            Box::new(ASTNode::Variable("x".to_string())),
            BinaryOperator::Add,
            Box::new(ASTNode::NumberLiteral(1)),
        )),
    ));
    let mut p = Process::new(0);
    p.load_program(init, init_regs);
    assert_eq!(p.run_program(FUEL), RunOutcome::Completed);
    assert_eq!(var(&p, "x"), Some(Value::Number(0)));
    p.load_program(bump.clone(), bump_regs);
    assert_eq!(p.run_program(FUEL), RunOutcome::Completed);
    assert_eq!(var(&p, "x"), Some(Value::Number(1)));
    p.load_program(bump, bump_regs);
    assert_eq!(p.run_program(FUEL), RunOutcome::Completed);
    assert_eq!(var(&p, "x"), Some(Value::Number(2)));
}

#[test]
fn division_by_zero_faults_and_mutates_nothing() {
    let program = vec![
        Instruction::Load(reg(0), Value::Number(1)),
        Instruction::Load(reg(1), Value::Number(0)),
        Instruction::Div(reg(2), reg(0), reg(1)),
    ];
    let mut vm = ByteCodeVM::new();
    vm.spawn();
    let p = vm.spawn();
    assert_eq!(p.pid(), 1);
    p.load_program(program, 3);
    assert_eq!(
        p.run_program(FUEL),
        RunOutcome::Faulted(VMError::DivisionByZero(1))
    );
    // The destination register was never written.
    assert_eq!(p.register_value(2), Some(&Value::Empty));
}

#[test]
fn division_by_zero_from_a_tree() {
    let (program, nregs) = compile(&ASTNode::BinaryOp(
        Box::new(ASTNode::NumberLiteral(1)),
        BinaryOperator::Divide,
        Box::new(ASTNode::NumberLiteral(0)),
    ));
    let mut p = Process::new(0);
    p.load_program(program, nregs);
    assert_eq!(
        p.run_program(FUEL),
        RunOutcome::Faulted(VMError::DivisionByZero(0))
    );
}

#[test]
fn division_produces_quotient() {
    let (program, nregs) = compile(&ASTNode::Assignment(
        "q".to_string(),
        Box::new(ASTNode::BinaryOp(
            Box::new(ASTNode::NumberLiteral(17)),
            BinaryOperator::Divide,
            Box::new(ASTNode::NumberLiteral(5)),
        )),
    ));
    let mut p = Process::new(0);
    p.load_program(program, nregs);
    assert_eq!(p.run_program(FUEL), RunOutcome::Completed);
    assert_eq!(var(&p, "q"), Some(Value::Number(3)));
}

#[test]
fn undefined_variable_faults_with_its_name() {
    let (program, nregs) = compile(&ASTNode::Variable("ghostly".to_string()));
    let mut p = Process::new(0);
    p.load_program(program, nregs);
    assert_eq!(
        p.run_program(FUEL),
        RunOutcome::Faulted(VMError::UndefinedVariable(0, "ghostly".to_string()))
    );
}

#[test]
fn type_mismatch_on_subtracting_text() {
    let tree = ASTNode::BinaryOp(
        Box::new(ASTNode::StringLiteral("a".to_string())),
        BinaryOperator::Subtract,
        Box::new(ASTNode::NumberLiteral(1)),
    );
    let (program, nregs) = compile(&tree);
    let mut p = Process::new(0);
    p.load_program(program, nregs);
    assert_eq!(
        p.run_program(FUEL),
        RunOutcome::Faulted(VMError::TypeMisMatch(0))
    );
}

#[test]
fn halt_stops_execution() {
    let program = vec![
        Instruction::Halt,
        Instruction::Load(reg(0), Value::Number(9)),
    ];
    let mut p = Process::new(0);
    p.load_program(program, 1);
    assert_eq!(p.run_program(FUEL), RunOutcome::Completed);
    assert!(p.halted());
    assert_eq!(p.register_value(0), Some(&Value::Empty));
}

#[test]
fn reload_clears_the_halt_flag() {
    let mut p = Process::new(0);
    p.load_program(vec![Instruction::Halt], 0);
    assert_eq!(p.run_program(FUEL), RunOutcome::Completed);
    assert!(p.halted());
    p.load_program(
        vec![
            Instruction::Load(reg(0), Value::Number(4)),
            Instruction::Store("x".to_string(), reg(0)),
        ],
        1,
    );
    assert_eq!(p.run_program(FUEL), RunOutcome::Completed);
    assert_eq!(var(&p, "x"), Some(Value::Number(4)));
}

#[test]
fn plain_jump_lands_one_past_its_target() {
    // Jmp(1) sets the pointer to 1 and the loop's advance lands on 2: the
    // load into r0 is skipped, the load into r1 runs.
    let program = vec![
        Instruction::Jmp(1),
        Instruction::Load(reg(0), Value::Number(1)),
        Instruction::Load(reg(1), Value::Number(2)),
    ];
    let mut p = Process::new(0);
    p.load_program(program, 2);
    assert_eq!(p.run_program(FUEL), RunOutcome::Completed);
    assert_eq!(p.register_value(0), Some(&Value::Empty));
    assert_eq!(p.register_value(1), Some(&Value::Number(2)));
}

#[test]
fn false_jump_lands_exactly_on_its_target() {
    let program = vec![
        Instruction::Load(reg(0), Value::Number(0)),
        Instruction::JmpFalse(reg(0), 3),
        Instruction::Load(reg(1), Value::Number(1)),
        Instruction::Load(reg(2), Value::Number(2)),
    ];
    let mut p = Process::new(0);
    p.load_program(program, 3);
    assert_eq!(p.run_program(FUEL), RunOutcome::Completed);
    assert_eq!(p.register_value(1), Some(&Value::Empty));
    assert_eq!(p.register_value(2), Some(&Value::Number(2)));
}

#[test]
fn truthy_condition_falls_through() {
    let program = vec![
        Instruction::Load(reg(0), Value::Number(1)),
        Instruction::JmpFalse(reg(0), 3),
        Instruction::Load(reg(1), Value::Number(1)),
    ];
    let mut p = Process::new(0);
    p.load_program(program, 2);
    assert_eq!(p.run_program(FUEL), RunOutcome::Completed);
    assert_eq!(p.register_value(1), Some(&Value::Number(1)));
}

#[test]
fn runaway_loop_runs_out_of_fuel() {
    // while (1) { x := 1 }
    let tree = ASTNode::While(
        Box::new(ASTNode::NumberLiteral(1)),
        Box::new(ASTNode::Assignment(
            "x".to_string(),
            Box::new(ASTNode::NumberLiteral(1)),
        )),
    );
    let (program, nregs) = compile(&tree);
    let mut p = Process::new(0);
    p.load_program(program, nregs);
    assert_eq!(p.run_program(10_000), RunOutcome::OutOfFuel);
}

#[test]
fn debug_print_instructions_log_lines() {
    let program = vec![
        Instruction::Load(reg(0), Value::Number(7)),
        Instruction::Store("x".to_string(), reg(0)),
        Instruction::DbgPrintReg(reg(0)),
        Instruction::DbgPrintVar("x".to_string()),
    ];
    let mut p = Process::new(3);
    p.load_program(program, 1);
    assert_eq!(p.run_program(FUEL), RunOutcome::Completed);
    assert_eq!(
        p.output_lines(),
        &vec![
            "[Process #3] r0: 7".to_string(),
            "[Process #3] x: 7".to_string(),
        ]
    );
}

#[test]
fn debug_print_of_absent_variable_faults() {
    let program = vec![Instruction::DbgPrintVar("nope".to_string())];
    let mut p = Process::new(0);
    p.load_program(program, 0);
    assert_eq!(
        p.run_program(FUEL),
        RunOutcome::Faulted(VMError::UndefinedVariable(0, "nope".to_string()))
    );
}

#[test]
fn spawn_assigns_dense_sequential_ids() {
    let mut vm = ByteCodeVM::new();
    assert_eq!(vm.spawn().pid(), 0);
    assert_eq!(vm.spawn().pid(), 1);
    assert_eq!(vm.spawn().pid(), 2);
    assert_eq!(vm.process_count(), 3);
    assert_eq!(vm.process_at(1).pid(), 1);
}

#[test]
fn error_messages_name_the_process() {
    assert_eq!(
        VMError::DivisionByZero(0).message(),
        "[Process #0] division by zero"
    );
    assert_eq!(
        VMError::TypeMisMatch(12).message(),
        "[Process #12] type mismatch"
    );
    assert_eq!(VMError::BadAddress(1).message(), "[Process #1] bad address");
    assert_eq!(
        VMError::UndefinedVariable(2, "y".to_string()).message(),
        "[Process #2] undefined variable `y`"
    );
    assert_eq!(VMError::UndefinedVariable(2, "y".to_string()).pid(), 2);
}

#[test]
fn subtraction_and_multiplication_compute() {
    let tree = ASTNode::Block(vec![
        ASTNode::Assignment(
            "d".to_string(),
            Box::new(ASTNode::BinaryOp(
                Box::new(ASTNode::NumberLiteral(3)),
                BinaryOperator::Subtract,
                Box::new(ASTNode::NumberLiteral(10)),
            )),
        ),
        ASTNode::Assignment(
            "m".to_string(),
            Box::new(ASTNode::BinaryOp(
                Box::new(ASTNode::NumberLiteral(6)),
                BinaryOperator::Multiply,
                Box::new(ASTNode::NumberLiteral(7)),
            )),
        ),
    ]);
    let (program, nregs) = compile(&tree);
    let mut p = Process::new(0);
    p.load_program(program, nregs);
    assert_eq!(p.run_program(FUEL), RunOutcome::Completed);
    assert_eq!(var(&p, "d"), Some(Value::Number(-7)));
    assert_eq!(var(&p, "m"), Some(Value::Number(42)));
}

#[test]
fn empty_program_completes_at_once() {
    let mut p = Process::new(0);
    p.load_program(vec![], 0);
    assert_eq!(p.run_program(0), RunOutcome::Completed);
}

#[test]
fn error_aborts_but_earlier_effects_persist() {
    let program = vec![
        Instruction::Load(reg(0), Value::Number(11)),
        Instruction::Store("kept".to_string(), reg(0)),
        Instruction::LoadVar(reg(1), "missing".to_string()),
        Instruction::Store("after".to_string(), reg(1)),
    ];
    let mut p = Process::new(0);
    p.load_program(program, 2);
    assert_eq!(
        p.run_program(FUEL),
        RunOutcome::Faulted(VMError::UndefinedVariable(0, "missing".to_string()))
    );
    assert_eq!(var(&p, "kept"), Some(Value::Number(11)));
    assert_eq!(var(&p, "after"), None);
}

#[test]
fn arithmetic_wraps_at_the_64_bit_boundary() {
    let program = vec![
        Instruction::Load(reg(0), Value::Number(i64::MIN)),
        Instruction::Load(reg(1), Value::Number(1)),
        Instruction::Sub(reg(2), reg(0), reg(1)),
        Instruction::Store("s".to_string(), reg(2)),
        Instruction::Load(reg(3), Value::Number(i64::MIN)),
        Instruction::Load(reg(4), Value::Number(-1)),
        Instruction::Div(reg(5), reg(3), reg(4)),
        Instruction::Store("d".to_string(), reg(5)),
    ];
    let mut p = Process::new(0);
    p.load_program(program, 6);
    assert_eq!(p.run_program(FUEL), RunOutcome::Completed);
    assert_eq!(var(&p, "s"), Some(Value::Number(i64::MAX)));
    assert_eq!(var(&p, "d"), Some(Value::Number(i64::MIN)));
}

#[test]
fn number_text_coercion_appends_in_either_order() {
    // n := 3; t := " items"; s := n + t — the number is rendered and
    // appended after the text even as the left operand.
    let tree = ASTNode::Block(vec![
        ASTNode::Assignment("n".to_string(), Box::new(ASTNode::NumberLiteral(3))),
        ASTNode::Assignment(
            "t".to_string(),
            Box::new(ASTNode::StringLiteral(" items".to_string())),
        ),
        ASTNode::Assignment(
            "s".to_string(),
            Box::new(ASTNode::BinaryOp(
                Box::new(ASTNode::Variable("n".to_string())),
                BinaryOperator::Add,
                Box::new(ASTNode::Variable("t".to_string())),
            )),
        ),
    ]);
    let (program, nregs) = compile(&tree);
    let mut p = Process::new(0);
    p.load_program(program, nregs);
    assert_eq!(p.run_program(FUEL), RunOutcome::Completed);
    assert_eq!(var(&p, "s"), Some(Value::Text(" items3".to_string())));
}
