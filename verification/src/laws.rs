//! Laws of the generator and the execution engine: backpatched jumps are
//! resolved, registers stay inside the reported file, lowering is
//! left-to-right, and the boundary errors are exactly the stated ones.

use vstd::prelude::*;
use crate::ast::{ASTNode, BinaryOperator};
use crate::generator::{
    arith_instr, gen_node, gen_stmts, lemma_gen_next_ge, lemma_gen_stmts_next_ge, reg_at,
};
use crate::instruction::{Instruction, InstructionView};
use crate::process::{run_n, step, ProcessView, RunState};
use crate::value::{Value, ValueView};
use crate::vm::VMErrorView;

verus! {

/// Every register operand anywhere in `code` lies below `nregs`.
pub open spec fn code_regs_below(code: Seq<Instruction>, nregs: nat) -> bool {
    forall|j: int| 0 <= j < code.len() ==> (#[trigger] code[j])@.regs_below(nregs)
}

/// Every jump in `code` carries a concrete, resolved target: an
/// unconditional jump aims at `[lo, hi]`, a conditional jump at
/// `(lo, hi]` — never at a placeholder.
pub open spec fn code_targets_in(code: Seq<Instruction>, lo: nat, hi: nat) -> bool {
    forall|j: int|
        0 <= j < code.len() ==> match (#[trigger] code[j])@ {
            InstructionView::Jmp(t) => lo <= t <= hi,
            InstructionView::JmpFalse(_, t) => lo < t <= hi,
            _ => true,
        }
}

proof fn lemma_code_regs_mono(code: Seq<Instruction>, n1: nat, n2: nat)
    requires
        code_regs_below(code, n1),
        n1 <= n2,
    ensures
        code_regs_below(code, n2),
{
    assert forall|j: int| 0 <= j < code.len() implies (#[trigger] code[j])@.regs_below(n2) by {
        assert(code[j]@.regs_below(n1));
    }
}

proof fn lemma_code_regs_concat(a: Seq<Instruction>, b: Seq<Instruction>, n: nat)
    requires
        code_regs_below(a, n),
        code_regs_below(b, n),
    ensures
        code_regs_below(a + b, n),
{
    assert forall|j: int| 0 <= j < (a + b).len() implies (#[trigger] (a + b)[j])@.regs_below(n) by {
        if j < a.len() {
            assert((a + b)[j] == a[j]);
        } else {
            assert((a + b)[j] == b[j - a.len()]);
        }
    }
}

proof fn lemma_code_targets_widen(code: Seq<Instruction>, lo1: nat, hi1: nat, lo2: nat, hi2: nat)
    requires
        code_targets_in(code, lo1, hi1),
        lo2 <= lo1,
        hi1 <= hi2,
    ensures
        code_targets_in(code, lo2, hi2),
{
    assert forall|j: int| 0 <= j < code.len() implies match (#[trigger] code[j])@ {
        InstructionView::Jmp(t) => lo2 <= t <= hi2,
        InstructionView::JmpFalse(_, t) => lo2 < t <= hi2,
        _ => true,
    } by {
        assert(match code[j]@ {
            InstructionView::Jmp(t) => lo1 <= t <= hi1,
            InstructionView::JmpFalse(_, t) => lo1 < t <= hi1,
            _ => true,
        });
    }
}

proof fn lemma_code_targets_concat(a: Seq<Instruction>, b: Seq<Instruction>, lo: nat, hi: nat)
    requires
        code_targets_in(a, lo, hi),
        code_targets_in(b, lo, hi),
    ensures
        code_targets_in(a + b, lo, hi),
{
    assert forall|j: int| 0 <= j < (a + b).len() implies match (#[trigger] (a + b)[j])@ {
        InstructionView::Jmp(t) => lo <= t <= hi,
        InstructionView::JmpFalse(_, t) => lo < t <= hi,
        _ => true,
    } by {
        if j < a.len() {
            assert((a + b)[j] == a[j]);
        } else {
            assert((a + b)[j] == b[j - a.len()]);
        }
    }
}

/// Bounds of one lowering: no placeholder jump target survives generation
/// (every target is a concrete index inside the emitted span, one past its
/// end included), every register operand lies below the final allocation
/// count, and the result register was allocated.
pub proof fn lemma_gen_bounds(node: ASTNode, base: nat, next: nat)
    requires
        gen_node(node, base, next).next <= usize::MAX,
        base + gen_node(node, base, next).code.len() <= usize::MAX,
    ensures
        code_regs_below(gen_node(node, base, next).code, gen_node(node, base, next).next),
        code_targets_in(
            gen_node(node, base, next).code,
            base,
            base + gen_node(node, base, next).code.len(),
        ),
        next <= gen_node(node, base, next).reg < gen_node(node, base, next).next,
    decreases node, 0int,
{
    let g = gen_node(node, base, next);
    match node {
        ASTNode::NumberLiteral(_) => {},
        ASTNode::StringLiteral(_) => {},
        ASTNode::Variable(_) => {},
        ASTNode::BinaryOp(left, op, right) => {
            let gl = gen_node(*left, base, next);
            let gr = gen_node(*right, base + gl.code.len(), gl.next);
            lemma_gen_next_ge(*right, base + gl.code.len(), gl.next);
            lemma_gen_bounds(*left, base, next);
            lemma_gen_bounds(*right, base + gl.code.len(), gl.next);
            let tail = seq![arith_instr(op, reg_at(gr.next), reg_at(gl.reg), reg_at(gr.reg))];
            lemma_code_regs_mono(gl.code, gl.next, g.next);
            lemma_code_regs_mono(gr.code, gr.next, g.next);
            lemma_code_regs_concat(gl.code, gr.code, g.next);
            assert(code_regs_below(tail, g.next));
            lemma_code_regs_concat(gl.code + gr.code, tail, g.next);
            lemma_code_targets_widen(gl.code, base, base + gl.code.len(), base, base + g.code.len());
            lemma_code_targets_widen(
                gr.code,
                base + gl.code.len(),
                base + gl.code.len() + gr.code.len(),
                base,
                base + g.code.len(),
            );
            lemma_code_targets_concat(gl.code, gr.code, base, base + g.code.len());
            assert(code_targets_in(tail, base, base + g.code.len()));
            lemma_code_targets_concat(gl.code + gr.code, tail, base, base + g.code.len());
        },
        ASTNode::Assignment(name, value) => {
            let gv = gen_node(*value, base, next);
            lemma_gen_bounds(*value, base, next);
            let tail = seq![Instruction::Store(name, reg_at(gv.reg))];
            assert(code_regs_below(tail, g.next));
            lemma_code_regs_concat(gv.code, tail, g.next);
            assert(code_targets_in(tail, base, base + g.code.len()));
            lemma_code_targets_widen(gv.code, base, base + gv.code.len(), base, base + g.code.len());
            lemma_code_targets_concat(gv.code, tail, base, base + g.code.len());
        },
        ASTNode::Block(stmts) => {
            lemma_gen_stmts_bounds(stmts, 0, base, next + 1, next);
        },
        ASTNode::If(cond, then_branch, else_branch) => {
            let gc = gen_node(*cond, base, next);
            let test_at = base + gc.code.len();
            let gt = gen_node(*then_branch, test_at + 1, gc.next);
            let end_at = test_at + 1 + gt.code.len();
            lemma_gen_next_ge(*then_branch, test_at + 1, gc.next);
            match else_branch {
                Some(els) => {
                    let ge = gen_node(*els, end_at + 1, gt.next);
                    let after = end_at + 1 + ge.code.len();
                    lemma_gen_next_ge(*els, end_at + 1, gt.next);
                    lemma_gen_bounds(*cond, base, next);
                    lemma_gen_bounds(*then_branch, test_at + 1, gc.next);
                    lemma_gen_bounds(*els, end_at + 1, gt.next);
                    let test = seq![
                        Instruction::JmpFalse(reg_at(gc.reg), (end_at + 1) as usize),
                    ];
                    let skip = seq![Instruction::Jmp(after as usize)];
                    lemma_code_regs_mono(gc.code, gc.next, g.next);
                    lemma_code_regs_mono(gt.code, gt.next, g.next);
                    lemma_code_regs_mono(ge.code, ge.next, g.next);
                    assert(code_regs_below(test, g.next));
                    assert(code_regs_below(skip, g.next));
                    lemma_code_regs_concat(gc.code, test, g.next);
                    lemma_code_regs_concat(gc.code + test, gt.code, g.next);
                    lemma_code_regs_concat(gc.code + test + gt.code, skip, g.next);
                    lemma_code_regs_concat(gc.code + test + gt.code + skip, ge.code, g.next);
                    let hi = base + g.code.len();
                    assert(after == hi);
                    lemma_code_targets_widen(gc.code, base, base + gc.code.len(), base, hi);
                    assert(code_targets_in(test, base, hi));
                    lemma_code_targets_widen(gt.code, test_at + 1, end_at, base, hi);
                    assert(code_targets_in(skip, base, hi));
                    lemma_code_targets_widen(ge.code, end_at + 1, after, base, hi);
                    lemma_code_targets_concat(gc.code, test, base, hi);
                    lemma_code_targets_concat(gc.code + test, gt.code, base, hi);
                    lemma_code_targets_concat(gc.code + test + gt.code, skip, base, hi);
                    lemma_code_targets_concat(gc.code + test + gt.code + skip, ge.code, base, hi);
                },
                None => {
                    let test = seq![Instruction::JmpFalse(reg_at(gc.reg), end_at as usize)];
                    lemma_gen_bounds(*cond, base, next);
                    lemma_gen_bounds(*then_branch, test_at + 1, gc.next);
                    lemma_code_regs_mono(gc.code, gc.next, g.next);
                    lemma_code_regs_mono(gt.code, gt.next, g.next);
                    assert(code_regs_below(test, g.next));
                    lemma_code_regs_concat(gc.code, test, g.next);
                    lemma_code_regs_concat(gc.code + test, gt.code, g.next);
                    let hi = base + g.code.len();
                    assert(end_at == hi);
                    lemma_code_targets_widen(gc.code, base, base + gc.code.len(), base, hi);
                    assert(code_targets_in(test, base, hi));
                    lemma_code_targets_widen(gt.code, test_at + 1, end_at, base, hi);
                    lemma_code_targets_concat(gc.code, test, base, hi);
                    lemma_code_targets_concat(gc.code + test, gt.code, base, hi);
                },
            }
        },
        ASTNode::While(cond, body) => {
            let gc = gen_node(*cond, base, next);
            let test_at = base + gc.code.len();
            let gb = gen_node(*body, test_at + 1, gc.next);
            let loop_end = test_at + 1 + gb.code.len() + 1;
            lemma_gen_next_ge(*body, test_at + 1, gc.next);
            lemma_gen_bounds(*cond, base, next);
            lemma_gen_bounds(*body, test_at + 1, gc.next);
            let test = seq![Instruction::JmpFalse(reg_at(gc.reg), loop_end as usize)];
            let back = seq![Instruction::Jmp(base as usize)];
            lemma_code_regs_mono(gc.code, gc.next, g.next);
            lemma_code_regs_mono(gb.code, gb.next, g.next);
            assert(code_regs_below(test, g.next));
            assert(code_regs_below(back, g.next));
            lemma_code_regs_concat(gc.code, test, g.next);
            lemma_code_regs_concat(gc.code + test, gb.code, g.next);
            lemma_code_regs_concat(gc.code + test + gb.code, back, g.next);
            let hi = base + g.code.len();
            assert(loop_end == hi);
            lemma_code_targets_widen(gc.code, base, base + gc.code.len(), base, hi);
            assert(code_targets_in(test, base, hi));
            lemma_code_targets_widen(gb.code, test_at + 1, test_at + 1 + gb.code.len(), base, hi);
            assert(code_targets_in(back, base, hi));
            lemma_code_targets_concat(gc.code, test, base, hi);
            lemma_code_targets_concat(gc.code + test, gb.code, base, hi);
            lemma_code_targets_concat(gc.code + test + gb.code, back, base, hi);
        },
    }
}

/// As `lemma_gen_bounds`, for the statements of a block.
pub proof fn lemma_gen_stmts_bounds(stmts: Vec<ASTNode>, i: int, base: nat, next: nat, last: nat)
    requires
        gen_stmts(stmts, i, base, next, last).next <= usize::MAX,
        base + gen_stmts(stmts, i, base, next, last).code.len() <= usize::MAX,
        last < next,
    ensures
        code_regs_below(gen_stmts(stmts, i, base, next, last).code, gen_stmts(stmts, i, base, next, last).next),
        code_targets_in(
            gen_stmts(stmts, i, base, next, last).code,
            base,
            base + gen_stmts(stmts, i, base, next, last).code.len(),
        ),
        last <= gen_stmts(stmts, i, base, next, last).reg < gen_stmts(stmts, i, base, next, last).next,
    decreases stmts, stmts.len() - i,
{
    if 0 <= i < stmts.len() {
        let g = gen_node(stmts[i], base, next);
        let rest = gen_stmts(stmts, i + 1, base + g.code.len(), g.next, g.reg);
        lemma_gen_stmts_next_ge(stmts, i + 1, base + g.code.len(), g.next, g.reg);
        lemma_gen_bounds(stmts[i], base, next);
        lemma_gen_stmts_bounds(stmts, i + 1, base + g.code.len(), g.next, g.reg);
        lemma_code_regs_mono(g.code, g.next, rest.next);
        lemma_code_regs_concat(g.code, rest.code, rest.next);
        let hi = base + g.code.len() + rest.code.len();
        lemma_code_targets_widen(g.code, base, base + g.code.len(), base, hi);
        lemma_code_targets_widen(
            rest.code,
            base + g.code.len(),
            base + g.code.len() + rest.code.len(),
            base,
            hi,
        );
        lemma_code_targets_concat(g.code, rest.code, base, hi);
    }
}

/// Lowering a literal emits exactly one load instruction into a fresh
/// register and returns that register; a step on that load puts exactly the
/// literal's value in the register (see `lemma_load_step`).
pub proof fn lemma_literal_codegen(node: ASTNode, base: nat, next: nat)
    requires
        node is NumberLiteral || node is StringLiteral,
    ensures
        gen_node(node, base, next).code.len() == 1,
        gen_node(node, base, next).reg == next,
        gen_node(node, base, next).next == next + 1,
        gen_node(node, base, next).code[0] == (match node {
            ASTNode::NumberLiteral(v) => Instruction::Load(reg_at(next), Value::Number(v)),
            ASTNode::StringLiteral(s) => Instruction::Load(reg_at(next), Value::Text(s)),
            _ => arbitrary(),
        }),
{
}

/// A step on a load instruction overwrites exactly the named register with
/// exactly the loaded value, and nothing else changes but the pointer.
pub proof fn lemma_load_step(s: ProcessView, r: crate::instruction::Register, v: ValueView)
    requires
        !s.done(),
        s.program[s.ip as int] == InstructionView::Load(r, v),
    ensures
        step(s) == Ok::<ProcessView, VMErrorView>(
            ProcessView { registers: s.registers.update(r.index as int, v), ip: s.ip + 1, ..s },
        ),
{
}

/// Lowering a binary operation emits the whole code of the left subtree
/// strictly before the whole code of the right subtree, followed by the one
/// arithmetic instruction over their result registers.
pub proof fn lemma_binop_order(
    left: ASTNode,
    op: BinaryOperator,
    right: ASTNode,
    base: nat,
    next: nat,
)
    ensures
        ({
            let gl = gen_node(left, base, next);
            let gr = gen_node(right, base + gl.code.len(), gl.next);
            gen_node(ASTNode::BinaryOp(Box::new(left), op, Box::new(right)), base, next).code
                == gl.code + gr.code + seq![
                arith_instr(op, reg_at(gr.next), reg_at(gl.reg), reg_at(gr.reg)),
            ]
        }),
{
}

/// Dividing by a numeric zero always faults with `DivisionByZero` carrying
/// the executing process's id, and mutates nothing: the step never yields a
/// quotient value for a zero divisor.
pub proof fn lemma_div_by_zero_faults(s: ProcessView, d: crate::instruction::Register, a: crate::instruction::Register, b: crate::instruction::Register)
    requires
        !s.done(),
        s.program[s.ip as int] == InstructionView::Div(d, a, b),
        s.registers[a.index as int] is Number,
        s.registers[b.index as int] == ValueView::Number(0),
    ensures
        step(s) == Err::<ProcessView, VMErrorView>(VMErrorView::DivisionByZero(s.pid)),
{
}

/// Dividing by a nonzero numeric divisor succeeds: the step writes exactly
/// the truncated quotient into the destination register and nothing else
/// changes but the pointer.
pub proof fn lemma_div_steps(
    s: ProcessView,
    d: crate::instruction::Register,
    a: crate::instruction::Register,
    b: crate::instruction::Register,
    x: i64,
    y: i64,
)
    requires
        !s.done(),
        s.program[s.ip as int] == InstructionView::Div(d, a, b),
        s.registers[a.index as int] == ValueView::Number(x),
        s.registers[b.index as int] == ValueView::Number(y),
        y != 0,
    ensures
        step(s) == Ok::<ProcessView, VMErrorView>(
            ProcessView {
                registers: s.registers.update(
                    d.index as int,
                    ValueView::Number(crate::value::num_div(x, y)),
                ),
                ip: s.ip + 1,
                ..s
            },
        ),
{
}

/// Reading a bound variable succeeds: the step copies exactly the stored
/// value into the register and nothing else changes but the pointer.
pub proof fn lemma_load_var_steps(s: ProcessView, r: crate::instruction::Register, name: Seq<char>)
    requires
        !s.done(),
        s.program[s.ip as int] == InstructionView::LoadVar(r, name),
        s.variables.contains_key(name),
    ensures
        step(s) == Ok::<ProcessView, VMErrorView>(
            ProcessView {
                registers: s.registers.update(r.index as int, s.variables[name]),
                ip: s.ip + 1,
                ..s
            },
        ),
{
}

/// Reading a variable that was never stored always faults with
/// `UndefinedVariable` naming that variable and the executing process's id;
/// no default value is ever produced.
pub proof fn lemma_undefined_variable_faults(
    s: ProcessView,
    r: crate::instruction::Register,
    name: Seq<char>,
)
    requires
        !s.done(),
        s.program[s.ip as int] == InstructionView::LoadVar(r, name),
        !s.variables.contains_key(name),
    ensures
        step(s) == Err::<ProcessView, VMErrorView>(VMErrorView::UndefinedVariable(s.pid, name)),
{
}

/// A literal's one-instruction program, loaded into a fresh register file
/// and run with any fuel at all, finishes at once with exactly the
/// literal's value in the register that generation returned.
pub proof fn lemma_literal_runs(node: ASTNode, s: ProcessView, fuel: nat)
    requires
        node is NumberLiteral || node is StringLiteral,
        fuel >= 1,
        s.ip == 0,
        !s.halt,
        s.registers.len() >= 1,
        s.program.len() == 1,
        s.program[0] == (gen_node(node, 0, 0).code[0])@,
    ensures
        run_n(s, fuel) matches crate::process::RunState::Finished(t) && t.registers[gen_node(
            node,
            0,
            0,
        ).reg as int] == (match node {
            ASTNode::NumberLiteral(v) => ValueView::Number(v),
            ASTNode::StringLiteral(text) => ValueView::Text(text@),
            _ => arbitrary(),
        }),
{
    let s2 = step(s)->Ok_0;
    assert(s2.done());
    assert(run_n(s, fuel) == RunState::Finished(s2)) by {
        crate::process::lemma_run_n_extend(s2, 0, (fuel - 1) as nat);
    }
}

/// A program lowered from one tree by a fresh generator, loaded into a
/// register file of at least the generator's reported size, fits the
/// machine: `run_program`'s precondition holds.
pub proof fn lemma_generated_program_fits(node: ASTNode, s: ProcessView)
    requires
        gen_node(node, 0, 0).next <= usize::MAX,
        s.program.len() < usize::MAX,
        s.program.len() == gen_node(node, 0, 0).code.len(),
        forall|j: int|
            0 <= j < s.program.len() ==> s.program[j] == (#[trigger] gen_node(
                node,
                0,
                0,
            ).code[j])@,
        s.registers.len() >= gen_node(node, 0, 0).next,
    ensures
        s.fits(),
{
    lemma_gen_bounds(node, 0, 0);
    let g = gen_node(node, 0, 0);
    assert forall|j: int| 0 <= j < s.program.len() implies (#[trigger] s.program[j]).regs_below(
        s.registers.len(),
    ) && s.program[j].targets_within(s.program.len()) by {
        assert(g.code[j]@.regs_below(g.next));
        assert(match g.code[j]@ {
            InstructionView::Jmp(t) => 0 <= t <= g.code.len(),
            InstructionView::JmpFalse(_, t) => 0 < t <= g.code.len(),
            _ => true,
        });
    }
}

} // verus!
