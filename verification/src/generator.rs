//! The bytecode generator: a single recursive walk that lowers a syntax
//! tree into a flat instruction sequence, allocating virtual registers
//! monotonically and backpatching forward jump targets.

use vstd::prelude::*;
use crate::ast::{ASTNode, BinaryOperator};
use crate::instruction::{Instruction, Register};
use crate::value::Value;

verus! {

/// Outcome of lowering one node: the instructions appended, the register
/// counter afterwards, and the register holding the node's result.
pub struct GenOut {
    pub code: Seq<Instruction>,
    pub next: nat,
    pub reg: nat,
}

/// The register handle with the given index.
pub open spec fn reg_at(n: nat) -> Register {
    Register { index: n as usize }
}

/// The arithmetic instruction a binary operator lowers to.
pub open spec fn arith_instr(
    op: BinaryOperator,
    dest: Register,
    left: Register,
    right: Register,
) -> Instruction {
    match op {
        BinaryOperator::Add => Instruction::Add(dest, left, right),
        BinaryOperator::Subtract => Instruction::Sub(dest, left, right),
        BinaryOperator::Multiply => Instruction::Mul(dest, left, right),
        BinaryOperator::Divide => Instruction::Div(dest, left, right),
    }
}

/// What lowering `node` emits when the output already holds `base`
/// instructions and `next` registers are allocated. Jump targets are the
/// final, backpatched ones.
pub open spec fn gen_node(node: ASTNode, base: nat, next: nat) -> GenOut
    decreases node, 0int,
{
    match node {
        ASTNode::NumberLiteral(v) => GenOut {
            code: seq![Instruction::Load(reg_at(next), Value::Number(v))],
            next: next + 1,
            reg: next,
        },
        ASTNode::StringLiteral(s) => GenOut {
            code: seq![Instruction::Load(reg_at(next), Value::Text(s))],
            next: next + 1,
            reg: next,
        },
        ASTNode::BinaryOp(left, op, right) => {
            let gl = gen_node(*left, base, next);
            let gr = gen_node(*right, base + gl.code.len(), gl.next);
            GenOut {
                code: gl.code + gr.code + seq![
                    arith_instr(op, reg_at(gr.next), reg_at(gl.reg), reg_at(gr.reg)),
                ],
                next: gr.next + 1,
                reg: gr.next,
            }
        },
        ASTNode::Variable(name) => GenOut {
            code: seq![Instruction::LoadVar(reg_at(next), name)],
            next: next + 1,
            reg: next,
        },
        ASTNode::Assignment(name, value) => {
            let gv = gen_node(*value, base, next);
            GenOut {
                code: gv.code + seq![Instruction::Store(name, reg_at(gv.reg))],
                next: gv.next,
                reg: gv.reg,
            }
        },
        ASTNode::Block(stmts) => gen_stmts(stmts, 0, base, next + 1, next),
        ASTNode::If(cond, then_branch, else_branch) => {
            let gc = gen_node(*cond, base, next);
            let test_at = base + gc.code.len();
            let gt = gen_node(*then_branch, test_at + 1, gc.next);
            let end_at = test_at + 1 + gt.code.len();
            match else_branch {
                Some(els) => {
                    let ge = gen_node(*els, end_at + 1, gt.next);
                    let after = end_at + 1 + ge.code.len();
                    GenOut {
                        code: gc.code + seq![
                            Instruction::JmpFalse(reg_at(gc.reg), (end_at + 1) as usize),
                        ] + gt.code + seq![Instruction::Jmp(after as usize)] + ge.code,
                        next: ge.next + 1,
                        reg: ge.next,
                    }
                },
                None => GenOut {
                    code: gc.code + seq![
                        Instruction::JmpFalse(reg_at(gc.reg), end_at as usize),
                    ] + gt.code,
                    next: gt.next + 1,
                    reg: gt.next,
                },
            }
        },
        ASTNode::While(cond, body) => {
            let gc = gen_node(*cond, base, next);
            let test_at = base + gc.code.len();
            let gb = gen_node(*body, test_at + 1, gc.next);
            let loop_end = test_at + 1 + gb.code.len() + 1;
            GenOut {
                code: gc.code + seq![
                    Instruction::JmpFalse(reg_at(gc.reg), loop_end as usize),
                ] + gb.code + seq![Instruction::Jmp(base as usize)],
                next: gb.next + 1,
                reg: gb.next,
            }
        },
    }
}

/// What lowering the statements of a block from position `i` on emits;
/// `last` is the register a preceding statement (or the block's own
/// pre-allocated slot) left as the result so far.
pub open spec fn gen_stmts(stmts: Vec<ASTNode>, i: int, base: nat, next: nat, last: nat) -> GenOut
    decreases stmts, stmts.len() - i,
{
    if i < 0 || i >= stmts.len() {
        GenOut { code: Seq::empty(), next: next, reg: last }
    } else {
        let g = gen_node(stmts[i], base, next);
        let rest = gen_stmts(stmts, i + 1, base + g.code.len(), g.next, g.reg);
        GenOut { code: g.code + rest.code, next: rest.next, reg: rest.reg }
    }
}

/// Lowering never deallocates: the register counter only grows.
pub proof fn lemma_gen_next_ge(node: ASTNode, base: nat, next: nat)
    ensures
        gen_node(node, base, next).next >= next,
    decreases node, 0int,
{
    match node {
        ASTNode::NumberLiteral(_) => {},
        ASTNode::StringLiteral(_) => {},
        ASTNode::BinaryOp(left, op, right) => {
            let gl = gen_node(*left, base, next);
            lemma_gen_next_ge(*left, base, next);
            lemma_gen_next_ge(*right, base + gl.code.len(), gl.next);
        },
        ASTNode::Variable(_) => {},
        ASTNode::Assignment(name, value) => {
            lemma_gen_next_ge(*value, base, next);
        },
        ASTNode::Block(stmts) => {
            lemma_gen_stmts_next_ge(stmts, 0, base, next + 1, next);
        },
        ASTNode::If(cond, then_branch, else_branch) => {
            let gc = gen_node(*cond, base, next);
            let test_at = base + gc.code.len();
            let gt = gen_node(*then_branch, test_at + 1, gc.next);
            let end_at = test_at + 1 + gt.code.len();
            lemma_gen_next_ge(*cond, base, next);
            lemma_gen_next_ge(*then_branch, test_at + 1, gc.next);
            match else_branch {
                Some(els) => {
                    lemma_gen_next_ge(*els, end_at + 1, gt.next);
                },
                None => {},
            }
        },
        ASTNode::While(cond, body) => {
            let gc = gen_node(*cond, base, next);
            let test_at = base + gc.code.len();
            lemma_gen_next_ge(*cond, base, next);
            lemma_gen_next_ge(*body, test_at + 1, gc.next);
        },
    }
}

/// As `lemma_gen_next_ge`, for the statements of a block.
pub proof fn lemma_gen_stmts_next_ge(stmts: Vec<ASTNode>, i: int, base: nat, next: nat, last: nat)
    ensures
        gen_stmts(stmts, i, base, next, last).next >= next,
    decreases stmts, stmts.len() - i,
{
    if 0 <= i < stmts.len() {
        let g = gen_node(stmts[i], base, next);
        lemma_gen_next_ge(stmts[i], base, next);
        lemma_gen_stmts_next_ge(stmts, i + 1, base + g.code.len(), g.next, g.reg);
    }
}

/// Lowers syntax trees into one running instruction sequence.
pub struct BytecodeGenerator {
    /// The output program built so far.
    pub instructions: Vec<Instruction>,
    /// The monotonic register allocation counter; also the size of the
    /// register file the finished program needs.
    pub next_register: usize,
}

impl BytecodeGenerator {
    /// A generator with no instructions and no registers allocated.
    pub fn new() -> (g: BytecodeGenerator)
        ensures
            g.instructions@ == Seq::<Instruction>::empty(),
            g.next_register == 0,
    {
        BytecodeGenerator { instructions: Vec::new(), next_register: 0 }
    }

    /// Hands out a fresh register; registers are never reused.
    fn allocate_register(&mut self) -> (r: Register)
        requires
            old(self).next_register < usize::MAX,
        ensures
            final(self).instructions == old(self).instructions,
            final(self).next_register == old(self).next_register + 1,
            r.index == old(self).next_register,
    {
        let reg = Register { index: self.next_register };
        self.next_register = self.next_register + 1;
        reg
    }

    /// Lowers `node`, appending its instructions and returning the register
    /// that holds its result, exactly as `gen_node` describes.
    #[verifier::loop_isolation(false)]
    pub fn generate(&mut self, node: &ASTNode) -> (r: Register)
        requires
            gen_node(
                *node,
                old(self).instructions@.len() as nat,
                old(self).next_register as nat,
            ).next <= usize::MAX,
        ensures
            ({
                let g = gen_node(
                    *node,
                    old(self).instructions@.len() as nat,
                    old(self).next_register as nat,
                );
                final(self).instructions@ == old(self).instructions@ + g.code
                    && final(self).next_register == g.next && r.index == g.reg
            }),
        decreases node,
    {
        let ghost base: nat = self.instructions@.len() as nat;
        let ghost next0: nat = self.next_register as nat;
        match node {
            ASTNode::NumberLiteral(value) => {
                let reg = self.allocate_register();
                self.instructions.push(Instruction::Load(reg, Value::Number(*value)));
                assert(self.instructions@ =~= old(self).instructions@ + gen_node(
                    *node,
                    base,
                    next0,
                ).code);
                reg
            },
            ASTNode::StringLiteral(string) => {
                let reg = self.allocate_register();
                self.instructions.push(Instruction::Load(reg, Value::Text(string.clone())));
                assert(self.instructions@ =~= old(self).instructions@ + gen_node(
                    *node,
                    base,
                    next0,
                ).code);
                reg
            },
            ASTNode::BinaryOp(left, op, right) => {
                proof {
                    let gl = gen_node(**left, base, next0);
                    lemma_gen_next_ge(**right, base + gl.code.len(), gl.next);
                }
                let left_reg = self.generate(left);
                let right_reg = self.generate(right);
                let result_reg = self.allocate_register();
                let instruction = match op {
                    BinaryOperator::Add => Instruction::Add(result_reg, left_reg, right_reg),
                    BinaryOperator::Subtract => Instruction::Sub(result_reg, left_reg, right_reg),
                    BinaryOperator::Multiply => Instruction::Mul(result_reg, left_reg, right_reg),
                    BinaryOperator::Divide => Instruction::Div(result_reg, left_reg, right_reg),
                };
                self.instructions.push(instruction);
                assert(self.instructions@ =~= old(self).instructions@ + gen_node(
                    *node,
                    base,
                    next0,
                ).code);
                result_reg
            },
            ASTNode::Variable(name) => {
                let reg = self.allocate_register();
                self.instructions.push(Instruction::LoadVar(reg, name.clone()));
                assert(self.instructions@ =~= old(self).instructions@ + gen_node(
                    *node,
                    base,
                    next0,
                ).code);
                reg
            },
            ASTNode::Assignment(name, value) => {
                let value_reg = self.generate(value);
                self.instructions.push(Instruction::Store(name.clone(), value_reg));
                assert(self.instructions@ =~= old(self).instructions@ + gen_node(
                    *node,
                    base,
                    next0,
                ).code);
                value_reg
            },
            ASTNode::Block(statements) => {
                proof {
                    lemma_gen_stmts_next_ge(*statements, 0, base, next0 + 1, next0);
                }
                let ghost total = gen_stmts(*statements, 0, base, next0 + 1, next0);
                let mut last_reg = self.allocate_register();
                let n = statements.len();
                let mut idx: usize = 0;
                while idx < n
                    invariant
                        idx <= n,
                        ({
                            let rem = gen_stmts(
                                *statements,
                                idx as int,
                                self.instructions@.len() as nat,
                                self.next_register as nat,
                                last_reg.index as nat,
                            );
                            old(self).instructions@ + total.code == self.instructions@ + rem.code
                                && total.next == rem.next && total.reg == rem.reg
                        }),
                    decreases n - idx,
                {
                    proof {
                        let len_here = self.instructions@.len() as nat;
                        let next_here = self.next_register as nat;
                        let g = gen_node(statements@[idx as int], len_here, next_here);
                        lemma_gen_stmts_next_ge(
                            *statements,
                            idx + 1,
                            len_here + g.code.len(),
                            g.next,
                            g.reg,
                        );
                    }
                    last_reg = self.generate(&statements[idx]);
                    idx += 1;
                }
                assert(self.instructions@ =~= old(self).instructions@ + total.code);
                last_reg
            },
            ASTNode::If(condition, then_branch, else_branch) => {
                proof {
                    let gc = gen_node(**condition, base, next0);
                    let test_at = base + gc.code.len();
                    let gt = gen_node(**then_branch, test_at + 1, gc.next);
                    let end_at = test_at + 1 + gt.code.len();
                    lemma_gen_next_ge(**then_branch, test_at + 1, gc.next);
                    match else_branch {
                        Some(els) => {
                            lemma_gen_next_ge(**els, end_at + 1, gt.next);
                        },
                        None => {},
                    }
                }
                let condition_reg = self.generate(condition);
                let then_label = self.instructions.len();
                self.instructions.push(Instruction::JmpFalse(condition_reg, 0));
                self.generate(then_branch);
                let end_label = self.instructions.len();
                if let Some(else_node) = else_branch {
                    let else_label = end_label;
                    self.instructions.push(Instruction::Jmp(0));
                    let then_target = self.instructions.len();
                    self.instructions[then_label] = Instruction::JmpFalse(
                        condition_reg,
                        then_target,
                    );
                    self.generate(else_node);
                    let after = self.instructions.len();
                    self.instructions[else_label] = Instruction::Jmp(after);
                    assert(self.instructions@ =~= old(self).instructions@ + gen_node(
                        *node,
                        base,
                        next0,
                    ).code);
                    self.allocate_register()
                } else {
                    self.instructions[then_label] = Instruction::JmpFalse(
                        condition_reg,
                        end_label,
                    );
                    assert(self.instructions@ =~= old(self).instructions@ + gen_node(
                        *node,
                        base,
                        next0,
                    ).code);
                    self.allocate_register()
                }
            },
            ASTNode::While(condition, body) => {
                proof {
                    let gc = gen_node(**condition, base, next0);
                    let test_at = base + gc.code.len();
                    lemma_gen_next_ge(**body, test_at + 1, gc.next);
                }
                let loop_start = self.instructions.len();
                let condition_reg = self.generate(condition);
                let body_start = self.instructions.len();
                self.instructions.push(Instruction::JmpFalse(condition_reg, 0));
                self.generate(body);
                self.instructions.push(Instruction::Jmp(loop_start));
                let loop_end = self.instructions.len();
                self.instructions[body_start] = Instruction::JmpFalse(condition_reg, loop_end);
                assert(self.instructions@ =~= old(self).instructions@ + gen_node(
                    *node,
                    base,
                    next0,
                ).code);
                self.allocate_register()
            },
        }
    }
}

} // verus!
