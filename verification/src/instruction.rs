//! The closed bytecode instruction set and virtual register handles.

use vstd::prelude::*;
use crate::value::{Value, ValueView};

verus! {

/// Handle of one slot in a process's register file.
#[derive(Debug, Clone, Copy, PartialEq, Eq, Structural)]
pub struct Register {
    pub index: usize,
}

/// Mathematical shape of an instruction: names are character sequences and
/// immediates are value views.
pub enum InstructionView {
    Halt,
    Load(Register, ValueView),
    Store(Seq<char>, Register),
    LoadVar(Register, Seq<char>),
    Add(Register, Register, Register),
    Sub(Register, Register, Register),
    Mul(Register, Register, Register),
    Div(Register, Register, Register),
    Jmp(usize),
    JmpFalse(Register, usize),
    DbgPrintReg(Register),
    DbgPrintVar(Seq<char>),
}

/// One bytecode instruction. Arithmetic operands are `(destination, left,
/// right)`; jump targets are instruction indices.
#[derive(Debug, PartialEq)]
pub enum Instruction {
    Halt,
    Load(Register, Value),
    Store(String, Register),
    LoadVar(Register, String),
    Add(Register, Register, Register),
    Sub(Register, Register, Register),
    Mul(Register, Register, Register),
    Div(Register, Register, Register),
    Jmp(usize),
    JmpFalse(Register, usize),
    DbgPrintReg(Register),
    DbgPrintVar(String),
}

impl View for Instruction {
    type V = InstructionView;

    open spec fn view(&self) -> InstructionView {
        match self {
            Instruction::Halt => InstructionView::Halt,
            Instruction::Load(r, v) => InstructionView::Load(*r, v@),
            Instruction::Store(name, r) => InstructionView::Store(name@, *r),
            Instruction::LoadVar(r, name) => InstructionView::LoadVar(*r, name@),
            Instruction::Add(d, a, b) => InstructionView::Add(*d, *a, *b),
            Instruction::Sub(d, a, b) => InstructionView::Sub(*d, *a, *b),
            Instruction::Mul(d, a, b) => InstructionView::Mul(*d, *a, *b),
            Instruction::Div(d, a, b) => InstructionView::Div(*d, *a, *b),
            Instruction::Jmp(t) => InstructionView::Jmp(*t),
            Instruction::JmpFalse(r, t) => InstructionView::JmpFalse(*r, *t),
            Instruction::DbgPrintReg(r) => InstructionView::DbgPrintReg(*r),
            Instruction::DbgPrintVar(name) => InstructionView::DbgPrintVar(name@),
        }
    }
}

impl DeepView for Instruction {
    type V = InstructionView;

    open spec fn deep_view(&self) -> InstructionView {
        self.view()
    }
}

impl Clone for Instruction {
    fn clone(&self) -> (r: Self)
        ensures
            r == *self,
    {
        match self {
            Instruction::Halt => Instruction::Halt,
            Instruction::Load(r, v) => Instruction::Load(*r, v.clone()),
            Instruction::Store(name, r) => Instruction::Store(name.clone(), *r),
            Instruction::LoadVar(r, name) => Instruction::LoadVar(*r, name.clone()),
            Instruction::Add(d, a, b) => Instruction::Add(*d, *a, *b),
            Instruction::Sub(d, a, b) => Instruction::Sub(*d, *a, *b),
            Instruction::Mul(d, a, b) => Instruction::Mul(*d, *a, *b),
            Instruction::Div(d, a, b) => Instruction::Div(*d, *a, *b),
            Instruction::Jmp(t) => Instruction::Jmp(*t),
            Instruction::JmpFalse(r, t) => Instruction::JmpFalse(*r, *t),
            Instruction::DbgPrintReg(r) => Instruction::DbgPrintReg(*r),
            Instruction::DbgPrintVar(name) => Instruction::DbgPrintVar(name.clone()),
        }
    }
}

impl InstructionView {
    /// All register operands of the instruction lie below `nregs`, so that
    /// executing it only touches slots a register file of that size has.
    pub open spec fn regs_below(self, nregs: nat) -> bool {
        match self {
            InstructionView::Halt => true,
            InstructionView::Load(r, _) => r.index < nregs,
            InstructionView::Store(_, r) => r.index < nregs,
            InstructionView::LoadVar(r, _) => r.index < nregs,
            InstructionView::Add(d, a, b) => d.index < nregs && a.index < nregs && b.index < nregs,
            InstructionView::Sub(d, a, b) => d.index < nregs && a.index < nregs && b.index < nregs,
            InstructionView::Mul(d, a, b) => d.index < nregs && a.index < nregs && b.index < nregs,
            InstructionView::Div(d, a, b) => d.index < nregs && a.index < nregs && b.index < nregs,
            InstructionView::Jmp(_) => true,
            InstructionView::JmpFalse(r, _) => r.index < nregs,
            InstructionView::DbgPrintReg(r) => r.index < nregs,
            InstructionView::DbgPrintVar(_) => true,
        }
    }

    /// Every jump target of the instruction stays within a program of
    /// `len` instructions (the index one past the end counts as within:
    /// landing there ends the run).
    pub open spec fn targets_within(self, len: nat) -> bool {
        match self {
            InstructionView::Jmp(t) => t <= len,
            InstructionView::JmpFalse(_, t) => t <= len,
            _ => true,
        }
    }
}

} // verus!
