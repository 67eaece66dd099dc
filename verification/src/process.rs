//! The execution engine: one process fetches, decodes and executes the
//! instructions of its loaded program against a private register file and
//! variable store, until halt, end of program, exhausted fuel, or a fatal
//! error.

use vstd::prelude::*;
use crate::instruction::{Instruction, InstructionView};
use crate::storage::VarStore;
use crate::value::{add_views, num_div, num_mul, num_sub, Value, ValueView};
use crate::value::{add_values, u64_to_string};
use crate::vm::{proc_prefix, proc_prefix_string, VMError, VMErrorView};

verus! {

/// Mathematical state of one process.
#[verifier::ext_equal]
pub struct ProcessView {
    pub pid: usize,
    pub registers: Seq<ValueView>,
    pub variables: Map<Seq<char>, ValueView>,
    pub program: Seq<InstructionView>,
    pub ip: nat,
    pub halt: bool,
    pub output: Seq<Seq<char>>,
}

/// The state of a process as `ByteCodeVM::spawn` hands it out: everything
/// empty, nothing loaded.
pub open spec fn empty_process_view(pid: usize) -> ProcessView {
    ProcessView {
        pid: pid,
        registers: Seq::empty(),
        variables: Map::empty(),
        program: Seq::empty(),
        ip: 0,
        halt: false,
        output: Seq::empty(),
    }
}

/// The diagnostic line a debug-print-register instruction emits.
pub open spec fn reg_line(pid: usize, index: usize, v: ValueView) -> Seq<char> {
    proc_prefix(pid) + "r"@ + crate::value::dec_seq(index as nat) + ": "@ + v.display()
}

/// The diagnostic line a debug-print-variable instruction emits.
pub open spec fn var_line(pid: usize, name: Seq<char>, v: ValueView) -> Seq<char> {
    proc_prefix(pid) + name + ": "@ + v.display()
}

impl ProcessView {
    /// The run is over: the pointer ran past the program, or halt was set.
    pub open spec fn done(self) -> bool {
        self.ip >= self.program.len() || self.halt
    }

    /// The loaded program fits the machine: every register operand lies
    /// inside the register file, every jump target stays within the program
    /// (one past the end included), and the program leaves room for the
    /// pointer to step past its end.
    pub open spec fn fits(self) -> bool {
        &&& forall|j: int|
            0 <= j < self.program.len() ==> (#[trigger] self.program[j]).regs_below(
                self.registers.len(),
            ) && self.program[j].targets_within(self.program.len())
        &&& self.program.len() < usize::MAX
    }
}

/// One fetch-decode-execute step, pointer advance included: jumps land one
/// past their target (compensated by the conditional jump, which sets the
/// pointer to its target directly). Meaningful when the state is not done
/// and the program fits.
pub open spec fn step(s: ProcessView) -> Result<ProcessView, VMErrorView>
    recommends
        !s.done(),
        s.fits(),
{
    match s.program[s.ip as int] {
        InstructionView::Halt => Ok(ProcessView { halt: true, ip: s.ip + 1, ..s }),
        InstructionView::Load(r, v) => Ok(
            ProcessView { registers: s.registers.update(r.index as int, v), ip: s.ip + 1, ..s },
        ),
        InstructionView::Add(dest, r1, r2) => {
            match add_views(s.registers[r1.index as int], s.registers[r2.index as int]) {
                Some(v) => Ok(
                    ProcessView {
                        registers: s.registers.update(dest.index as int, v),
                        ip: s.ip + 1,
                        ..s
                    },
                ),
                None => Err(VMErrorView::TypeMisMatch(s.pid)),
            }
        },
        InstructionView::Sub(dest, r1, r2) => {
            match (s.registers[r1.index as int], s.registers[r2.index as int]) {
                (ValueView::Number(x), ValueView::Number(y)) => Ok(
                    ProcessView {
                        registers: s.registers.update(
                            dest.index as int,
                            ValueView::Number(num_sub(x, y)),
                        ),
                        ip: s.ip + 1,
                        ..s
                    },
                ),
                _ => Err(VMErrorView::TypeMisMatch(s.pid)),
            }
        },
        InstructionView::Mul(dest, r1, r2) => {
            match (s.registers[r1.index as int], s.registers[r2.index as int]) {
                (ValueView::Number(x), ValueView::Number(y)) => Ok(
                    ProcessView {
                        registers: s.registers.update(
                            dest.index as int,
                            ValueView::Number(num_mul(x, y)),
                        ),
                        ip: s.ip + 1,
                        ..s
                    },
                ),
                _ => Err(VMErrorView::TypeMisMatch(s.pid)),
            }
        },
        InstructionView::Div(dest, r1, r2) => {
            match (s.registers[r1.index as int], s.registers[r2.index as int]) {
                (ValueView::Number(x), ValueView::Number(y)) => {
                    if y == 0 {
                        Err(VMErrorView::DivisionByZero(s.pid))
                    } else {
                        Ok(
                            ProcessView {
                                registers: s.registers.update(
                                    dest.index as int,
                                    ValueView::Number(num_div(x, y)),
                                ),
                                ip: s.ip + 1,
                                ..s
                            },
                        )
                    }
                },
                _ => Err(VMErrorView::TypeMisMatch(s.pid)),
            }
        },
        InstructionView::Jmp(t) => Ok(ProcessView { ip: (t + 1) as nat, ..s }),
        InstructionView::JmpFalse(r, t) => {
            if s.registers[r.index as int].truthy() {
                Ok(ProcessView { ip: s.ip + 1, ..s })
            } else {
                Ok(ProcessView { ip: t as nat, ..s })
            }
        },
        InstructionView::Store(name, r) => Ok(
            ProcessView {
                variables: s.variables.insert(name, s.registers[r.index as int]),
                ip: s.ip + 1,
                ..s
            },
        ),
        InstructionView::LoadVar(r, name) => {
            if s.variables.contains_key(name) {
                Ok(
                    ProcessView {
                        registers: s.registers.update(r.index as int, s.variables[name]),
                        ip: s.ip + 1,
                        ..s
                    },
                )
            } else {
                Err(VMErrorView::UndefinedVariable(s.pid, name))
            }
        },
        InstructionView::DbgPrintReg(r) => Ok(
            ProcessView {
                output: s.output.push(reg_line(s.pid, r.index, s.registers[r.index as int])),
                ip: s.ip + 1,
                ..s
            },
        ),
        InstructionView::DbgPrintVar(name) => {
            if s.variables.contains_key(name) {
                Ok(
                    ProcessView {
                        output: s.output.push(var_line(s.pid, name, s.variables[name])),
                        ip: s.ip + 1,
                        ..s
                    },
                )
            } else {
                Err(VMErrorView::UndefinedVariable(s.pid, name))
            }
        },
    }
}

/// Where a run stands after at most `n` steps.
pub enum RunState {
    /// Not done yet: more steps would be needed.
    Running(ProcessView),
    /// The pointer ran past the program or halt was set; the run succeeded.
    Finished(ProcessView),
    /// A step faulted; the state is the one at the failing instruction.
    Faulted(ProcessView, VMErrorView),
}

/// Runs up to `n` steps from `s`: the reference semantics of `run_program`.
pub open spec fn run_n(s: ProcessView, n: nat) -> RunState
    decreases n,
{
    if s.done() {
        RunState::Finished(s)
    } else if n == 0 {
        RunState::Running(s)
    } else {
        match step(s) {
            Ok(s2) => run_n(s2, (n - 1) as nat),
            Err(e) => RunState::Faulted(s, e),
        }
    }
}

/// A run that ended (finished or faulted) within `n` steps ends the same
/// way given any larger budget.
pub proof fn lemma_run_n_extend(s: ProcessView, n: nat, m: nat)
    requires
        n <= m,
        !(run_n(s, n) is Running),
    ensures
        run_n(s, m) == run_n(s, n),
    decreases n,
{
    if !s.done() && n > 0 {
        match step(s) {
            Ok(s2) => {
                lemma_run_n_extend(s2, (n - 1) as nat, (m - 1) as nat);
            },
            Err(_) => {},
        }
    }
}

/// What `Process::run_program` returns.
#[derive(Debug, PartialEq)]
pub enum RunOutcome {
    /// The program ran to halt or past its end.
    Completed,
    /// An instruction faulted; the error aborted the run.
    Faulted(VMError),
    /// The fuel budget ran out before the program was done.
    OutOfFuel,
}

/// An isolated execution context: one register file, one variable store,
/// one loaded program, one instruction pointer.
pub struct Process {
    pid: usize,
    registers: Vec<Value>,
    ip: usize,
    program: Vec<Instruction>,
    /// Process-lifetime variable store; a program reload does not reset it.
    pub variables: VarStore,
    halt: bool,
    output: Vec<String>,
}

impl View for Process {
    type V = ProcessView;

    closed spec fn view(&self) -> ProcessView {
        ProcessView {
            pid: self.pid,
            registers: self.registers.deep_view(),
            variables: self.variables@,
            program: self.program.deep_view(),
            ip: self.ip as nat,
            halt: self.halt,
            output: self.output.deep_view(),
        }
    }
}

impl Process {
    /// The variable store keeps one entry per name.
    pub closed spec fn wf(&self) -> bool {
        self.variables.wf()
    }

    /// A fresh process: no registers, no program, no variables, not halted.
    pub fn new(pid: usize) -> (p: Process)
        ensures
            p.wf(),
            p@ == empty_process_view(pid),
    {
        let p = Process {
            pid: pid,
            registers: Vec::new(),
            program: Vec::new(),
            variables: VarStore::new(),
            ip: 0,
            halt: false,
            output: Vec::new(),
        };
        proof {
            assert(p@ =~= empty_process_view(pid));
        }
        p
    }

    /// Replaces the program and gives the process a fresh register file of
    /// `max_registers` empty slots; the variable store and the diagnostic
    /// output survive, the halt flag is cleared so the process can run
    /// again.
    pub fn load_program(&mut self, program: Vec<Instruction>, max_registers: usize)
        requires
            old(self).wf(),
        ensures
            final(self).wf(),
            final(self)@ == (ProcessView {
                program: program.deep_view(),
                registers: Seq::new(max_registers as nat, |i: int| ValueView::Empty),
                halt: false,
                ..old(self)@
            }),
    {
        self.program = program;
        self.halt = false;
        let mut registers: Vec<Value> = Vec::new();
        let mut i: usize = 0;
        while i < max_registers
            invariant
                i <= max_registers,
                registers@.len() == i,
                forall|j: int| 0 <= j < i ==> registers@[j] == Value::Empty,
            decreases max_registers - i,
        {
            registers.push(Value::Empty);
            i += 1;
        }
        proof {
            assert forall|j: int| 0 <= j < registers.deep_view().len() implies registers.deep_view()[j]
                == ValueView::Empty by {
                assert(registers@[j] == Value::Empty);
            }
            assert(registers.deep_view() =~= Seq::new(max_registers as nat, |j: int| ValueView::Empty));
        }
        self.registers = registers;
        proof {
            assert(self@ =~= (ProcessView {
                program: program.deep_view(),
                registers: Seq::new(max_registers as nat, |i: int| ValueView::Empty),
                halt: false,
                ..old(self)@
            }));
        }
    }

    /// Writes one register slot.
    fn write_register(&mut self, index: usize, value: Value)
        requires
            index < old(self)@.registers.len(),
        ensures
            final(self).variables == old(self).variables,
            final(self)@ == (ProcessView {
                registers: old(self)@.registers.update(index as int, value@),
                ..old(self)@
            }),
    {
        self.registers[index] = value;
        proof {
            assert(self.registers.deep_view() =~= old(self).registers.deep_view().update(
                index as int,
                value@,
            ));
            assert(self@ =~= (ProcessView {
                registers: old(self)@.registers.update(index as int, value@),
                ..old(self)@
            }));
        }
    }

    /// Renders the diagnostic line for a register.
    fn format_reg_line(&self, index: usize) -> (s: String)
        requires
            index < self@.registers.len(),
        ensures
            s@ == reg_line(self@.pid, index, self@.registers[index as int]),
    {
        let mut s = proc_prefix_string(self.pid);
        s.append("r");
        let digits = u64_to_string(index as u64);
        s.append(digits.as_str());
        s.append(": ");
        let shown = self.registers[index].to_display_string();
        s.append(shown.as_str());
        proof {
            assert(s@ =~= reg_line(self@.pid, index, self@.registers[index as int]));
        }
        s
    }

    /// Executes one already-fetched instruction, pointer advance included,
    /// exactly as the `step` function describes; on an error the state is
    /// left as it was at the fetch.
    fn execute(&mut self, instruction: Instruction) -> (r: Result<(), VMError>)
        requires
            old(self).wf(),
            old(self)@.fits(),
            !old(self)@.done(),
            instruction@ == old(self)@.program[old(self)@.ip as int],
        ensures
            final(self).wf(),
            match step(old(self)@) {
                Ok(s2) => r is Ok && final(self)@ == s2,
                Err(e) => r matches Err(err) && err@ == e && final(self)@ == old(self)@,
            },
    {
        proof {
            assert(old(self)@.program[old(self)@.ip as int].regs_below(
                old(self)@.registers.len(),
            ));
            assert(old(self)@.program[old(self)@.ip as int].targets_within(
                old(self)@.program.len(),
            ));
        }
        match instruction {
            Instruction::Halt => {
                self.halt = true;
                self.ip = self.ip + 1;
                proof {
                    assert(self@ =~= step(old(self)@)->Ok_0);
                }
                Ok(())
            },
            Instruction::Load(reg, value) => {
                self.write_register(reg.index, value);
                self.ip = self.ip + 1;
                proof {
                    assert(self@ =~= step(old(self)@)->Ok_0);
                }
                Ok(())
            },
            Instruction::Add(dest, reg1, reg2) => {
                let v1 = self.registers[reg1.index].clone();
                let v2 = self.registers[reg2.index].clone();
                match add_values(&v1, &v2) {
                    Some(v) => {
                        self.write_register(dest.index, v);
                        self.ip = self.ip + 1;
                        proof {
                            assert(self@ =~= step(old(self)@)->Ok_0);
                        }
                        Ok(())
                    },
                    None => Err(VMError::TypeMisMatch(self.pid)),
                }
            },
            Instruction::Sub(dest, reg1, reg2) => {
                let x = match &self.registers[reg1.index] {
                    Value::Number(v) => *v,
                    _ => {
                        return Err(VMError::TypeMisMatch(self.pid));
                    },
                };
                let y = match &self.registers[reg2.index] {
                    Value::Number(v) => *v,
                    _ => {
                        return Err(VMError::TypeMisMatch(self.pid));
                    },
                };
                self.write_register(dest.index, Value::Number(x.wrapping_sub(y)));
                self.ip = self.ip + 1;
                proof {
                    assert(self@ =~= step(old(self)@)->Ok_0);
                }
                Ok(())
            },
            Instruction::Mul(dest, reg1, reg2) => {
                let x = match &self.registers[reg1.index] {
                    Value::Number(v) => *v,
                    _ => {
                        return Err(VMError::TypeMisMatch(self.pid));
                    },
                };
                let y = match &self.registers[reg2.index] {
                    Value::Number(v) => *v,
                    _ => {
                        return Err(VMError::TypeMisMatch(self.pid));
                    },
                };
                self.write_register(dest.index, Value::Number(x.wrapping_mul(y)));
                self.ip = self.ip + 1;
                proof {
                    assert(self@ =~= step(old(self)@)->Ok_0);
                }
                Ok(())
            },
            Instruction::Div(dest, reg1, reg2) => {
                let x = match &self.registers[reg1.index] {
                    Value::Number(v) => *v,
                    _ => {
                        return Err(VMError::TypeMisMatch(self.pid));
                    },
                };
                let y = match &self.registers[reg2.index] {
                    Value::Number(v) => *v,
                    _ => {
                        return Err(VMError::TypeMisMatch(self.pid));
                    },
                };
                if y == 0 {
                    return Err(VMError::DivisionByZero(self.pid));
                }
                let q = match x.checked_div(y) {
                    Some(q) => q,
                    None => i64::MIN,
                };
                self.write_register(dest.index, Value::Number(q));
                self.ip = self.ip + 1;
                proof {
                    assert(self@ =~= step(old(self)@)->Ok_0);
                }
                Ok(())
            },
            Instruction::Jmp(target) => {
                self.ip = target + 1;
                proof {
                    assert(self@ =~= step(old(self)@)->Ok_0);
                }
                Ok(())
            },
            Instruction::JmpFalse(reg, target) => {
                if self.registers[reg.index].is_truthy() {
                    self.ip = self.ip + 1;
                } else {
                    self.ip = target;
                }
                proof {
                    assert(self@ =~= step(old(self)@)->Ok_0);
                }
                Ok(())
            },
            Instruction::Store(name, reg) => {
                let value = self.registers[reg.index].clone();
                self.variables.insert(name, value);
                self.ip = self.ip + 1;
                proof {
                    assert(self@ =~= step(old(self)@)->Ok_0);
                }
                Ok(())
            },
            Instruction::LoadVar(reg, name) => {
                let value = match self.variables.get(&name) {
                    Some(v) => v.clone(),
                    None => {
                        return Err(VMError::UndefinedVariable(self.pid, name));
                    },
                };
                self.write_register(reg.index, value);
                self.ip = self.ip + 1;
                proof {
                    assert(self@ =~= step(old(self)@)->Ok_0);
                }
                Ok(())
            },
            Instruction::DbgPrintReg(reg) => {
                let line = self.format_reg_line(reg.index);
                self.output.push(line);
                self.ip = self.ip + 1;
                proof {
                    assert(self.output.deep_view() =~= old(self).output.deep_view().push(
                        reg_line(
                            old(self)@.pid,
                            reg.index,
                            old(self)@.registers[reg.index as int],
                        ),
                    ));
                    assert(self@ =~= step(old(self)@)->Ok_0);
                }
                Ok(())
            },
            Instruction::DbgPrintVar(name) => {
                let value = match self.variables.get(&name) {
                    Some(v) => v.clone(),
                    None => {
                        return Err(VMError::UndefinedVariable(self.pid, name));
                    },
                };
                let mut line = proc_prefix_string(self.pid);
                line.append(name.as_str());
                line.append(": ");
                let shown = value.to_display_string();
                line.append(shown.as_str());
                proof {
                    assert(line@ =~= var_line(old(self)@.pid, name@, old(self)@.variables[name@]));
                }
                self.output.push(line);
                self.ip = self.ip + 1;
                proof {
                    assert(self.output.deep_view() =~= old(self).output.deep_view().push(
                        var_line(old(self)@.pid, name@, old(self)@.variables[name@]),
                    ));
                    assert(self@ =~= step(old(self)@)->Ok_0);
                }
                Ok(())
            },
        }
    }

    /// Runs the loaded program from instruction 0 until halt, program end,
    /// a fatal error, or `fuel` executed steps, exactly as `run_n`
    /// describes.
    #[verifier::loop_isolation(false)]
    pub fn run_program(&mut self, fuel: u64) -> (r: RunOutcome)
        requires
            old(self).wf(),
            old(self)@.fits(),
        ensures
            final(self).wf(),
            final(self)@.pid == old(self)@.pid,
            final(self)@.program == old(self)@.program,
            final(self)@.registers.len() == old(self)@.registers.len(),
            ({
                let started = ProcessView { ip: 0, ..old(self)@ };
                match r {
                    RunOutcome::Completed => run_n(started, fuel as nat) == RunState::Finished(
                        final(self)@,
                    ),
                    RunOutcome::Faulted(e) => run_n(started, fuel as nat) == RunState::Faulted(
                        final(self)@,
                        e@,
                    ),
                    RunOutcome::OutOfFuel => run_n(started, fuel as nat) == RunState::Running(
                        final(self)@,
                    ),
                }
            }),
    {
        self.ip = 0;
        let ghost started = ProcessView { ip: 0, ..old(self)@ };
        proof {
            assert(self@ =~= started);
        }
        let mut remaining: u64 = fuel;
        loop
            invariant
                self.wf(),
                self@.fits(),
                self@.pid == started.pid,
                self@.program == started.program,
                self@.registers.len() == started.registers.len(),
                remaining <= fuel,
                run_n(started, fuel as nat) == run_n(self@, remaining as nat),
            decreases remaining,
        {
            if self.halt || self.ip >= self.program.len() {
                return RunOutcome::Completed;
            }
            if remaining == 0 {
                return RunOutcome::OutOfFuel;
            }
            let instruction = self.program[self.ip].clone();
            let ghost before = self@;
            match self.execute(instruction) {
                Ok(_) => {
                    proof {
                        assert(run_n(before, remaining as nat) == run_n(
                            self@,
                            (remaining - 1) as nat,
                        ));
                    }
                    remaining = remaining - 1;
                },
                Err(e) => {
                    return RunOutcome::Faulted(e);
                },
            }
        }
    }

    /// The id this process was spawned under.
    pub fn pid(&self) -> (pid: usize)
        ensures
            pid == self@.pid,
    {
        self.pid
    }

    /// Whether the halt flag is set.
    pub fn halted(&self) -> (h: bool)
        ensures
            h == self@.halt,
    {
        self.halt
    }

    /// Read-only access to one register slot; `None` beyond the file.
    pub fn register_value(&self, index: usize) -> (r: Option<&Value>)
        ensures
            match r {
                Some(v) => index < self@.registers.len() && v@ == self@.registers[index as int],
                None => index >= self@.registers.len(),
            },
    {
        if index < self.registers.len() {
            Some(&self.registers[index])
        } else {
            None
        }
    }

    /// The diagnostic lines the debug-print instructions emitted so far.
    pub fn output_lines(&self) -> (r: &Vec<String>)
        ensures
            r.deep_view() == self@.output,
    {
        &self.output
    }
}

} // verus!
