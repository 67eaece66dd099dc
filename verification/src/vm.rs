//! The closed error taxonomy of execution and the process host.

use vstd::prelude::*;
use crate::process::Process;
use crate::value::dec_seq;

verus! {

/// Mathematical shape of an execution error: names are character sequences.
pub enum VMErrorView {
    TypeMisMatch(usize),
    DivisionByZero(usize),
    BadAddress(usize),
    UndefinedVariable(usize, Seq<char>),
}

/// A fatal execution error, carrying the offending process id.
#[derive(Debug, PartialEq)]
pub enum VMError {
    /// An arithmetic instruction received operand kinds it cannot combine.
    TypeMisMatch(usize),
    /// A divide instruction met a numeric zero divisor.
    DivisionByZero(usize),
    /// Reserved for register-indirect jump targets; never raised here.
    BadAddress(usize),
    /// A variable was read (or printed) before any store to it.
    UndefinedVariable(usize, String),
}

impl View for VMError {
    type V = VMErrorView;

    open spec fn view(&self) -> VMErrorView {
        match self {
            VMError::TypeMisMatch(pid) => VMErrorView::TypeMisMatch(*pid),
            VMError::DivisionByZero(pid) => VMErrorView::DivisionByZero(*pid),
            VMError::BadAddress(pid) => VMErrorView::BadAddress(*pid),
            VMError::UndefinedVariable(pid, name) => VMErrorView::UndefinedVariable(*pid, name@),
        }
    }
}

/// The `[Process #<pid>] ` prefix of diagnostic lines and error messages.
pub open spec fn proc_prefix(pid: usize) -> Seq<char> {
    "[Process #"@ + dec_seq(pid as nat) + "] "@
}

impl VMErrorView {
    /// The human-readable message of an error.
    pub open spec fn message_seq(self) -> Seq<char> {
        match self {
            VMErrorView::TypeMisMatch(pid) => proc_prefix(pid) + "type mismatch"@,
            VMErrorView::DivisionByZero(pid) => proc_prefix(pid) + "division by zero"@,
            VMErrorView::BadAddress(pid) => proc_prefix(pid) + "bad address"@,
            VMErrorView::UndefinedVariable(pid, name) => proc_prefix(pid)
                + "undefined variable `"@ + name + "`"@,
        }
    }
}

/// Renders the `[Process #<pid>] ` prefix.
pub fn proc_prefix_string(pid: usize) -> (s: String)
    ensures
        s@ == proc_prefix(pid),
{
    let mut s = String::from_str("[Process #");
    let digits = crate::value::u64_to_string(pid as u64);
    s.append(digits.as_str());
    s.append("] ");
    proof {
        assert(s@ =~= proc_prefix(pid));
    }
    s
}

impl VMError {
    /// The process id the error carries.
    pub fn pid(&self) -> (pid: usize)
        ensures
            match self@ {
                VMErrorView::TypeMisMatch(p) => pid == p,
                VMErrorView::DivisionByZero(p) => pid == p,
                VMErrorView::BadAddress(p) => pid == p,
                VMErrorView::UndefinedVariable(p, _) => pid == p,
            },
    {
        match self {
            VMError::TypeMisMatch(pid) => *pid,
            VMError::DivisionByZero(pid) => *pid,
            VMError::BadAddress(pid) => *pid,
            VMError::UndefinedVariable(pid, _) => *pid,
        }
    }

    /// The human-readable message, mirroring `VMErrorView::message_seq`.
    pub fn message(&self) -> (s: String)
        ensures
            s@ == self@.message_seq(),
    {
        match self {
            VMError::TypeMisMatch(pid) => {
                let mut s = proc_prefix_string(*pid);
                s.append("type mismatch");
                proof {
                    assert(s@ =~= self@.message_seq());
                }
                s
            },
            VMError::DivisionByZero(pid) => {
                let mut s = proc_prefix_string(*pid);
                s.append("division by zero");
                proof {
                    assert(s@ =~= self@.message_seq());
                }
                s
            },
            VMError::BadAddress(pid) => {
                let mut s = proc_prefix_string(*pid);
                s.append("bad address");
                proof {
                    assert(s@ =~= self@.message_seq());
                }
                s
            },
            VMError::UndefinedVariable(pid, name) => {
                let mut s = proc_prefix_string(*pid);
                s.append("undefined variable `");
                s.append(name.as_str());
                s.append("`");
                proof {
                    assert(s@ =~= self@.message_seq());
                }
                s
            },
        }
    }
}

/// A flat collection of processes; its one behaviour is handing out a new
/// process under the next dense, never-reused id.
pub struct ByteCodeVM {
    processes: Vec<Process>,
}

impl View for ByteCodeVM {
    type V = Seq<Process>;

    closed spec fn view(&self) -> Seq<Process> {
        self.processes@
    }
}

impl ByteCodeVM {
    /// Every process in the host sits at the index its id names.
    pub open spec fn wf(&self) -> bool {
        forall|i: int|
            0 <= i < self@.len() ==> (#[trigger] self@[i])@.pid == i && self@[i].wf()
    }

    /// A host with no processes.
    pub fn new() -> (vm: ByteCodeVM)
        ensures
            vm.wf(),
            vm.process_count() == 0,
    {
        ByteCodeVM { processes: Vec::new() }
    }

    /// How many processes were spawned so far.
    pub open spec fn spec_process_count(&self) -> usize {
        self@.len() as usize
    }

    /// How many processes were spawned so far.
    #[verifier::when_used_as_spec(spec_process_count)]
    pub fn process_count(&self) -> (n: usize)
        ensures
            n == self.spec_process_count(),
    {
        self.processes.len()
    }

    /// Creates a process whose id is the current process count, appends it,
    /// and returns a handle to it.
    pub fn spawn(&mut self) -> (p: &mut Process)
        requires
            old(self).wf(),
            old(self).spec_process_count() < usize::MAX,
        ensures
            (*p)@ == crate::process::empty_process_view(old(self).spec_process_count() as usize),
            (*p).wf(),
            final(self)@ == old(self)@.push(*final(p)),
    {
        let pid = self.processes.len();
        let process = Process::new(pid);
        self.processes.push(process);
        let n = self.processes.len();
        &mut self.processes[n - 1]
    }

    /// Read-only access to the process at `index`.
    pub fn process_at(&self, index: usize) -> (p: &Process)
        requires
            index < self.spec_process_count(),
        ensures
            p == &self@[index as int],
    {
        &self.processes[index]
    }
}

} // verus!
