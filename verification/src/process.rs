//! What is run, and how a run ended.

use crate::text::{append_decimal, decimal};
use vstd::prelude::*;
use vstd::string::StringExecFns;

verus! {

/// One external program with its arguments.
#[derive(Clone, Debug, PartialEq, Eq)]
pub struct ProcessSpec {
    pub program: String,
    pub args: Vec<String>,
}

/// A `ProcessSpec` as mathematical values.
pub struct ProcessSpecView {
    pub program: Seq<char>,
    pub args: Seq<Seq<char>>,
}

impl View for ProcessSpec {
    type V = ProcessSpecView;

    open spec fn view(&self) -> ProcessSpecView {
        ProcessSpecView { program: self.program@, args: self.args.deep_view() }
    }
}

impl DeepView for ProcessSpec {
    type V = ProcessSpecView;

    open spec fn deep_view(&self) -> ProcessSpecView {
        self@
    }
}

impl ProcessSpec {
    /// A copy with the same program and the same arguments.
    pub fn duplicate(&self) -> (copy: ProcessSpec)
        ensures
            copy@ == self@,
    {
        let ghost all = self.args.deep_view();
        let mut args: Vec<String> = Vec::new();
        let mut i: usize = 0;
        while i < self.args.len()
            invariant
                i <= self.args.len(),
                all == self.args.deep_view(),
                args.deep_view() == all.take(i as int),
            decreases self.args.len() - i,
        {
            let ghost before = args.deep_view();
            args.push(self.args[i].clone());
            assert(args.deep_view() =~= before.push(self.args[i as int]@));
            i += 1;
        }
        assert(all.take(i as int) =~= all);
        ProcessSpec { program: self.program.clone(), args }
    }
}

/// How a process ended, as the operating system reported it.
#[derive(Clone, Copy, Debug, PartialEq, Eq, Structural)]
pub enum ExitOutcome {
    /// The process returned with this status code.
    Code(i32),
    /// The process was ended by this signal.
    Signal(i32),
    /// The operating system reported neither a status code nor a signal.
    Unknown,
}

impl ExitOutcome {
    /// A process succeeded exactly when it returned with status code 0.
    pub open spec fn succeeded(self) -> bool {
        self == ExitOutcome::Code(0)
    }

    /// Whether the process succeeded.
    pub fn success(&self) -> (ok: bool)
        ensures
            ok == self.succeeded(),
    {
        match self {
            ExitOutcome::Code(code) => *code == 0,
            _ => false,
        }
    }

    /// The outcome in words: the status code or the signal, in decimal.
    pub open spec fn description(self) -> Seq<char> {
        match self {
            ExitOutcome::Code(code) => "exit status: "@ + decimal(code as int),
            ExitOutcome::Signal(signal) => "signal: "@ + decimal(signal as int),
            ExitOutcome::Unknown => "unknown status"@,
        }
    }

    /// The outcome in words.
    pub fn describe(&self) -> (text: String)
        ensures
            text@ == self.description(),
    {
        match self {
            ExitOutcome::Code(code) => {
                let mut text = String::from_str("exit status: ");
                append_decimal(&mut text, *code);
                text
            },
            ExitOutcome::Signal(signal) => {
                let mut text = String::from_str("signal: ");
                append_decimal(&mut text, *signal);
                text
            },
            ExitOutcome::Unknown => String::from_str("unknown status"),
        }
    }
}

} // verus!
