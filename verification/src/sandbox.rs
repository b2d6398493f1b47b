//! Running a snippet apart from everything else: what is asked of the
//! sandbox, and what comes back from it.
//!
//! The run itself happens outside this library. The library says what to
//! run, and judges what the run gave.

use vstd::prelude::*;
use vstd::string::StringExecFns;

verus! {

/// What one run of a snippet gave.
#[derive(Clone, Debug, PartialEq, Eq)]
pub struct ExecutionResult {
    /// The exit code of the process; `None` where it ended without one.
    pub exit_code: Option<i32>,
    /// What the process wrote to its standard output.
    pub stdout: String,
    /// What the process wrote to its standard error.
    pub stderr: String,
}

impl ExecutionResult {
    /// A run succeeded when its exit code is 0, and in no other case.
    pub open spec fn succeeded(&self) -> bool {
        self.exit_code == Some(0i32)
    }

    /// What the learner is shown of the run: its output where it succeeded,
    /// and the errors that it reported where it did not.
    pub open spec fn diagnostic_text(&self) -> Seq<char> {
        if self.succeeded() {
            self.stdout@
        } else {
            self.stderr@
        }
    }

    /// The score that the run earns: 1 where it succeeded, 0 where not.
    pub open spec fn earned(&self) -> i32 {
        if self.succeeded() {
            1
        } else {
            0
        }
    }

    /// Whether the run succeeded.
    pub fn is_success(&self) -> (b: bool)
        ensures
            b == self.succeeded(),
    {
        match self.exit_code {
            Some(code) => code == 0,
            None => false,
        }
    }

    /// The score that the run earns.
    pub fn score(&self) -> (score: i32)
        ensures
            score == self.earned(),
            score == 0 || score == 1,
    {
        if self.is_success() {
            1
        } else {
            0
        }
    }

    /// What the learner is shown of the run.
    pub fn diagnostic(&self) -> (text: &String)
        ensures
            text@ == self.diagnostic_text(),
    {
        if self.is_success() {
            &self.stdout
        } else {
            &self.stderr
        }
    }
}

/// How an attempt to run a snippet ended.
#[derive(Clone, Debug, PartialEq, Eq)]
pub enum SandboxOutcome {
    /// The snippet ran to its end, well or badly.
    Finished(ExecutionResult),
    /// The run took longer than it may and was stopped.
    TimedOut,
    /// The sandbox could not be started.
    SpawnFailed,
}

impl SandboxOutcome {
    /// Whether the sandbox itself failed: the snippet was not run to its
    /// end, so nothing can be said of it.
    pub open spec fn is_system_failure(&self) -> bool {
        !(self is Finished)
    }

    /// Whether the sandbox itself failed.
    pub fn system_failed(&self) -> (b: bool)
        ensures
            b == self.is_system_failure(),
    {
        match self {
            SandboxOutcome::Finished(_) => false,
            _ => true,
        }
    }
}

/// What the sandbox is asked to do: start `program` with `args`, and stop
/// it where it runs longer than `timeout_ms` milliseconds. A job holds the
/// snippet and nothing else of the request that it is made for.
#[derive(Clone, Debug, PartialEq, Eq)]
pub struct SandboxJob {
    pub program: String,
    pub args: Vec<String>,
    pub timeout_ms: u64,
}

/// The arguments with which a snippet is run.
pub open spec fn job_args(snippet: Seq<char>) -> Seq<Seq<char>> {
    seq!["run"@, "rust-src"@, snippet]
}

impl SandboxJob {
    /// The arguments of the job as mathematical values.
    pub open spec fn args_view(&self) -> Seq<Seq<char>> {
        self.args@.map_values(|a: String| a@)
    }

    /// The job that runs a snippet in a container of its own.
    pub fn for_snippet(snippet: &String, timeout_ms: u64) -> (job: SandboxJob)
        ensures
            job.program@ == "docker"@,
            job.args_view() == job_args(snippet@),
            job.timeout_ms == timeout_ms,
    {
        let mut args: Vec<String> = Vec::new();
        args.push(String::from_str("run"));
        args.push(String::from_str("rust-src"));
        args.push(snippet.clone());
        let job = SandboxJob { program: String::from_str("docker"), args, timeout_ms };
        assert(job.args_view() =~= job_args(snippet@));
        job
    }
}

} // verus!
