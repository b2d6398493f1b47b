//! What is fixed when the process starts and never changes after.

use vstd::prelude::*;

verus! {

/// The number of problems of the assignment. A problem is known by a number
/// from 0 up to, and not including, this one.
pub const NUM_PROBLEMS: i32 = 6;

/// Whether a number names a problem.
pub open spec fn is_problem(problem: i32) -> bool {
    0 <= problem < NUM_PROBLEMS
}

/// Whether a number names a problem.
#[verifier::when_used_as_spec(is_problem)]
pub fn problem_in_range(problem: i32) -> (b: bool)
    ensures
        b == is_problem(problem),
{
    0 <= problem && problem < NUM_PROBLEMS
}

/// The settings of a running tutorial: the snippets that every learner
/// starts from, and the time that the sandbox gives one run.
pub struct Config {
    default_template: String,
    timeout_ms: u64,
}

impl Config {
    /// The snippets that a learner starts from.
    pub closed spec fn template(&self) -> Seq<char> {
        self.default_template@
    }

    /// The milliseconds that one run in the sandbox may take.
    pub closed spec fn timeout(&self) -> u64 {
        self.timeout_ms
    }

    /// Settings with the given template and time limit.
    pub fn new(default_template: String, timeout_ms: u64) -> (config: Config)
        ensures
            config.template() == default_template@,
            config.timeout() == timeout_ms,
    {
        Config { default_template, timeout_ms }
    }

    /// The snippets that a learner starts from.
    pub fn default_template(&self) -> (text: &String)
        ensures
            text@ == self.template(),
    {
        &self.default_template
    }

    /// The milliseconds that one run in the sandbox may take.
    pub fn timeout_ms(&self) -> (ms: u64)
        ensures
            ms == self.timeout(),
    {
        self.timeout_ms
    }
}

} // verus!
