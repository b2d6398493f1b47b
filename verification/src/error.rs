//! The ways in which a request can fail.

use vstd::prelude::*;
use vstd::string::StringExecFns;

verus! {

/// Why a request was not carried out. Whatever the reason, a request that
/// fails leaves every record as it was.
#[derive(Clone, Copy, Debug, PartialEq, Eq, Structural)]
pub enum EngineError {
    /// The request names no learner.
    AuthRequired,
    /// A problem, a question or an answer lies outside the known range.
    ValidationError,
    /// What was to be created is there already.
    Conflict,
    /// The sandbox could not run the snippet to its end.
    SandboxSystemFailure,
    /// The records could not take the write.
    PersistenceFailure,
}

impl EngineError {
    /// The HTTP status that stands for this error.
    pub open spec fn status_of(self) -> u16 {
        match self {
            EngineError::AuthRequired => 401,
            EngineError::ValidationError => 400,
            EngineError::Conflict => 409,
            EngineError::SandboxSystemFailure => 500,
            EngineError::PersistenceFailure => 500,
        }
    }

    /// The text shown to the learner. A failure of the system itself says
    /// nothing of its cause.
    pub open spec fn message_of(self) -> Seq<char> {
        match self {
            EngineError::AuthRequired => "Please log in!"@,
            EngineError::ValidationError => "The request names something that does not exist."@,
            EngineError::Conflict => "That exists already."@,
            EngineError::SandboxSystemFailure => "Something went wrong on our side."@,
            EngineError::PersistenceFailure => "Something went wrong on our side."@,
        }
    }

    /// The HTTP status that stands for this error.
    pub fn status(&self) -> (code: u16)
        ensures
            code == self.status_of(),
    {
        match self {
            EngineError::AuthRequired => 401,
            EngineError::ValidationError => 400,
            EngineError::Conflict => 409,
            EngineError::SandboxSystemFailure => 500,
            EngineError::PersistenceFailure => 500,
        }
    }

    /// The text shown to the learner.
    pub fn message(&self) -> (text: String)
        ensures
            text@ == self.message_of(),
    {
        match self {
            EngineError::AuthRequired => String::from_str("Please log in!"),
            EngineError::ValidationError => String::from_str(
                "The request names something that does not exist.",
            ),
            EngineError::Conflict => String::from_str("That exists already."),
            EngineError::SandboxSystemFailure => String::from_str(
                "Something went wrong on our side.",
            ),
            EngineError::PersistenceFailure => String::from_str("Something went wrong on our side."),
        }
    }

    /// Whether the fault lies with the system and not with the request.
    pub fn is_system_failure(&self) -> (b: bool)
        ensures
            b == (self.status_of() == 500),
    {
        match self {
            EngineError::SandboxSystemFailure => true,
            EngineError::PersistenceFailure => true,
            _ => false,
        }
    }
}

} // verus!
