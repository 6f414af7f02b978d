//! The errors of a cluster backend.
use vstd::prelude::*;

use crate::types::SandboxId;

verus! {

broadcast use vstd::string::group_string_axioms;

/// Errors returned by sandbox backend operations.
#[derive(Debug)]
pub enum SandboxError {
    NotFound(SandboxId),
    General(String),
}

impl SandboxError {
    /// How the error is displayed.
    pub open spec fn text(self) -> Seq<char> {
        match self {
            SandboxError::NotFound(id) => "sandbox not found: "@ + id@,
            SandboxError::General(message) => "backend error: "@ + message@,
        }
    }

    /// How the error is displayed.
    pub fn to_string(&self) -> (r: String)
        ensures
            r@ == self.text(),
    {
        match self {
            SandboxError::NotFound(id) => String::from_str("sandbox not found: ").concat(
                id.as_str(),
            ),
            SandboxError::General(message) => String::from_str("backend error: ").concat(
                message.as_str(),
            ),
        }
    }
}

/// An error says what it is and of what: the sandbox that was not found, or the text that it came
/// with.
pub proof fn law_errors_say_what_they_are(err: SandboxError, r: String)
    requires
        call_ensures(SandboxError::to_string, (&err,), r),
    ensures
        match err {
            SandboxError::NotFound(id) => r@ == "sandbox not found: "@ + id@,
            SandboxError::General(message) => r@ == "backend error: "@ + message@,
        },
{
}

} // verus!
