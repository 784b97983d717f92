//! The ways in which a command or a query is turned down.

use vstd::prelude::*;

verus! {

/// Why the registry rejected a request. Every rejection leaves the store as it was.
#[derive(Clone, Copy, Debug, PartialEq, Eq, Structural, Hash)]
pub enum ContractError {
    /// The caller is not the admin.
    Unauthorized,
    /// The code id was already verified; nothing more is accepted for it.
    AlreadyVerified,
    /// This very attempt (code id, repository, commit) was recorded as failed before.
    AlreadyAttemptedFailed,
    /// The code id asked about has no successful verification.
    NotVerified,
    /// A stored value could not be decoded as the type expected under its key,
    /// or a value could not be encoded.
    SerializationError,
    /// A record that must exist is not in the store.
    KeyAbsent,
}

impl ContractError {
    /// The text shown to a caller for this rejection.
    pub open spec fn message_text(self) -> Seq<char> {
        match self {
            ContractError::Unauthorized => "Unauthorized"@,
            ContractError::AlreadyVerified => "Already verified successfully"@,
            ContractError::AlreadyAttemptedFailed => "Already verified without success with this repo"@,
            ContractError::NotVerified => "Not verified"@,
            ContractError::SerializationError => "Error parsing stored value"@,
            ContractError::KeyAbsent => "Stored value not found"@,
        }
    }

    /// Renders the rejection as text.
    pub fn message(&self) -> (text: &'static str)
        ensures
            text@ == self.message_text(),
    {
        match self {
            ContractError::Unauthorized => "Unauthorized",
            ContractError::AlreadyVerified => "Already verified successfully",
            ContractError::AlreadyAttemptedFailed => "Already verified without success with this repo",
            ContractError::NotVerified => "Not verified",
            ContractError::SerializationError => "Error parsing stored value",
            ContractError::KeyAbsent => "Stored value not found",
        }
    }
}

} // verus!
