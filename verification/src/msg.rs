//! The requests that the registry takes, and what it answers.

use crate::encoding::Attestation;
use crate::state::CompilationResult;
use vstd::prelude::*;

verus! {

/// Sets the registry up. The caller becomes the admin.
#[derive(Clone, Debug, PartialEq, Eq)]
pub struct InstantiateMsg {}

/// A command. Only the admin may give one.
#[derive(Clone, Debug, PartialEq, Eq)]
pub enum ExecuteMsg {
    /// Hands the admin role to `admin`.
    SetAdmin { admin: String },
    /// Records the outcome of one verification attempt.
    WriteResult { code_id: u32, repo: String, commit_hash: String, method: String, verified: bool },
}

/// A question. Anyone may ask.
#[derive(Clone, Copy, Debug, PartialEq, Eq)]
pub enum QueryMsg {
    /// Asks for the attestation that verified `code_id`.
    CheckCodeId { code_id: u32 },
    /// Asks for all verified code ids, in the order in which they were verified.
    CheckAllVerified {},
}

/// The answer to a question.
#[derive(Clone, Debug, PartialEq, Eq)]
pub enum QueryAnswer {
    /// The attestation that verified the code id asked about.
    CodeId(CompilationResult),
    /// The verified code ids.
    AllVerified(Vec<u32>),
}

/// A command as mathematical values.
pub enum Command {
    SetAdmin { admin: Seq<char> },
    WriteResult { attestation: Attestation },
}

/// An answer as mathematical values.
pub enum Answer {
    CodeId(Attestation),
    AllVerified(Seq<u32>),
}

impl View for ExecuteMsg {
    type V = Command;

    open spec fn view(&self) -> Command {
        match self {
            ExecuteMsg::SetAdmin { admin } => Command::SetAdmin { admin: admin@ },
            ExecuteMsg::WriteResult {
                code_id,
                repo,
                commit_hash,
                method,
                verified,
            } => Command::WriteResult {
                attestation: Attestation {
                    code_id: *code_id,
                    repo: repo@,
                    commit_hash: commit_hash@,
                    method: method@,
                    verified: *verified,
                },
            },
        }
    }
}

impl View for QueryAnswer {
    type V = Answer;

    open spec fn view(&self) -> Answer {
        match self {
            QueryAnswer::CodeId(result) => Answer::CodeId(result@),
            QueryAnswer::AllVerified(ids) => Answer::AllVerified(ids@),
        }
    }
}

} // verus!
