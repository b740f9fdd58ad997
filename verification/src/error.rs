//! The failures that the poll operations report.

use vstd::prelude::*;

verus! {

/// Why an operation was refused. A refused operation changes nothing.
#[derive(Debug, Clone, Copy, PartialEq, Eq, Structural)]
pub enum ContractError {
    /// A poll was to be created with more than ten options.
    TooManyOptions,
    /// A poll was to be created under an identifier that is already taken.
    PollAlreadyExists,
    /// A vote named a poll that does not exist.
    PollNotFound,
    /// A vote named a label that the poll does not list.
    InvalidOption,
    /// The caller lacks the right to do this. None of the operations here is
    /// restricted, so none of them reports it.
    Unauthorized,
}

impl ContractError {
    /// The words that describe the failure.
    pub open spec fn text(self) -> Seq<char> {
        match self {
            ContractError::TooManyOptions => "Too many poll options"@,
            ContractError::PollAlreadyExists => "Poll already exists"@,
            ContractError::PollNotFound => "Poll not found"@,
            ContractError::InvalidOption => "Invalid option"@,
            ContractError::Unauthorized => "Unauthorized"@,
        }
    }

    /// A short description of the failure.
    pub fn message(&self) -> (text: String)
        ensures
            text@ == self.text(),
    {
        match self {
            ContractError::TooManyOptions => "Too many poll options".to_owned(),
            ContractError::PollAlreadyExists => "Poll already exists".to_owned(),
            ContractError::PollNotFound => "Poll not found".to_owned(),
            ContractError::InvalidOption => "Invalid option".to_owned(),
            ContractError::Unauthorized => "Unauthorized".to_owned(),
        }
    }
}

} // verus!
