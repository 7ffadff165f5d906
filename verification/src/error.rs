//! The error type shared by the library's fallible operations.

use vstd::prelude::*;
use vstd::string::*;
use crate::text::{push_str, string_of};

verus! {

/// What can go wrong: the variant says where, the text says what.
#[derive(Debug, Clone, PartialEq, Eq)]
pub enum RalphError {
    /// Reading or writing a file failed.
    Io(String),
    /// A JSON text could not be read or written.
    Json(String),
    /// The requirement document does not fit its schema.
    PrdValidation(String),
    /// A ledger operation failed.
    Ledger(String),
    /// A validation profile is wrong or missing.
    ValidationProfile(String),
    /// A command could not be run.
    Command(String),
    /// A version-control operation failed.
    Git(String),
    /// The coding assistant could not be used.
    Copilot(String),
}

impl RalphError {
    /// The words that introduce the detail of each variant.
    pub open spec fn prefix(&self) -> Seq<char> {
        match self {
            RalphError::Io(_) => "I/O error: "@,
            RalphError::Json(_) => "JSON error: "@,
            RalphError::PrdValidation(_) => "PRD validation error: "@,
            RalphError::Ledger(_) => "Ledger error: "@,
            RalphError::ValidationProfile(_) => "Validation profile error: "@,
            RalphError::Command(_) => "Command failed: "@,
            RalphError::Git(_) => "Git error: "@,
            RalphError::Copilot(_) => "Copilot error: "@,
        }
    }

    /// The detail that the error carries.
    pub open spec fn detail(&self) -> Seq<char> {
        match self {
            RalphError::Io(d) => d@,
            RalphError::Json(d) => d@,
            RalphError::PrdValidation(d) => d@,
            RalphError::Ledger(d) => d@,
            RalphError::ValidationProfile(d) => d@,
            RalphError::Command(d) => d@,
            RalphError::Git(d) => d@,
            RalphError::Copilot(d) => d@,
        }
    }

    /// The error as one line of text: the variant's prefix, then the detail.
    pub fn message(&self) -> (s: String)
        ensures
            s@ == self.prefix() + self.detail(),
    {
        let mut out: Vec<char> = Vec::new();
        match self {
            RalphError::Io(d) => {
                push_str(&mut out, "I/O error: ");
                push_str(&mut out, d.as_str());
            },
            RalphError::Json(d) => {
                push_str(&mut out, "JSON error: ");
                push_str(&mut out, d.as_str());
            },
            RalphError::PrdValidation(d) => {
                push_str(&mut out, "PRD validation error: ");
                push_str(&mut out, d.as_str());
            },
            RalphError::Ledger(d) => {
                push_str(&mut out, "Ledger error: ");
                push_str(&mut out, d.as_str());
            },
            RalphError::ValidationProfile(d) => {
                push_str(&mut out, "Validation profile error: ");
                push_str(&mut out, d.as_str());
            },
            RalphError::Command(d) => {
                push_str(&mut out, "Command failed: ");
                push_str(&mut out, d.as_str());
            },
            RalphError::Git(d) => {
                push_str(&mut out, "Git error: ");
                push_str(&mut out, d.as_str());
            },
            RalphError::Copilot(d) => {
                push_str(&mut out, "Copilot error: ");
                push_str(&mut out, d.as_str());
            },
        }
        string_of(&out)
    }
}

} // verus!
