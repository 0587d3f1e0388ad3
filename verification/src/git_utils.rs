//! A branch under the ticket convention, `feature/RCT-1234_title`, for
//! repositories whose branches carry the tracker key in front of the code.

use crate::branch::current_branch_of;
use crate::commit_types::CommitType;
use crate::errors::{Error, ErrorView};
use crate::git::{output_text, Outcome, Step};
use crate::naming::{
    commit_message, commit_message_of, is_valid_name, lemma_parsed_well_formed, parse, parsed,
    validate, Convention, Parts,
};
use crate::text::trim;
use vstd::prelude::*;

verus! {

/// The error type, under the name that callers of this module know it by.
pub type GitError = Error;

/// A branch, read from its name under the ticket convention.
#[derive(PartialEq, Debug)]
pub struct Branch {
    branch_type: String,
    branch_code: String,
    branch_title: String,
    is_special: bool,
}

impl View for Branch {
    type V = Parts;

    closed spec fn view(&self) -> Parts {
        Parts {
            branch_type: self.branch_type@,
            code: self.branch_code@,
            title: self.branch_title@,
            is_special: self.is_special,
        }
    }
}

impl Branch {
    #[verifier::type_invariant]
    spec fn well_formed(self) -> bool {
        self@.well_formed()
    }

    /// Whether `name` is a valid name under the ticket convention.
    pub fn validate_name(name: &str) -> (valid: bool)
        ensures
            valid == is_valid_name(name@, Convention::Ticket),
    {
        validate(name, Convention::Ticket)
    }

    /// Reads a name under the ticket convention as its type, code, title
    /// and whether it is special.  The code comes without the tracker key.
    pub fn parse_name(name: &str) -> (r: Result<(String, String, String, bool), GitError>)
        ensures
            match r {
                Ok((branch_type, code, title, is_special)) => parsed(name@, Convention::Ticket)
                    == Some(
                    Parts { branch_type: branch_type@, code: code@, title: title@, is_special },
                ),
                Err(e) => parsed(name@, Convention::Ticket) is None && e@
                    == ErrorView::NameFormat,
            },
    {
        parse(name, Convention::Ticket)
    }

    /// The branch that a name stands for, or [`Error::NameFormat`] if the
    /// name is not valid.
    pub fn from(name: &str) -> (r: Result<Branch, GitError>)
        ensures
            match r {
                Ok(branch) => parsed(name@, Convention::Ticket) == Some(branch@),
                Err(e) => parsed(name@, Convention::Ticket) is None && e@
                    == ErrorView::NameFormat,
            },
    {
        match parse(name, Convention::Ticket) {
            Ok((branch_type, branch_code, branch_title, is_special)) => {
                proof {
                    lemma_parsed_well_formed(name@, Convention::Ticket);
                }
                Ok(Branch { branch_type, branch_code, branch_title, is_special })
            },
            Err(e) => Err(e),
        }
    }

    /// The current branch, from the answer to `git branch --show-current`.
    pub fn new(outcome: Outcome) -> (r: Result<Branch, GitError>)
        ensures
            match r {
                Ok(branch) => current_branch_of(
                    outcome.started,
                    outcome.code,
                    outcome.stdout@,
                    Convention::Ticket,
                ) == Ok::<Parts, ErrorView>(branch@),
                Err(e) => current_branch_of(
                    outcome.started,
                    outcome.code,
                    outcome.stdout@,
                    Convention::Ticket,
                ) == Err::<Parts, ErrorView>(e@),
            },
    {
        match output_text(Step::CurrentBranch, outcome) {
            Err(e) => Err(e),
            Ok(text) => Branch::from(trim(text.as_str())),
        }
    }

    /// The code of the branch, without the tracker key; empty for a special
    /// branch.  Every branch is well formed, whichever way it was made.
    pub fn code(&self) -> (code: &str)
        ensures
            code@ == self@.code,
            self@.well_formed(),
    {
        proof {
            use_type_invariant(self);
        }
        self.branch_code.as_str()
    }

    /// The commit message for this branch, with the tracker key in front
    /// of the code.
    pub fn make_commit_message(&self, commit_type: CommitType, message: &str) -> (text: String)
        ensures
            text@ == commit_message_of(
                self@.code,
                self@.is_special,
                commit_type,
                message@,
                false,
                Convention::Ticket,
            ),
    {
        commit_message(
            self.branch_code.as_str(),
            self.is_special,
            commit_type,
            message,
            false,
            Convention::Ticket,
        )
    }
}

} // verus!
