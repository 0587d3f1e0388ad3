//! What the user asks for on the command line, as plain values.

use vstd::prelude::*;

verus! {

/// The arguments of `new`: the parts of the branch to create, and where to
/// start it from.
#[derive(Debug)]
pub struct NewArgs {
    pub branch_type: String,
    pub branch_code: String,
    pub branch_name: String,
    /// The branch to start from, by its code or by its name.
    pub source: Option<String>,
    /// Take `source` as a name even if it looks like a code.
    pub literal_source: bool,
    /// Start from the branch that is checked out.
    pub from_current: bool,
}

/// The arguments of `commit`.
#[derive(Debug)]
pub struct CommitArgs {
    pub commit_type: String,
    pub message: String,
    /// End the message with the token that asks for a full build.
    pub run_ci: bool,
    /// Do not stage the changes before committing.
    pub no_add: bool,
    /// Allow a commit without changes.
    pub empty: bool,
}

} // verus!
