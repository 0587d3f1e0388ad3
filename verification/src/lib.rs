//! A branch-naming convention for git, and the decisions a workflow helper
//! derives from it: which names are valid, what a name is made of, how a
//! commit message is written for a branch, and which git calls a command
//! makes.

pub mod args;
pub mod branch;
pub mod branches;
pub mod commit_types;
pub mod errors;
pub mod git;
pub mod git_utils;
pub mod naming;
pub mod subcommands;
pub mod text;
