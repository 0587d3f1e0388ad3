//! `commit`: commit to the current branch, with a message written for it.

use crate::args::CommitArgs;
use crate::branch::{commit_calls, Branch};
use crate::commit_types::{commit_type_named, CommitType};
use crate::errors::{Error, ErrorView};
use crate::git::{calls, Invocation};
use crate::naming::{commit_message_of, Convention};
use vstd::prelude::*;

verus! {

/// The calls of git that `commit` makes on the given branch.  A commit
/// type that is not known is refused with [`Error::CommitType`].  The
/// changes are staged first unless `no_add` is set.
pub fn exec(args: &CommitArgs, branch: &Branch) -> (r: Result<Vec<Invocation>, Error>)
    ensures
        match r {
            Ok(plan) => commit_type_named(args.commit_type@) is Some && calls(plan@)
                == commit_calls(
                commit_message_of(
                    branch@.code,
                    branch@.is_special,
                    commit_type_named(args.commit_type@)->Some_0,
                    args.message@,
                    args.run_ci,
                    Convention::Plain,
                ),
                !args.no_add,
                args.empty,
            ),
            Err(e) => commit_type_named(args.commit_type@) is None && e@ == ErrorView::CommitType,
        },
{
    let commit_type = match CommitType::from_name(args.commit_type.as_str()) {
        Ok(commit_type) => commit_type,
        Err(e) => {
            return Err(e);
        },
    };
    Ok(branch.commit(commit_type, args.message.as_str(), !args.no_add, args.empty, args.run_ci))
}

} // verus!
