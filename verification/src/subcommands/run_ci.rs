//! `run-ci`: ask the build server for a full run, by an empty commit that
//! carries the token, and push it.

use crate::branch::{commit_calls, Branch};
use crate::commit_types::CommitType;
use crate::errors::ErrorView;
use crate::git::{calls, git_push, step_after, Invocation, Step};
use crate::naming::{commit_message_of, Convention};
use vstd::prelude::*;

verus! {

/// The message of the commit: a single backspace, which survives the
/// trimming and leaves the token to speak for itself.
pub open spec fn marker() -> Seq<char> {
    "\u{8}"@
}

/// The calls of git that `run-ci` makes on the given branch: stage the
/// changes, make a `chore` commit that may be empty and ends with the token
/// for a full build, and push the branch.
pub fn exec(branch: &Branch) -> (plan: Vec<Invocation>)
    ensures
        calls(plan@) == run_ci_calls(
            commit_message_of(
                branch@.code,
                branch@.is_special,
                CommitType::Chore,
                marker(),
                true,
                Convention::Plain,
            ),
        ),
{
    let mut plan = branch.commit(CommitType::Chore, "\u{8}", true, true, true);
    let ghost before = calls(plan@);
    plan.push(git_push());
    assert(calls(plan@) =~= before.push((Step::Push, seq!["push"@, "-u"@, "origin"@, "HEAD"@])));
    plan
}

/// The calls of git that `run-ci` makes for a commit message.
pub open spec fn run_ci_calls(message: Seq<char>) -> Seq<(Step, Seq<Seq<char>>)> {
    commit_calls(message, true, true).push(
        (Step::Push, seq!["push"@, "-u"@, "origin"@, "HEAD"@]),
    )
}

/// **`run-ci` ends at its first failure.**  Each of the three steps is
/// followed by the next only if it went well.  A step that could not be
/// started ends the command as a failure of git; a step that failed ends it
/// as a failure of `add`, of `commit`, or, for the push, of git.  After a
/// push that went well nothing is left to run.
pub proof fn lemma_run_ci_stops_at_failure(
    plan: Seq<Invocation>,
    message: Seq<char>,
    i: int,
    started: bool,
    code: Option<i32>,
)
    requires
        calls(plan) == run_ci_calls(message),
        0 <= i < 3,
    ensures
        step_after(plan, i, started, code) == (if !started {
            Err::<Option<int>, ErrorView>(ErrorView::Git)
        } else if code == Some(0i32) {
            if i < 2 {
                Ok(Some(i + 1))
            } else {
                Ok(None)
            }
        } else if i == 0 {
            Err(ErrorView::Add)
        } else if i == 1 {
            Err(ErrorView::Commit)
        } else {
            Err(ErrorView::Git)
        }),
{
    let expected = run_ci_calls(message);
    assert(plan.len() == expected.len());
    assert(calls(plan)[i] == expected[i]);
}

} // verus!
