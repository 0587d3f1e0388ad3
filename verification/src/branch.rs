//! A branch under the plain convention, `feature/1234_title`.

use crate::commit_types::CommitType;
use crate::errors::{Error, ErrorView};
use crate::git::{
    add_all, calls, commit, output_text, step_after, text_of, Invocation, Outcome, Step,
};
use crate::naming::{
    commit_message, commit_message_of, lemma_parsed_well_formed, make_raw_name, parse, parsed,
    raw_name_of, validate, is_valid_name, Convention, Parts,
};
use crate::text::{trim, trimmed};
use vstd::prelude::*;

verus! {

/// A branch, read from its name.  There is no way to change one.
#[derive(PartialEq, Debug)]
pub struct Branch {
    branch_type: String,
    branch_code: String,
    branch_title: String,
    is_special: bool,
}

impl View for Branch {
    type V = Parts;

    closed spec fn view(&self) -> Parts {
        Parts {
            branch_type: self.branch_type@,
            code: self.branch_code@,
            title: self.branch_title@,
            is_special: self.is_special,
        }
    }
}

/// The branch that the answer to `git branch --show-current` names: the
/// error of the call if it failed, else the branch that the printed text
/// names once the white space around it is removed.
pub open spec fn current_branch_of(
    started: bool,
    code: Option<i32>,
    stdout: Seq<u8>,
    convention: Convention,
) -> Result<Parts, ErrorView> {
    match text_of(Step::CurrentBranch, started, code, stdout) {
        Err(e) => Err(e),
        Ok(text) => match parsed(trimmed(text), convention) {
            Some(parts) => Ok(parts),
            None => Err(ErrorView::NameFormat),
        },
    }
}

/// The calls of git that make a commit: `git add .` first if the changes
/// are to be staged, then `git commit` with the message.
pub open spec fn commit_calls(message: Seq<char>, add: bool, allow_empty: bool) -> Seq<
    (Step, Seq<Seq<char>>),
> {
    let staging = if add {
        seq![(Step::Add, seq!["add"@, "."@])]
    } else {
        Seq::empty()
    };
    let committing = if allow_empty {
        seq!["commit"@, "--allow-empty"@, "-m"@, message]
    } else {
        seq!["commit"@, "-m"@, message]
    };
    staging.push((Step::Commit, committing))
}

impl Branch {
    #[verifier::type_invariant]
    spec fn well_formed(self) -> bool {
        self@.well_formed()
    }

    /// Whether `name` is a valid name under the plain convention.
    pub fn validate_name(name: &str) -> (valid: bool)
        ensures
            valid == is_valid_name(name@, Convention::Plain),
    {
        validate(name, Convention::Plain)
    }

    /// Reads a name under the plain convention as its type, code, title
    /// and whether it is special.
    pub fn parse_name(name: &str) -> (r: Result<(String, String, String, bool), Error>)
        ensures
            match r {
                Ok((branch_type, code, title, is_special)) => parsed(name@, Convention::Plain)
                    == Some(
                    Parts { branch_type: branch_type@, code: code@, title: title@, is_special },
                ),
                Err(e) => parsed(name@, Convention::Plain) is None && e@ == ErrorView::NameFormat,
            },
    {
        parse(name, Convention::Plain)
    }

    /// Writes the raw name of a branch under the plain convention.
    pub fn make_raw_name(branch_type: &str, branch_code: &str, branch_name: &str) -> (r: Result<
        String,
        Error,
    >)
        ensures
            match r {
                Ok(raw_name) => raw_name_of(
                    branch_type@,
                    branch_code@,
                    branch_name@,
                    Convention::Plain,
                ) == Ok::<Seq<char>, ErrorView>(raw_name@),
                Err(e) => raw_name_of(branch_type@, branch_code@, branch_name@, Convention::Plain)
                    == Err::<Seq<char>, ErrorView>(e@),
            },
    {
        make_raw_name(branch_type, branch_code, branch_name, Convention::Plain)
    }

    /// The branch that a name stands for, or [`Error::NameFormat`] if the
    /// name is not valid.
    pub fn from(name: &str) -> (r: Result<Branch, Error>)
        ensures
            match r {
                Ok(branch) => parsed(name@, Convention::Plain) == Some(branch@),
                Err(e) => parsed(name@, Convention::Plain) is None && e@ == ErrorView::NameFormat,
            },
    {
        match parse(name, Convention::Plain) {
            Ok((branch_type, branch_code, branch_title, is_special)) => {
                proof {
                    lemma_parsed_well_formed(name@, Convention::Plain);
                }
                Ok(Branch { branch_type, branch_code, branch_title, is_special })
            },
            Err(e) => Err(e),
        }
    }

    /// The current branch, from the answer to `git branch --show-current`.
    pub fn new(outcome: Outcome) -> (r: Result<Branch, Error>)
        ensures
            match r {
                Ok(branch) => current_branch_of(
                    outcome.started,
                    outcome.code,
                    outcome.stdout@,
                    Convention::Plain,
                ) == Ok::<Parts, ErrorView>(branch@),
                Err(e) => current_branch_of(
                    outcome.started,
                    outcome.code,
                    outcome.stdout@,
                    Convention::Plain,
                ) == Err::<Parts, ErrorView>(e@),
            },
    {
        match output_text(Step::CurrentBranch, outcome) {
            Err(e) => Err(e),
            Ok(text) => Branch::from(trim(text.as_str())),
        }
    }

    /// The code of the branch; empty for a special branch.  Every branch
    /// is well formed, whichever way it was made.
    pub fn code(&self) -> (code: &str)
        ensures
            code@ == self@.code,
            self@.well_formed(),
    {
        proof {
            use_type_invariant(self);
        }
        self.branch_code.as_str()
    }

    /// The commit message for this branch.
    pub fn make_commit_message(&self, commit_type: CommitType, message: &str, run_ci: bool) -> (text:
        String)
        ensures
            text@ == commit_message_of(
                self@.code,
                self@.is_special,
                commit_type,
                message@,
                run_ci,
                Convention::Plain,
            ),
    {
        commit_message(
            self.branch_code.as_str(),
            self.is_special,
            commit_type,
            message,
            run_ci,
            Convention::Plain,
        )
    }

    /// The calls of git that commit to this branch: `git add .` if `add`
    /// is set, then `git commit` with the message written for this branch.
    pub fn commit(
        &self,
        commit_type: CommitType,
        message: &str,
        add: bool,
        allow_empty: bool,
        run_ci: bool,
    ) -> (plan: Vec<Invocation>)
        ensures
            calls(plan@) == commit_calls(
                commit_message_of(
                    self@.code,
                    self@.is_special,
                    commit_type,
                    message@,
                    run_ci,
                    Convention::Plain,
                ),
                add,
                allow_empty,
            ),
    {
        let text = self.make_commit_message(commit_type, message, run_ci);
        let mut plan: Vec<Invocation> = Vec::new();
        if add {
            plan.push(add_all());
        }
        plan.push(commit(text.as_str(), allow_empty));
        assert(calls(plan@) =~= commit_calls(text@, add, allow_empty));
        plan
    }
}

/// **A commit ends at its first failure.**  With staging, a `git add` that
/// could not be started ends the commit as a failure of git, and one that
/// failed ends it as a failure of `add`; either way no `git commit` follows.
/// Only an `add` that went well is followed by the commit, whose failure is
/// a failure of git if it could not be started and of `commit` otherwise.
/// Without staging the commit is the only step.
pub proof fn lemma_commit_stops_at_failure(
    plan: Seq<Invocation>,
    message: Seq<char>,
    add: bool,
    allow_empty: bool,
    started: bool,
    code: Option<i32>,
)
    requires
        calls(plan) == commit_calls(message, add, allow_empty),
    ensures
        add ==> step_after(plan, 0, started, code) == (if !started {
            Err::<Option<int>, ErrorView>(ErrorView::Git)
        } else if code == Some(0i32) {
            Ok(Some(1int))
        } else {
            Err(ErrorView::Add)
        }),
        step_after(plan, if add { 1int } else { 0int }, started, code) == (if !started {
            Err::<Option<int>, ErrorView>(ErrorView::Git)
        } else if code == Some(0i32) {
            Ok(None)
        } else {
            Err(ErrorView::Commit)
        }),
{
    let expected = commit_calls(message, add, allow_empty);
    assert(plan.len() == expected.len());
    if add {
        assert(calls(plan)[0] == expected[0]);
        assert(calls(plan)[1] == expected[1]);
    } else {
        assert(calls(plan)[0] == expected[0]);
    }
}

} // verus!
