//! What is asked of git, and what is made of its answers.
//!
//! Nothing here runs git.  A command is planned as a list of
//! [`Invocation`]s; whoever runs them reports each result as an
//! [`Outcome`], and [`check`] and [`output_text`] say what the result means.

use crate::errors::{Error, ErrorView};
use vstd::prelude::*;
use vstd::string::StringExecFns;
use vstd::utf8::{decode_utf8, valid_utf8};

verus! {

/// The purpose of one call of git.
#[derive(Debug, Clone, Copy, PartialEq, Eq)]
pub enum Step {
    /// `git branch --show-current`
    CurrentBranch,
    /// `git branch -a`
    ListBranches,
    /// `git add .`
    Add,
    /// `git commit`
    Commit,
    /// `git checkout`, with or without `-b`
    Checkout,
    /// `git push -u origin HEAD`
    Push,
}

/// One call of git: its purpose and the arguments to run git with.
#[derive(Debug)]
pub struct Invocation {
    pub step: Step,
    pub args: Vec<String>,
}

/// What became of one call of git.
#[derive(Debug)]
pub struct Outcome {
    /// Whether the process could be started at all.
    pub started: bool,
    /// The exit code, if the process ended with one.
    pub code: Option<i32>,
    /// What the process wrote to its standard output, if that was captured.
    pub stdout: Vec<u8>,
}

/// The strings of a vector as character sequences.
pub open spec fn texts(v: Seq<String>) -> Seq<Seq<char>> {
    v.map_values(|s: String| s@)
}

/// The purpose and the arguments of a call of git.
pub open spec fn call(inv: Invocation) -> (Step, Seq<Seq<char>>) {
    (inv.step, texts(inv.args@))
}

/// The purpose and the arguments of each call of a plan, in order.
pub open spec fn calls(plan: Seq<Invocation>) -> Seq<(Step, Seq<Seq<char>>)> {
    plan.map_values(|inv: Invocation| call(inv))
}

/// The error that a call of git ends a command with, if it does.  A
/// process that could not be started is a failure of git as a whole.  A
/// process that ended with anything but exit code 0 failed; the failure is
/// reported under the name of the step for `add` and `commit`, and as a
/// failure of git for every other step.
pub open spec fn failure_of(step: Step, started: bool, code: Option<i32>) -> Option<ErrorView> {
    if !started {
        Some(ErrorView::Git)
    } else if code == Some(0i32) {
        None
    } else {
        match step {
            Step::Add => Some(ErrorView::Add),
            Step::Commit => Some(ErrorView::Commit),
            _ => Some(ErrorView::Git),
        }
    }
}

/// The text that a call of git printed, or the error that the call ends
/// the command with.  A call that failed is reported as [`failure_of`] says,
/// whatever it printed.  Output that is not valid UTF-8 is a string in the
/// wrong format, whichever call printed it.
pub open spec fn text_of(step: Step, started: bool, code: Option<i32>, stdout: Seq<u8>) -> Result<
    Seq<char>,
    ErrorView,
> {
    match failure_of(step, started, code) {
        Some(e) => Err(e),
        None => if valid_utf8(stdout) {
            Ok(decode_utf8(stdout))
        } else {
            Err(ErrorView::StringFormat)
        },
    }
}

/// The error of `String::from_utf8` of the standard library.  Nothing is
/// known of what it holds.
#[verifier::external_type_specification]
#[verifier::external_body]
pub struct ExFromUtf8Error(std::string::FromUtf8Error);

/// `String::from_utf8` of the standard library: it succeeds exactly on
/// valid UTF-8, and the string then holds the characters that the bytes
/// encode.
pub assume_specification[ String::from_utf8 ](bytes: Vec<u8>) -> (r: Result<
    String,
    std::string::FromUtf8Error,
>)
    ensures
        r is Ok <==> valid_utf8(bytes@),
        r is Ok ==> r->Ok_0@ == decode_utf8(bytes@),
;

/// Says whether a call of git went well, and if not, which error ends the
/// command.
pub fn check(step: Step, outcome: &Outcome) -> (r: Result<(), Error>)
    ensures
        match r {
            Ok(_) => failure_of(step, outcome.started, outcome.code) is None,
            Err(e) => failure_of(step, outcome.started, outcome.code) == Some(e@),
        },
{
    if !outcome.started {
        return Err(Error::Git);
    }
    let code: i32 = match outcome.code {
        Some(code) => code,
        None => -1,
    };
    if code == 0 {
        Ok(())
    } else {
        match step {
            Step::Add => Err(Error::Add),
            Step::Commit => Err(Error::Commit),
            _ => Err(Error::Git),
        }
    }
}

/// The text that a call of git printed, if the call went well and printed
/// valid UTF-8.  A failed call gives the error of its step; output that is
/// not valid UTF-8 gives [`Error::StringFormat`].
pub fn output_text(step: Step, outcome: Outcome) -> (r: Result<String, Error>)
    ensures
        match r {
            Ok(text) => text_of(step, outcome.started, outcome.code, outcome.stdout@) == Ok::<
                Seq<char>,
                ErrorView,
            >(text@),
            Err(e) => text_of(step, outcome.started, outcome.code, outcome.stdout@) == Err::<
                Seq<char>,
                ErrorView,
            >(e@),
        },
{
    match check(step, &outcome) {
        Err(e) => Err(e),
        Ok(_) => match String::from_utf8(outcome.stdout) {
            Ok(text) => Ok(text),
            Err(_) => Err(Error::StringFormat),
        },
    }
}

/// What follows step `i` of a plan, given what became of that step.  A
/// step that failed ends the plan with its error, and nothing after it is
/// run.  A step that went well is followed by the next step of the plan, or
/// by nothing if it was the last.  An index beyond the plan names no step,
/// and nothing follows it.
pub open spec fn step_after(plan: Seq<Invocation>, i: int, started: bool, code: Option<i32>) -> Result<
    Option<int>,
    ErrorView,
> {
    if i < 0 || i >= plan.len() {
        Ok(None)
    } else {
        match failure_of(plan[i].step, started, code) {
            Some(e) => Err(e),
            None => if i + 1 < plan.len() {
                Ok(Some(i + 1))
            } else {
                Ok(None)
            },
        }
    }
}

/// The step that a plan starts with: its first, if it has any.
pub fn first_step(plan: &Vec<Invocation>) -> (next: Option<usize>)
    ensures
        match next {
            Some(i) => i == 0 && plan@.len() > 0,
            None => plan@.len() == 0,
        },
{
    if plan.len() > 0 {
        Some(0)
    } else {
        None
    }
}

/// Says what to do once step `i` of a plan has been run: stop with the
/// error of the step if it failed, run the next step if it went well and
/// there is one, and stop with success if there is none.  A plan is run by
/// starting at [`first_step`] and running only what this function names,
/// so that no step is run unless every step before it went well, and the
/// first failure is the result of the whole.
pub fn after_step(plan: &Vec<Invocation>, i: usize, outcome: &Outcome) -> (r: Result<
    Option<usize>,
    Error,
>)
    ensures
        match r {
            Ok(Some(next)) => step_after(plan@, i as int, outcome.started, outcome.code) == Ok::<
                Option<int>,
                ErrorView,
            >(Some(next as int)) && next < plan@.len(),
            Ok(None) => step_after(plan@, i as int, outcome.started, outcome.code) == Ok::<
                Option<int>,
                ErrorView,
            >(None),
            Err(e) => step_after(plan@, i as int, outcome.started, outcome.code) == Err::<
                Option<int>,
                ErrorView,
            >(e@),
        },
{
    if i >= plan.len() {
        return Ok(None);
    }
    match check(plan[i].step, outcome) {
        Err(e) => Err(e),
        Ok(_) => if i + 1 < plan.len() {
            Ok(Some(i + 1))
        } else {
            Ok(None)
        },
    }
}

/// A call of git with the given purpose and arguments.
fn invocation(step: Step, words: &Vec<&str>) -> (inv: Invocation)
    ensures
        inv.step == step,
        texts(inv.args@) == words@.map_values(|w: &str| w@),
{
    let mut args: Vec<String> = Vec::new();
    let mut i: usize = 0;
    while i < words.len()
        invariant
            i <= words.len(),
            texts(args@) == words@.take(i as int).map_values(|w: &str| w@),
        decreases words.len() - i,
    {
        let ghost before = texts(args@);
        args.push(String::from_str(words[i]));
        assert(texts(args@) =~= before.push(words@[i as int]@));
        assert(words@.take(i + 1).map_values(|w: &str| w@) =~= words@.take(i as int).map_values(
            |w: &str| w@,
        ).push(words@[i as int]@));
        i += 1;
    }
    assert(words@.take(words.len() as int) =~= words@);
    Invocation { step, args }
}

/// `git branch --show-current`
pub fn current_branch() -> (inv: Invocation)
    ensures
        call(inv) == (Step::CurrentBranch, seq!["branch"@, "--show-current"@]),
{
    let words: Vec<&str> = vec!["branch", "--show-current"];
    assert(words@.map_values(|w: &str| w@) =~= seq!["branch"@, "--show-current"@]);
    invocation(Step::CurrentBranch, &words)
}

/// `git branch -a`
pub fn list_branches() -> (inv: Invocation)
    ensures
        call(inv) == (Step::ListBranches, seq!["branch"@, "-a"@]),
{
    let words: Vec<&str> = vec!["branch", "-a"];
    assert(words@.map_values(|w: &str| w@) =~= seq!["branch"@, "-a"@]);
    invocation(Step::ListBranches, &words)
}

/// `git add .`
pub fn add_all() -> (inv: Invocation)
    ensures
        call(inv) == (Step::Add, seq!["add"@, "."@]),
{
    let words: Vec<&str> = vec!["add", "."];
    assert(words@.map_values(|w: &str| w@) =~= seq!["add"@, "."@]);
    invocation(Step::Add, &words)
}

/// `git commit -m <message>`, with `--allow-empty` in front of `-m` if an
/// empty commit is allowed.
pub fn commit(message: &str, allow_empty: bool) -> (inv: Invocation)
    ensures
        call(inv) == (Step::Commit, if allow_empty {
            seq!["commit"@, "--allow-empty"@, "-m"@, message@]
        } else {
            seq!["commit"@, "-m"@, message@]
        }),
{
    if allow_empty {
        let words: Vec<&str> = vec!["commit", "--allow-empty", "-m", message];
        assert(words@.map_values(|w: &str| w@) =~= seq![
            "commit"@,
            "--allow-empty"@,
            "-m"@,
            message@,
        ]);
        invocation(Step::Commit, &words)
    } else {
        let words: Vec<&str> = vec!["commit", "-m", message];
        assert(words@.map_values(|w: &str| w@) =~= seq!["commit"@, "-m"@, message@]);
        invocation(Step::Commit, &words)
    }
}

/// `git checkout <name>`
pub fn checkout_literal(branch_name: &str) -> (inv: Invocation)
    ensures
        call(inv) == (Step::Checkout, seq!["checkout"@, branch_name@]),
{
    let words: Vec<&str> = vec!["checkout", branch_name];
    assert(words@.map_values(|w: &str| w@) =~= seq!["checkout"@, branch_name@]);
    invocation(Step::Checkout, &words)
}

/// `git checkout -b <name>`, followed by the branch to start from if one is
/// given.  Without one, git starts from the current branch.
pub fn create_branch(raw_name: &str, source: Option<&str>) -> (inv: Invocation)
    ensures
        call(inv) == (Step::Checkout, match source {
            Some(source) => seq!["checkout"@, "-b"@, raw_name@, source@],
            None => seq!["checkout"@, "-b"@, raw_name@],
        }),
{
    match source {
        Some(source) => {
            let words: Vec<&str> = vec!["checkout", "-b", raw_name, source];
            assert(words@.map_values(|w: &str| w@) =~= seq![
                "checkout"@,
                "-b"@,
                raw_name@,
                source@,
            ]);
            invocation(Step::Checkout, &words)
        },
        None => {
            let words: Vec<&str> = vec!["checkout", "-b", raw_name];
            assert(words@.map_values(|w: &str| w@) =~= seq!["checkout"@, "-b"@, raw_name@]);
            invocation(Step::Checkout, &words)
        },
    }
}

/// `git push -u origin HEAD`
pub fn git_push() -> (inv: Invocation)
    ensures
        call(inv) == (Step::Push, seq!["push"@, "-u"@, "origin"@, "HEAD"@]),
{
    let words: Vec<&str> = vec!["push", "-u", "origin", "HEAD"];
    assert(words@.map_values(|w: &str| w@) =~= seq!["push"@, "-u"@, "origin"@, "HEAD"@]);
    invocation(Step::Push, &words)
}

} // verus!
