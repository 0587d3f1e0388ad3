//! The one error type of the crate, and the text shown for each error.

use vstd::prelude::*;
use vstd::string::StringExecFns;

verus! {

/// Everything that can go wrong in a command.
#[derive(Debug, Clone, PartialEq)]
pub enum Error {
    /// A branch name does not follow the naming convention.
    NameFormat,
    /// What git printed is not valid UTF-8.
    StringFormat,
    /// `git add` reported a failure.
    Add,
    /// git could not be started, or a git call other than `add` and `commit`
    /// reported a failure.
    Git,
    /// The commit type is not one of the known ones.
    CommitType,
    /// `git commit` reported a failure.
    Commit,
    /// A branch code holds something else than ASCII digits.
    BranchCode,
    /// No branch carries the given code.
    BranchNotFoundOnCheckout(String),
    /// The given branch type is not one of the known ones.
    InvalidBranchType(String),
    /// The named command-line flags cannot be combined.
    IncompatibleArguments(Vec<String>),
}

/// An [`Error`] with its strings as character sequences.
pub enum ErrorView {
    NameFormat,
    StringFormat,
    Add,
    Git,
    CommitType,
    Commit,
    BranchCode,
    BranchNotFoundOnCheckout(Seq<char>),
    InvalidBranchType(Seq<char>),
    IncompatibleArguments(Seq<Seq<char>>),
}

impl View for Error {
    type V = ErrorView;

    open spec fn view(&self) -> ErrorView {
        match self {
            Error::NameFormat => ErrorView::NameFormat,
            Error::StringFormat => ErrorView::StringFormat,
            Error::Add => ErrorView::Add,
            Error::Git => ErrorView::Git,
            Error::CommitType => ErrorView::CommitType,
            Error::Commit => ErrorView::Commit,
            Error::BranchCode => ErrorView::BranchCode,
            Error::BranchNotFoundOnCheckout(code) => ErrorView::BranchNotFoundOnCheckout(code@),
            Error::InvalidBranchType(branch_type) => ErrorView::InvalidBranchType(branch_type@),
            Error::IncompatibleArguments(flags) => ErrorView::IncompatibleArguments(
                flags@.map_values(|f: String| f@),
            ),
        }
    }
}

/// The items of `parts` in order, with `sep` between each two neighbours.
pub open spec fn joined(parts: Seq<Seq<char>>, sep: Seq<char>) -> Seq<char>
    decreases parts.len(),
{
    if parts.len() == 0 {
        Seq::empty()
    } else if parts.len() == 1 {
        parts[0]
    } else {
        joined(parts.drop_last(), sep) + sep + parts.last()
    }
}

/// The text shown to the user for an error.
pub open spec fn message_of(e: ErrorView) -> Seq<char> {
    match e {
        ErrorView::NameFormat => "Branch name is in an invalid format."@,
        ErrorView::StringFormat => "Branch name has unsupported character or is corrupted."@,
        ErrorView::Add => "Some error occurred while running git add."@,
        ErrorView::Git => "Some error happened with git. Make sure git is installed correctly."@,
        ErrorView::CommitType => "Invalid commit type."@,
        ErrorView::Commit => "Some error happened while committing."@,
        ErrorView::BranchCode => "Invalid branch code."@,
        ErrorView::BranchNotFoundOnCheckout(code) => "Branch with the code "@ + code
            + " does not exists"@,
        ErrorView::InvalidBranchType(branch_type) => "Branch type "@ + branch_type
            + " is invalid"@,
        ErrorView::IncompatibleArguments(flags) => "Incompatible arguments: "@ + joined(
            flags,
            ", "@,
        ),
    }
}

/// Joins strings with a separator.
pub fn join(parts: &Vec<String>, sep: &str) -> (out: String)
    ensures
        out@ == joined(parts@.map_values(|p: String| p@), sep@),
{
    let ghost views = parts@.map_values(|p: String| p@);
    let mut out = String::new();
    let mut i: usize = 0;
    while i < parts.len()
        invariant
            i <= parts.len(),
            views == parts@.map_values(|p: String| p@),
            out@ == joined(views.take(i as int), sep@),
        decreases parts.len() - i,
    {
        proof {
            let next = views.take(i + 1);
            assert(next.drop_last() =~= views.take(i as int));
            assert(next.last() == parts@[i as int]@);
            if i == 0 {
                assert(out@ + parts@[0]@ =~= parts@[0]@);
            }
        }
        if i > 0 {
            out.append(sep);
        }
        out.append(parts[i].as_str());
        i += 1;
    }
    assert(views.take(parts.len() as int) =~= views);
    out
}

impl Error {
    /// The text shown to the user for this error.
    pub fn message(&self) -> (text: String)
        ensures
            text@ == message_of(self@),
    {
        match self {
            Error::NameFormat => String::from_str("Branch name is in an invalid format."),
            Error::StringFormat => String::from_str(
                "Branch name has unsupported character or is corrupted.",
            ),
            Error::Add => String::from_str("Some error occurred while running git add."),
            Error::Git => String::from_str(
                "Some error happened with git. Make sure git is installed correctly.",
            ),
            Error::CommitType => String::from_str("Invalid commit type."),
            Error::Commit => String::from_str("Some error happened while committing."),
            Error::BranchCode => String::from_str("Invalid branch code."),
            Error::BranchNotFoundOnCheckout(code) => {
                let mut text = String::from_str("Branch with the code ");
                text.append(code.as_str());
                text.append(" does not exists");
                text
            },
            Error::InvalidBranchType(branch_type) => {
                let mut text = String::from_str("Branch type ");
                text.append(branch_type.as_str());
                text.append(" is invalid");
                text
            },
            Error::IncompatibleArguments(flags) => {
                let mut text = String::from_str("Incompatible arguments: ");
                let list = join(flags, ", ");
                text.append(list.as_str());
                text
            },
        }
    }
}

} // verus!
