//! `new`: create a branch that follows the convention, and switch to it.

use crate::args::NewArgs;
use crate::branch::Branch;
use crate::branches::{filter_branches_by_code, with_code};
use crate::errors::{Error, ErrorView};
use crate::git::{call, create_branch, list_branches, texts, Invocation, Step};
use crate::naming::{is_special, is_special_name, raw_name_of, Convention};
use crate::text::same_text;
use vstd::prelude::*;
use vstd::string::StringExecFns;

verus! {

/// What `new` does first.
#[derive(Debug)]
pub enum Plan {
    /// Run this call, and the branch is created.
    Create(Invocation),
    /// Run `listing` to list the branches, and hand the list to
    /// [`create_from_code`] with the name of the new branch and the code of
    /// the branch to start from.
    ListFirst { listing: Invocation, raw_name: String, code: String },
}

/// Where a new branch starts.
pub enum Origin {
    /// From the branch of this name.
    Named(Seq<char>),
    /// From the first branch that carries this code.
    Coded(Seq<char>),
    /// From the branch that is checked out.
    Current,
}

/// The branch that a new branch of the given type starts from when
/// nothing else is asked for: features start from `develop`, hotfixes from
/// `master`.
pub open spec fn default_source(branch_type: Seq<char>) -> Option<Seq<char>> {
    if branch_type == "feature"@ {
        Some("develop"@)
    } else if branch_type == "hotfix"@ {
        Some("master"@)
    } else {
        None
    }
}

/// Where the new branch is to start.  A source that is given wins: it is
/// taken as a name if the user says so or if it is a special name, and as a
/// code otherwise.  Without a source the branch starts from the current
/// branch if that is asked for, and from the default of its type if not; a
/// type without a default is refused.
pub open spec fn origin_of(args: NewArgs) -> Result<Origin, ErrorView> {
    match args.source {
        Some(source) => if args.literal_source || is_special_name(source@) {
            Ok(Origin::Named(source@))
        } else {
            Ok(Origin::Coded(source@))
        },
        None => if args.from_current {
            Ok(Origin::Current)
        } else {
            match default_source(args.branch_type@) {
                Some(source) => Ok(Origin::Named(source)),
                None => Err(ErrorView::InvalidBranchType(args.branch_type@)),
            }
        },
    }
}

/// The name of the new branch and where it starts, or the error that the
/// arguments are refused with.  The name is checked before the origin.
pub open spec fn planned(args: NewArgs) -> Result<(Seq<char>, Origin), ErrorView> {
    match raw_name_of(args.branch_type@, args.branch_code@, args.branch_name@, Convention::Plain) {
        Err(e) => Err(e),
        Ok(raw_name) => match origin_of(args) {
            Err(e) => Err(e),
            Ok(origin) => Ok((raw_name, origin)),
        },
    }
}

/// The arguments that git creates a branch with.
pub open spec fn creation(raw_name: Seq<char>, source: Option<Seq<char>>) -> (
    Step,
    Seq<Seq<char>>,
) {
    match source {
        Some(source) => (Step::Checkout, seq!["checkout"@, "-b"@, raw_name, source]),
        None => (Step::Checkout, seq!["checkout"@, "-b"@, raw_name]),
    }
}

/// The branch that a code selects as the start of a new branch: the first
/// of the list that carries the code.
pub open spec fn source_with_code(code: Seq<char>, branches: Seq<Seq<char>>) -> Result<
    Seq<char>,
    ErrorView,
> {
    let matches = with_code(branches, code);
    if matches.len() == 0 {
        Err(ErrorView::BranchNotFoundOnCheckout(code))
    } else {
        Ok(matches[0])
    }
}

/// Decides how to create the branch that the arguments describe.
pub fn exec(args: &NewArgs) -> (r: Result<Plan, Error>)
    ensures
        match r {
            Ok(Plan::Create(inv)) => match planned(*args) {
                Ok((raw_name, Origin::Named(source))) => call(inv) == creation(
                    raw_name,
                    Some(source),
                ),
                Ok((raw_name, Origin::Current)) => call(inv) == creation(raw_name, None),
                _ => false,
            },
            Ok(Plan::ListFirst { listing, raw_name, code }) => planned(*args) == Ok::<
                (Seq<char>, Origin),
                ErrorView,
            >((raw_name@, Origin::Coded(code@))) && call(listing) == (
                Step::ListBranches,
                seq!["branch"@, "-a"@],
            ),
            Err(e) => planned(*args) == Err::<(Seq<char>, Origin), ErrorView>(e@),
        },
{
    let branch_type = args.branch_type.as_str();
    let raw_name = match Branch::make_raw_name(
        branch_type,
        args.branch_code.as_str(),
        args.branch_name.as_str(),
    ) {
        Ok(raw_name) => raw_name,
        Err(e) => {
            return Err(e);
        },
    };
    match &args.source {
        Some(source) => {
            if args.literal_source || is_special(source.as_str()) {
                Ok(Plan::Create(create_branch(raw_name.as_str(), Some(source.as_str()))))
            } else {
                Ok(
                    Plan::ListFirst {
                        listing: list_branches(),
                        raw_name,
                        code: String::from_str(source.as_str()),
                    },
                )
            }
        },
        None => {
            if args.from_current {
                Ok(Plan::Create(create_branch(raw_name.as_str(), None)))
            } else if same_text(branch_type, "feature") {
                Ok(Plan::Create(create_branch(raw_name.as_str(), Some("develop"))))
            } else if same_text(branch_type, "hotfix") {
                Ok(Plan::Create(create_branch(raw_name.as_str(), Some("master"))))
            } else {
                Err(Error::InvalidBranchType(String::from_str(branch_type)))
            }
        },
    }
}

/// The call that creates the branch `raw_name` from the branch with the
/// given code: the first branch of the list that carries it.  If no branch
/// does, the result is [`Error::BranchNotFoundOnCheckout`] with the code.
pub fn create_from_code(raw_name: &str, code: &str, branches: &Vec<String>) -> (r: Result<
    Invocation,
    Error,
>)
    ensures
        match r {
            Ok(inv) => source_with_code(code@, texts(branches@)) is Ok && call(inv) == creation(
                raw_name@,
                Some(source_with_code(code@, texts(branches@))->Ok_0),
            ),
            Err(e) => source_with_code(code@, texts(branches@)) == Err::<Seq<char>, ErrorView>(
                e@,
            ),
        },
{
    let matches = filter_branches_by_code(branches, code);
    if matches.len() == 0 {
        return Err(Error::BranchNotFoundOnCheckout(String::from_str(code)));
    }
    let first_match = matches[0];
    assert(matches@.map_values(|b: &String| b@)[0] == first_match@);
    Ok(create_branch(raw_name, Some(first_match.as_str())))
}

} // verus!
