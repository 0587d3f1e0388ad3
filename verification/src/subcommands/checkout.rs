//! `checkout`: switch to a special branch by its name, or to any other
//! branch by its code.

use crate::branches::{
    carries_code, filter_branches_by_code, lemma_no_match, lemma_single_match, with_code,
};
use crate::errors::{Error, ErrorView};
use crate::git::{call, checkout_literal, list_branches, texts, Invocation, Step};
use crate::naming::{is_special, is_special_name, lemma_parsed_well_formed, Convention};
use crate::text::{all_digits, only_digits};
use vstd::prelude::*;
use vstd::string::StringExecFns;

verus! {

/// What `checkout` does first.
#[derive(Debug)]
pub enum Plan {
    /// Run this call, and the branch is checked out.
    Checkout(Invocation),
    /// Run this call to list the branches, and hand the list to
    /// [`checkout_with_code`].
    ListFirst(Invocation),
}

/// The branch that a code selects from a list: the first one that carries
/// the code.  A code that holds anything but ASCII digits is refused.  If no
/// branch carries the code, the code is reported as not found.
pub open spec fn selected(code: Seq<char>, branches: Seq<Seq<char>>) -> Result<
    Seq<char>,
    ErrorView,
> {
    let matches = with_code(branches, code);
    if !all_digits(code) {
        Err(ErrorView::BranchCode)
    } else if matches.len() == 0 {
        Err(ErrorView::BranchNotFoundOnCheckout(code))
    } else {
        Ok(matches[0])
    }
}

/// Decides how to check out what the user named.  A special name is checked
/// out as it stands.  Anything else is taken as a code: if it holds
/// anything but ASCII digits it is refused with [`Error::BranchCode`]
/// before git is asked anything, else the branches have to be listed first.
pub fn exec(input: &str) -> (r: Result<Plan, Error>)
    ensures
        match r {
            Ok(Plan::Checkout(inv)) => is_special_name(input@) && call(inv) == (
                Step::Checkout,
                seq!["checkout"@, input@],
            ),
            Ok(Plan::ListFirst(inv)) => !is_special_name(input@) && all_digits(input@) && call(inv)
                == (Step::ListBranches, seq!["branch"@, "-a"@]),
            Err(e) => !is_special_name(input@) && !all_digits(input@) && e@
                == ErrorView::BranchCode,
        },
{
    if is_special(input) {
        Ok(Plan::Checkout(checkout_literal(input)))
    } else if !only_digits(input) {
        Err(Error::BranchCode)
    } else {
        Ok(Plan::ListFirst(list_branches()))
    }
}

/// The call that checks out the branch with the given code: the first
/// branch of the list that carries it.  A code that holds anything but
/// ASCII digits is refused with [`Error::BranchCode`].  If no branch carries
/// the code, the result is [`Error::BranchNotFoundOnCheckout`] with the
/// code.
pub fn checkout_with_code(branch_code: &str, branches: &Vec<String>) -> (r: Result<
    Invocation,
    Error,
>)
    ensures
        match r {
            Ok(inv) => selected(branch_code@, texts(branches@)) is Ok && call(inv) == (
                Step::Checkout,
                seq!["checkout"@, selected(branch_code@, texts(branches@))->Ok_0],
            ),
            Err(e) => selected(branch_code@, texts(branches@)) == Err::<Seq<char>, ErrorView>(
                e@,
            ),
        },
{
    if !only_digits(branch_code) {
        return Err(Error::BranchCode);
    }
    let matches = filter_branches_by_code(branches, branch_code);
    if matches.len() == 0 {
        return Err(Error::BranchNotFoundOnCheckout(String::from_str(branch_code)));
    }
    let first_match = matches[0];
    assert(matches@.map_values(|b: &String| b@)[0] == first_match@);
    Ok(checkout_literal(first_match.as_str()))
}

/// **Checkout by code, one match.**  If exactly one branch of the list
/// carries the code, that branch is the one checked out.
pub proof fn lemma_checkout_single_match(code: Seq<char>, branches: Seq<Seq<char>>, at: int)
    requires
        0 <= at < branches.len(),
        carries_code(branches[at], code),
        forall|j: int| 0 <= j < branches.len() && j != at ==> !carries_code(branches[j], code),
    ensures
        selected(code, branches) == Ok::<Seq<char>, ErrorView>(branches[at]),
{
    lemma_parsed_well_formed(branches[at], Convention::Plain);
    lemma_single_match(branches, code, at);
}

/// **Checkout by code, no match.**  If no branch of the list carries the
/// code, the checkout fails, and the error carries the code that was asked
/// for.
pub proof fn lemma_checkout_no_match(code: Seq<char>, branches: Seq<Seq<char>>)
    requires
        all_digits(code),
        forall|j: int| 0 <= j < branches.len() ==> !carries_code(branches[j], code),
    ensures
        selected(code, branches) == Err::<Seq<char>, ErrorView>(
            ErrorView::BranchNotFoundOnCheckout(code),
        ),
{
    lemma_no_match(branches, code);
}

/// **Checkout of what is no code.**  What holds anything but ASCII digits
/// is refused as a code, whatever the branches are, and no branch carries
/// it.
pub proof fn lemma_checkout_no_code(code: Seq<char>, branches: Seq<Seq<char>>)
    requires
        !all_digits(code),
    ensures
        selected(code, branches) == Err::<Seq<char>, ErrorView>(ErrorView::BranchCode),
        forall|j: int| 0 <= j < branches.len() ==> !carries_code(#[trigger] branches[j], code),
{
    assert forall|j: int| 0 <= j < branches.len() implies !carries_code(
        #[trigger] branches[j],
        code,
    ) by {
        if carries_code(branches[j], code) {
            lemma_parsed_well_formed(branches[j], Convention::Plain);
        }
    }
}

} // verus!
