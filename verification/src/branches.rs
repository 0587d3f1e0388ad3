//! Lists of branch names: reading the list that git prints, and picking
//! the branches that carry a code.

use crate::branch::Branch;
use crate::errors::{Error, ErrorView};
use crate::git::{output_text, text_of, texts, Outcome, Step};
use crate::naming::{parsed, Convention};
use crate::text::{
    chars_of, find, first_occurrence, lemma_first_occurrence, lines, same_text, split_lines,
    trim, trimmed,
};
use vstd::prelude::*;
use vstd::string::{StrSliceExecFns, StringExecFns};

verus! {

/// The branch that one line of `git branch -a` names.  White space around
/// the line does not count.  On the line of the current branch, which
/// starts with an asterisk, the name follows the asterisk and the character
/// after it.  On any other line the name ends where an arrow (` -> `)
/// starts, if there is one: a symbolic reference is listed by its own name
/// and not by what it points to.
pub open spec fn listed_name(line: Seq<char>) -> Seq<char> {
    let entry = trimmed(line);
    if entry.len() > 0 && entry[0] == '*' {
        if entry.len() >= 2 {
            entry.skip(2)
        } else {
            Seq::empty()
        }
    } else {
        entry.take(first_occurrence(entry, " -> "@))
    }
}

/// The branches that the output of `git branch -a` names, one for each
/// line of the output without the white space around it.
pub open spec fn listed_names(output: Seq<char>) -> Seq<Seq<char>> {
    lines(trimmed(output)).map_values(|line: Seq<char>| listed_name(line))
}

/// The branches that the answer to `git branch -a` names, or the error of
/// the call.
pub open spec fn branches_of(started: bool, code: Option<i32>, stdout: Seq<u8>) -> Result<
    Seq<Seq<char>>,
    ErrorView,
> {
    match text_of(Step::ListBranches, started, code, stdout) {
        Err(e) => Err(e),
        Ok(text) => Ok(listed_names(text)),
    }
}

/// `name` is a valid name of a branch with the given code.  A special
/// branch has the empty code.
pub open spec fn carries_code(name: Seq<char>, code: Seq<char>) -> bool {
    match parsed(name, Convention::Plain) {
        Some(parts) => parts.code == code,
        None => false,
    }
}

/// The names among `branches` that carry the given code, in their order.
pub open spec fn with_code(branches: Seq<Seq<char>>, code: Seq<char>) -> Seq<Seq<char>> {
    branches.filter(|name: Seq<char>| carries_code(name, code))
}

/// The branch that one line of `git branch -a` names.
pub fn branch_of_line(line: &str) -> (name: String)
    ensures
        name@ == listed_name(line@),
{
    let entry = trim(line);
    let cs = chars_of(entry);
    if cs.len() > 0 && cs[0] == '*' {
        if cs.len() >= 2 {
            let name = entry.substring_char(2, cs.len());
            assert(entry@.subrange(2, entry@.len() as int) =~= entry@.skip(2));
            String::from_str(name)
        } else {
            String::new()
        }
    } else {
        let arrow = chars_of(" -> ");
        let end = find(&cs, &arrow);
        proof {
            lemma_first_occurrence(entry@, " -> "@);
            assert(entry@.subrange(0, end as int) =~= entry@.take(end as int));
        }
        String::from_str(entry.substring_char(0, end))
    }
}

/// The branches that the answer to `git branch -a` names.  A call that
/// failed is reported as [`Error::Git`], output that is not valid UTF-8 as
/// [`Error::StringFormat`].
pub fn get_branches(outcome: Outcome) -> (r: Result<Vec<String>, Error>)
    ensures
        match r {
            Ok(branches) => branches_of(outcome.started, outcome.code, outcome.stdout@) == Ok::<
                Seq<Seq<char>>,
                ErrorView,
            >(texts(branches@)),
            Err(e) => branches_of(outcome.started, outcome.code, outcome.stdout@) == Err::<
                Seq<Seq<char>>,
                ErrorView,
            >(e@),
        },
{
    let text = match output_text(Step::ListBranches, outcome) {
        Ok(text) => text,
        Err(e) => {
            return Err(e);
        },
    };
    let pieces = split_lines(trim(text.as_str()));
    let ghost all = lines(trimmed(text@));
    let mut branches: Vec<String> = Vec::new();
    let mut i: usize = 0;
    while i < pieces.len()
        invariant
            i <= pieces.len(),
            pieces@.len() == all.len(),
            forall|k: int| 0 <= k < pieces@.len() ==> (#[trigger] pieces@[k])@ == all[k],
            branches@.len() == i,
            forall|k: int| 0 <= k < i ==> (#[trigger] branches@[k])@ == listed_name(all[k]),
        decreases pieces.len() - i,
    {
        branches.push(branch_of_line(pieces[i]));
        i += 1;
    }
    assert(texts(branches@) =~= listed_names(text@));
    Ok(branches)
}

/// The branches of a list whose name is valid and carries the given code,
/// in the order of the list.
pub fn filter_branches_by_code<'a>(branches: &'a Vec<String>, branch_code: &str) -> (matches: Vec<
    &'a String,
>)
    ensures
        matches@.map_values(|b: &String| b@) == with_code(texts(branches@), branch_code@),
{
    let ghost wanted = |name: Seq<char>| carries_code(name, branch_code@);
    let mut matches: Vec<&'a String> = Vec::new();
    let mut i: usize = 0;
    assert(texts(branches@).take(0) =~= Seq::<Seq<char>>::empty());
    assert(Seq::<Seq<char>>::empty().filter(wanted) =~= Seq::<Seq<char>>::empty()) by {
        reveal(Seq::filter);
    }
    while i < branches.len()
        invariant
            i <= branches.len(),
            wanted == |name: Seq<char>| carries_code(name, branch_code@),
            matches@.map_values(|b: &String| b@) == texts(branches@).take(i as int).filter(wanted),
        decreases branches.len() - i,
    {
        let ghost seen = texts(branches@).take(i as int);
        let ghost before = matches@.map_values(|b: &String| b@);
        let name = &branches[i];
        let carries = match Branch::from(name.as_str()) {
            Ok(branch) => same_text(branch.code(), branch_code),
            Err(_) => false,
        };
        proof {
            assert(texts(branches@).take(i + 1) =~= seen.push(name@));
            seen.lemma_filter_push(name@, wanted);
            assert(carries == wanted(name@));
        }
        if carries {
            matches.push(name);
            assert(matches@.map_values(|b: &String| b@) =~= before.push(name@));
        }
        i += 1;
    }
    assert(texts(branches@).take(branches.len() as int) =~= texts(branches@));
    matches
}

/// **One branch with the code.**  In a list in which exactly one branch
/// carries a code, that branch alone is what the code selects.
pub proof fn lemma_single_match(branches: Seq<Seq<char>>, code: Seq<char>, at: int)
    requires
        0 <= at < branches.len(),
        carries_code(branches[at], code),
        forall|j: int| 0 <= j < branches.len() && j != at ==> !carries_code(branches[j], code),
    ensures
        with_code(branches, code) == seq![branches[at]],
    decreases branches.len(),
{
    let wanted = |name: Seq<char>| carries_code(name, code);
    let front = branches.drop_last();
    assert(branches =~= front.push(branches.last()));
    front.lemma_filter_push(branches.last(), wanted);
    if at == branches.len() - 1 {
        lemma_no_match(front, code);
        assert(Seq::<Seq<char>>::empty().push(branches[at]) =~= seq![branches[at]]);
    } else {
        lemma_single_match(front, code, at);
    }
}

/// **No branch with the code.**  In a list in which no branch carries a
/// code, the code selects nothing.
pub proof fn lemma_no_match(branches: Seq<Seq<char>>, code: Seq<char>)
    requires
        forall|j: int| 0 <= j < branches.len() ==> !carries_code(branches[j], code),
    ensures
        with_code(branches, code) == Seq::<Seq<char>>::empty(),
    decreases branches.len(),
{
    let wanted = |name: Seq<char>| carries_code(name, code);
    if branches.len() == 0 {
        reveal(Seq::filter);
        assert(branches.filter(wanted) =~= Seq::<Seq<char>>::empty());
    } else {
        let front = branches.drop_last();
        assert(branches =~= front.push(branches.last()));
        front.lemma_filter_push(branches.last(), wanted);
        lemma_no_match(front, code);
    }
}

} // verus!
