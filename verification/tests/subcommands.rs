use sam::args::{CommitArgs, NewArgs};
use sam::branch::Branch;
use sam::errors::Error;
use sam::git::Step;
use sam::subcommands::{checkout, commit, ls, new, run_ci};

fn names(list: &[&str]) -> Vec<String> {
    list.iter().map(|b| b.to_string()).collect()
}

#[test]
fn checkout_of_a_special_name_is_literal() {
    for name in ["develop", "main", "master"] {
        match checkout::exec(name) {
            Ok(checkout::Plan::Checkout(inv)) => {
                assert_eq!(inv.step, Step::Checkout);
                assert_eq!(inv.args, vec!["checkout", name]);
            }
            other => panic!("{} is a special name: {:?}", name, other),
        }
    }
}

#[test]
fn checkout_of_a_code_lists_first() {
    for input in ["12", "", "0", "000123456789"] {
        match checkout::exec(input) {
            Ok(checkout::Plan::ListFirst(inv)) => {
                assert_eq!(inv.step, Step::ListBranches);
                assert_eq!(inv.args, vec!["branch", "-a"]);
            }
            other => panic!("{} is a code: {:?}", input, other),
        }
    }
}

#[test]
fn checkout_of_what_is_no_code_is_refused() {
    let branches = names(&["develop", "feature/12_a", "main"]);
    for input in ["abc", "feature/12_a", "Main", "12a", " 12", "-1", "١٢", "12\n"] {
        assert_eq!(checkout::exec(input).err(), Some(Error::BranchCode), "{:?}", input);
        assert_eq!(checkout::checkout_with_code(input, &branches).err(), Some(Error::BranchCode));
        assert_eq!(checkout::checkout_with_code(input, &Vec::new()).err(), Some(Error::BranchCode));
    }
}

#[test]
fn checkout_by_the_empty_code_takes_the_first_special_branch() {
    let branches = names(&["feature/12_a", "main", "develop"]);
    let inv = checkout::checkout_with_code("", &branches).unwrap();
    assert_eq!(inv.args, vec!["checkout", "main"]);
}

#[test]
fn checkout_by_code_with_one_match() {
    let branches = names(&["develop", "feature/12_a", "hotfix/34_b", "main"]);
    let inv = checkout::checkout_with_code("34", &branches).unwrap();
    assert_eq!(inv.step, Step::Checkout);
    assert_eq!(inv.args, vec!["checkout", "hotfix/34_b"]);
}

#[test]
fn checkout_by_code_takes_the_first_of_several() {
    let branches = names(&["hotfix/12_b", "feature/12_a", "feature/12_c"]);
    let inv = checkout::checkout_with_code("12", &branches).unwrap();
    assert_eq!(inv.args, vec!["checkout", "hotfix/12_b"]);
}

#[test]
fn checkout_by_code_without_a_match() {
    let branches = names(&["develop", "feature/12_a", "feature/1234", "main"]);
    for code in ["34", "1", "1234", "012", "120"] {
        assert_eq!(
            checkout::checkout_with_code(code, &branches).err(),
            Some(Error::BranchNotFoundOnCheckout(code.to_string()))
        );
    }
    assert_eq!(
        checkout::checkout_with_code("12", &Vec::new()).err(),
        Some(Error::BranchNotFoundOnCheckout("12".to_string()))
    );
}

fn new_args(t: &str, c: &str, n: &str, source: Option<&str>, literal: bool, current: bool) -> NewArgs {
    NewArgs {
        branch_type: t.to_string(),
        branch_code: c.to_string(),
        branch_name: n.to_string(),
        source: source.map(|s| s.to_string()),
        literal_source: literal,
        from_current: current,
    }
}

fn created(args: NewArgs) -> Vec<String> {
    match new::exec(&args) {
        Ok(new::Plan::Create(inv)) => {
            assert_eq!(inv.step, Step::Checkout);
            inv.args
        }
        other => panic!("{:?}", other),
    }
}

#[test]
fn new_branch_from_the_default_of_its_type() {
    assert_eq!(created(new_args("feature", "12", "x", None, false, false)), vec!["checkout", "-b", "feature/12_x", "develop"]);
    assert_eq!(created(new_args("hotfix", "12", "x", None, false, false)), vec!["checkout", "-b", "hotfix/12_x", "master"]);
    assert_eq!(created(new_args("hotfix", "12", "x", None, true, false)), vec!["checkout", "-b", "hotfix/12_x", "master"]);
}

#[test]
fn new_branch_from_the_current_branch() {
    assert_eq!(created(new_args("feature", "12", "x", None, false, true)), vec!["checkout", "-b", "feature/12_x"]);
    assert_eq!(created(new_args("", "", "main", None, false, true)), vec!["checkout", "-b", "main"]);
}

#[test]
fn new_branch_from_a_named_source() {
    assert_eq!(created(new_args("feature", "12", "x", Some("main"), false, false)), vec!["checkout", "-b", "feature/12_x", "main"]);
    assert_eq!(created(new_args("feature", "12", "x", Some("34"), true, false)), vec!["checkout", "-b", "feature/12_x", "34"]);
    assert_eq!(created(new_args("feature", "12", "x", Some("main"), true, true)), vec!["checkout", "-b", "feature/12_x", "main"]);
}

#[test]
fn new_branch_from_a_coded_source() {
    for source in ["34", "", "topic"] {
        match new::exec(&new_args("feature", "12", "x", Some(source), false, true)) {
            Ok(new::Plan::ListFirst { listing, raw_name, code }) => {
                assert_eq!(listing.step, Step::ListBranches);
                assert_eq!(listing.args, vec!["branch", "-a"]);
                assert_eq!(raw_name, "feature/12_x");
                assert_eq!(code, source);
            }
            other => panic!("{:?}", other),
        }
    }
    let branches = names(&["main", "hotfix/34_b", "feature/34_c"]);
    let inv = new::create_from_code("feature/12_x", "34", &branches).unwrap();
    assert_eq!(inv.step, Step::Checkout);
    assert_eq!(inv.args, vec!["checkout", "-b", "feature/12_x", "hotfix/34_b"]);
    assert_eq!(
        new::create_from_code("feature/12_x", "35", &branches).err(),
        Some(Error::BranchNotFoundOnCheckout("35".to_string()))
    );
}

#[test]
fn new_branch_refusals() {
    let refused = |args: NewArgs| new::exec(&args).err();
    assert_eq!(refused(new_args("feature", "1a", "x", None, false, false)), Some(Error::BranchCode));
    assert_eq!(refused(new_args("feat", "1a", "x", Some("main"), false, false)), Some(Error::BranchCode));
    assert_eq!(refused(new_args("feat", "12", "x", None, false, true)), Some(Error::InvalidBranchType("feat".to_string())));
    assert_eq!(refused(new_args("feat", "12", "x", Some("main"), true, false)), Some(Error::InvalidBranchType("feat".to_string())));
    // A special name passes as a name, and has no type to take a default from.
    assert_eq!(refused(new_args("", "", "main", None, false, false)), Some(Error::InvalidBranchType("".to_string())));
}

fn commit_args(t: &str, m: &str, run_ci: bool, no_add: bool, empty: bool) -> CommitArgs {
    CommitArgs { commit_type: t.to_string(), message: m.to_string(), run_ci, no_add, empty }
}

#[test]
fn commit_command() {
    let branch = Branch::from("feature/2222_something").unwrap();
    let plan = commit::exec(&commit_args("feat", " this is a commit\n", false, false, false), &branch).unwrap();
    assert_eq!(plan.len(), 2);
    assert_eq!(plan[0].step, Step::Add);
    assert_eq!(plan[0].args, vec!["add", "."]);
    assert_eq!(plan[1].step, Step::Commit);
    assert_eq!(plan[1].args, vec!["commit", "-m", "feat(#2222): this is a commit"]);
    let plan = commit::exec(&commit_args("chore", "m", true, true, true), &Branch::from("develop").unwrap()).unwrap();
    assert_eq!(plan.len(), 1);
    assert_eq!(plan[0].args, vec!["commit", "--allow-empty", "-m", "chore: m (run_ci)"]);
    assert_eq!(commit::exec(&commit_args("docs", "m", false, false, false), &branch).err(), Some(Error::CommitType));
    assert_eq!(commit::exec(&commit_args("", "m", false, true, false), &branch).err(), Some(Error::CommitType));
}

#[test]
fn run_ci_command() {
    let plan = run_ci::exec(&Branch::from("hotfix/7_x").unwrap());
    assert_eq!(plan.len(), 3);
    assert_eq!(plan[0].step, Step::Add);
    assert_eq!(plan[0].args, vec!["add", "."]);
    assert_eq!(plan[1].step, Step::Commit);
    assert_eq!(plan[1].args, vec!["commit", "--allow-empty", "-m", "chore(#7): \u{8} (run_ci)"]);
    assert_eq!(plan[2].step, Step::Push);
    assert_eq!(plan[2].args, vec!["push", "-u", "origin", "HEAD"]);
    let plan = run_ci::exec(&Branch::from("main").unwrap());
    assert_eq!(plan[1].args, vec!["commit", "--allow-empty", "-m", "chore: \u{8} (run_ci)"]);
}

#[test]
fn ls_sorts_without_regard_to_case() {
    assert_eq!(ls::exec(&names(&["b", "A", "c", "B", "a"])), names(&["A", "a", "b", "B", "c"]));
    assert_eq!(ls::exec(&names(&["main", "Zed", "develop", "feature/2_x", "feature/10_y"])), names(&["develop", "feature/10_y", "feature/2_x", "main", "Zed"]));
    assert_eq!(ls::exec(&names(&["ab", "a", "", "Ab", "AB", "aB"])), names(&["", "a", "ab", "Ab", "AB", "aB"]));
    assert_eq!(ls::exec(&names(&["é", "z", "É", "e"])), names(&["e", "z", "é", "É"]));
    assert_eq!(ls::exec(&Vec::new()), Vec::<String>::new());
    let mut expected = names(&["x/B", "X/a", "x/A", "Y", "x", "x/b"]);
    let sorted = ls::exec(&expected);
    expected.sort_by(|a, b| a.to_lowercase().cmp(&b.to_lowercase()));
    assert_eq!(sorted, expected);
}
