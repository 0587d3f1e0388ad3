use sam::branch::Branch;
use sam::errors::Error;
use sam::naming::{commit_message, is_branch_type, is_special, make_raw_name, parse, validate, Convention};
use sam::commit_types::CommitType;

fn parts(t: &str, c: &str, n: &str, s: bool) -> (String, String, String, bool) {
    (t.to_string(), c.to_string(), n.to_string(), s)
}

#[test]
fn special_names_are_valid_and_parse_as_special() {
    for name in ["develop", "main", "master"] {
        for convention in [Convention::Plain, Convention::Ticket] {
            assert!(validate(name, convention));
            assert_eq!(parse(name, convention), Ok(parts("", "", name, true)));
        }
        assert!(is_special(name));
    }
    assert!(!is_special("Master"));
    assert!(!is_special(""));
}

#[test]
fn round_trip_of_plain_names() {
    for t in ["feature", "hotfix"] {
        for c in ["0", "7", "1234", "000120"] {
            for n in ["x", "some_title", "with-dash", "a b", "_", "9_9", "ünï", "a/b", " "] {
                let raw = make_raw_name(t, c, n, Convention::Plain).unwrap();
                assert_eq!(raw, format!("{}/{}_{}", t, c, n));
                assert_eq!(parse(&raw, Convention::Plain), Ok(parts(t, c, n, false)));
                assert!(validate(&raw, Convention::Plain));
            }
        }
    }
}

#[test]
fn round_trip_of_ticket_names() {
    let raw = make_raw_name("hotfix", "42", "fix_it", Convention::Ticket).unwrap();
    assert_eq!(raw, "hotfix/RCT-42_fix_it");
    assert_eq!(parse(&raw, Convention::Ticket), Ok(parts("hotfix", "42", "fix_it", false)));
    assert_eq!(parse(&raw, Convention::Plain), Err(Error::NameFormat));
    assert_eq!(parse("hotfix/42_fix_it", Convention::Ticket), Err(Error::NameFormat));
}

#[test]
fn names_that_miss_the_shape_are_invalid() {
    assert!(!validate("feature/something", Convention::Plain));
    assert!(!validate("feat/1234_something", Convention::Plain));
    assert!(!validate("feature//1234_something", Convention::Plain));
    assert!(!validate("feature/1234something", Convention::Plain));
    for name in [
        "", "feature", "feature/", "feature/1", "feature/1234", "feature/1234_", "feature/_x",
        "feature/_", "feature/12ab_x", "feature/a12_x", "feature/1234-x", "Feature/1234_x",
        "FEATURE/1234_x", "hotfix /1_x", " feature/1_x", "feature/1 _x", "feature/١٢_x",
        "feature/12\u{a0}_x", "main ", " main", "main\n", "feature/RCT-12_x",
    ] {
        assert!(!validate(name, Convention::Plain), "{:?}", name);
        assert_eq!(parse(name, Convention::Plain), Err(Error::NameFormat), "{:?}", name);
        assert_eq!(Branch::from(name).err(), Some(Error::NameFormat), "{:?}", name);
    }
}

#[test]
fn title_keeps_everything_after_the_first_underscore() {
    assert_eq!(
        parse("feature/12_a_b/c_ ", Convention::Plain),
        Ok(parts("feature", "12", "a_b/c_ ", false))
    );
    assert_eq!(parse("hotfix/0__", Convention::Plain), Ok(parts("hotfix", "0", "_", false)));
    assert_eq!(
        parse("feature/RCT-7_RCT-8_x", Convention::Ticket),
        Ok(parts("feature", "7", "RCT-8_x", false))
    );
}

#[test]
fn make_raw_name_special_case_and_errors() {
    assert_eq!(make_raw_name("", "", "main", Convention::Plain), Ok("main".to_string()));
    assert_eq!(make_raw_name("", "", "develop", Convention::Ticket), Ok("develop".to_string()));
    assert_eq!(Branch::make_raw_name("", "", "master"), Ok("master".to_string()));
    // A special name with a type or a code is written like any other.
    assert_eq!(Branch::make_raw_name("feature", "", "main"), Ok("feature/_main".to_string()));
    assert_eq!(Branch::make_raw_name("feature", "1", "main"), Ok("feature/1_main".to_string()));
    assert_eq!(Branch::make_raw_name("", "1", "main"), Err(Error::InvalidBranchType("".to_string())));
    assert_eq!(Branch::make_raw_name("feature", "12a", "x"), Err(Error::BranchCode));
    assert_eq!(Branch::make_raw_name("feature", "-1", "x"), Err(Error::BranchCode));
    assert_eq!(Branch::make_raw_name("feature", "١٢", "x"), Err(Error::BranchCode));
    // The code is checked before the type.
    assert_eq!(Branch::make_raw_name("feat", "x", "y"), Err(Error::BranchCode));
    assert_eq!(
        Branch::make_raw_name("feat", "12", "y"),
        Err(Error::InvalidBranchType("feat".to_string()))
    );
    assert_eq!(Branch::make_raw_name("", "", "x"), Err(Error::InvalidBranchType("".to_string())));
    // An empty code and an empty title are written as they are.
    assert_eq!(Branch::make_raw_name("hotfix", "", ""), Ok("hotfix/_".to_string()));
    assert_eq!(Branch::make_raw_name("feature", "2222", "something"), Ok("feature/2222_something".to_string()));
}

#[test]
fn branch_types() {
    assert!(is_branch_type("feature"));
    assert!(is_branch_type("hotfix"));
    assert!(!is_branch_type("feat"));
    assert!(!is_branch_type("fix"));
    assert!(!is_branch_type(""));
    assert!(!is_branch_type("Feature"));
}

#[test]
fn commit_messages() {
    let p = Convention::Plain;
    assert_eq!(commit_message("", true, CommitType::Feat, "this is a commit", true, p), "feat: this is a commit (run_ci)");
    assert_eq!(commit_message("2222", false, CommitType::Feat, "  this is a commit \n", false, p), "feat(#2222): this is a commit");
    assert_eq!(commit_message("", true, CommitType::Fix, "\t x  y \u{a0}", false, p), "fix: x  y");
    assert_eq!(commit_message("1", false, CommitType::Chore, "", true, p), "chore(#1):  (run_ci)");
    assert_eq!(commit_message("1", false, CommitType::Style, "   ", false, p), "style(#1): ");
    assert_eq!(commit_message("1", false, CommitType::Style, "a\nb \"c\"", false, p), "style(#1): a\nb \"c\"");
    assert_eq!(commit_message("9", false, CommitType::Fix, " m ", true, Convention::Ticket), "fix(RCT-9): m (run_ci)");
    assert_eq!(commit_message("", true, CommitType::Fix, "\u{8}", true, p), "fix: \u{8} (run_ci)");
}

#[test]
fn branch_code_getter() {
    assert_eq!(Branch::from("feature/0042_x").unwrap().code(), "0042");
    assert_eq!(Branch::from("main").unwrap().code(), "");
    assert_eq!(sam::git_utils::Branch::from("feature/RCT-17_x").unwrap().code(), "17");
    assert_eq!(Branch::from("feature/1_x").unwrap(), Branch::from("feature/1_x").unwrap());
}
