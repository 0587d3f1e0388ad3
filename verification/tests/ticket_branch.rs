use sam::commit_types::CommitType;
use sam::git_utils::{Branch, GitError};

#[test]
fn tests_test_validate_name_01() {
    assert_eq!(Branch::validate_name("feature/RCT-2341_something"), true);
}

#[test]
fn tests_test_validate_name_02() {
    assert_eq!(Branch::validate_name("hotfix/RCT-2341_something"), true);
}

#[test]
fn tests_test_validate_name_03() {
    assert_eq!(Branch::validate_name("feature/something"), false);
}

#[test]
fn tests_test_validate_name_04() {
    assert_eq!(Branch::validate_name("hotfix/something"), false);
}

#[test]
fn tests_test_validate_name_05() {
    assert_eq!(Branch::validate_name("feat/RCT-2341_something"), false);
}

#[test]
fn tests_test_validate_name_06() {
    assert_eq!(Branch::validate_name("fix/RCT-2341_something"), false);
}

#[test]
fn tests_test_validate_name_07() {
    assert_eq!(Branch::validate_name("fix/something_RCT-2341"), false);
}

#[test]
fn tests_test_validate_name_08() {
    assert_eq!(Branch::validate_name("feature/something_RCT-2341"), false);
}

#[test]
fn tests_test_validate_name_09() {
    assert_eq!(Branch::validate_name("feature//RCT-1234_something"), false);
}

#[test]
fn tests_test_validate_name_10() {
    assert_eq!(Branch::validate_name("feature/RCT-something_something"), false);
}

#[test]
fn tests_test_validate_name_11() {
    assert_eq!(Branch::validate_name("feature/RCT-1234something"), false);
}

#[test]
fn tests_test_validate_name_12() {
    assert_eq!(Branch::validate_name("featureRCT-1234_something"), false);
}

#[test]
fn tests_test_validate_name_13() {
    assert_eq!(Branch::validate_name("master"), true);
}

#[test]
fn tests_test_validate_name_14() {
    assert_eq!(Branch::validate_name("main"), true);
}

#[test]
fn tests_test_validate_name_15() {
    assert_eq!(Branch::validate_name("develop"), true);
}

#[test]
fn tests_test_validate_name_16() {
    assert_eq!(Branch::validate_name("dfdevelop"), false);
}

#[test]
fn tests_test_parse_name_1() -> Result<(), GitError> {
    assert_eq!(
        Branch::parse_name("feature/RCT-1234_some_title")?,
        (
            String::from("feature"),
            String::from("1234"),
            String::from("some_title"),
            false
        )
    );
    Ok(())
}

#[test]
fn tests_test_parse_name_2() {
    assert_eq!(
        Branch::parse_name("master"),
        Ok((
            String::from(""),
            String::from(""),
            String::from("master"),
            true
        ))
    )
}

#[test]
fn tests_test_parse_name_3() {
    assert_eq!(
        Branch::parse_name("feature/RCT-1234something"),
        Err(GitError::NameFormat)
    );
}

#[test]
fn tests_test_make_commit_name_1() {
    let branch = Branch::from("feature/RCT-2222_something").unwrap();
    assert_eq!(
        branch.make_commit_message(CommitType::Feat, "this is a commit"),
        "feat(RCT-2222): this is a commit"
    );
}

#[test]
fn tests_test_make_commit_name_2() {
    let branch = Branch::from("master").unwrap();
    assert_eq!(
        branch.make_commit_message(CommitType::Feat, "this is a commit"),
        "feat: this is a commit"
    );
}
