use sam::branch::Branch;
use sam::commit_types::CommitType;
use sam::errors::Error;

#[test]
fn test_validate_name_01() {
    assert_eq!(Branch::validate_name("feature/2341_something"), true);
}

#[test]
fn test_validate_name_02() {
    assert_eq!(Branch::validate_name("hotfix/2341_something"), true);
}

#[test]
fn test_validate_name_03() {
    assert_eq!(Branch::validate_name("feature/something"), false);
}

#[test]
fn test_validate_name_04() {
    assert_eq!(Branch::validate_name("hotfix/something"), false);
}

#[test]
fn test_validate_name_05() {
    assert_eq!(Branch::validate_name("feat/2341_something"), false);
}

#[test]
fn test_validate_name_06() {
    assert_eq!(Branch::validate_name("fix/2341_something"), false);
}

#[test]
fn test_validate_name_07() {
    assert_eq!(Branch::validate_name("fix/something_2341"), false);
}

#[test]
fn test_validate_name_08() {
    assert_eq!(Branch::validate_name("feature/something_2341"), false);
}

#[test]
fn test_validate_name_09() {
    assert_eq!(Branch::validate_name("feature//1234_something"), false);
}

#[test]
fn test_validate_name_10() {
    assert_eq!(Branch::validate_name("feature/something_something"), false);
}

#[test]
fn test_validate_name_11() {
    assert_eq!(Branch::validate_name("feature/1234something"), false);
}

#[test]
fn test_validate_name_12() {
    assert_eq!(Branch::validate_name("feature1234_something"), false);
}

#[test]
fn test_validate_name_13() {
    assert_eq!(Branch::validate_name("master"), true);
}

#[test]
fn test_validate_name_14() {
    assert_eq!(Branch::validate_name("main"), true);
}

#[test]
fn test_validate_name_15() {
    assert_eq!(Branch::validate_name("develop"), true);
}

#[test]
fn test_validate_name_16() {
    assert_eq!(Branch::validate_name("dfdevelop"), false);
}

#[test]
fn test_parse_name_1() {
    assert_eq!(
        Branch::parse_name("feature/13-fix-build-warnings"),
        Err(Error::NameFormat)
    );
}

#[test]
fn test_parse_name_2() {
    assert_eq!(
        Branch::parse_name("master"),
        Ok((
            String::from(""),
            String::from(""),
            String::from("master"),
            true
        ))
    )
}

#[test]
fn test_parse_name_3() {
    assert_eq!(
        Branch::parse_name("feature/1234something"),
        Err(Error::NameFormat)
    );
}

#[test]
fn test_make_commit_name_1() {
    let branch = Branch::from("feature/2222_something").unwrap();
    assert_eq!(
        branch.make_commit_message(CommitType::Feat, "this is a commit", false),
        "feat(#2222): this is a commit"
    );
}

#[test]
fn test_make_commit_name_2() {
    let branch = Branch::from("master").unwrap();
    assert_eq!(
        branch.make_commit_message(CommitType::Feat, "this is a commit", false),
        "feat: this is a commit"
    );
}

#[test]
fn test_make_commit_name_3() {
    let branch = Branch::from("master").unwrap();
    assert_eq!(
        branch.make_commit_message(CommitType::Feat, "this is a commit", true),
        "feat: this is a commit (run_ci)"
    );
}

#[test]
fn test_make_commit_name_4() {
    let branch = Branch::from("feature/2222_something").unwrap();
    assert_eq!(
        branch.make_commit_message(CommitType::Feat, "this is a commit", true),
        "feat(#2222): this is a commit (run_ci)"
    );
}
