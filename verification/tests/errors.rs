use sam::commit_types::CommitType;
use sam::errors::{join, Error};
use sam::git_utils::GitError;

#[test]
fn error_messages() {
    assert_eq!(Error::NameFormat.message(), "Branch name is in an invalid format.");
    assert_eq!(Error::StringFormat.message(), "Branch name has unsupported character or is corrupted.");
    assert_eq!(Error::Git.message(), "Some error happened with git. Make sure git is installed correctly.");
    assert_eq!(Error::Add.message(), "Some error occurred while running git add.");
    assert_eq!(Error::CommitType.message(), "Invalid commit type.");
    assert_eq!(Error::Commit.message(), "Some error happened while committing.");
    assert_eq!(Error::BranchCode.message(), "Invalid branch code.");
    assert_eq!(Error::BranchNotFoundOnCheckout("12".to_string()).message(), "Branch with the code 12 does not exists");
    assert_eq!(Error::InvalidBranchType("feat".to_string()).message(), "Branch type feat is invalid");
    assert_eq!(
        GitError::IncompatibleArguments(vec!["source".to_string(), "from_current".to_string()]).message(),
        "Incompatible arguments: source, from_current"
    );
    assert_eq!(Error::IncompatibleArguments(vec![]).message(), "Incompatible arguments: ");
    assert_eq!(Error::IncompatibleArguments(vec!["a".to_string()]).message(), "Incompatible arguments: a");
}

#[test]
fn joining() {
    let parts = vec!["a".to_string(), "".to_string(), "c".to_string()];
    assert_eq!(join(&parts, ", "), "a, , c");
    assert_eq!(join(&parts, ""), "ac");
    assert_eq!(join(&Vec::new(), ", "), "");
}

#[test]
fn commit_types_by_name() {
    assert_eq!(CommitType::from_name("feat"), Ok(CommitType::Feat));
    assert_eq!(CommitType::from_name("chore"), Ok(CommitType::Chore));
    assert_eq!(CommitType::from_name("style"), Ok(CommitType::Style));
    assert_eq!(CommitType::from_name("fix"), Ok(CommitType::Fix));
    for word in ["", "Feat", "feat ", "docs", "refactor", "test", "feature"] {
        assert_eq!(CommitType::from_name(word), Err(Error::CommitType));
    }
    for t in [CommitType::Feat, CommitType::Chore, CommitType::Style, CommitType::Fix] {
        assert_eq!(CommitType::from_name(t.as_str()), Ok(t));
    }
    assert_eq!(CommitType::Chore.as_str(), "chore");
}
