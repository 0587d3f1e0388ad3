//! The kinds of commit a message can announce.

use crate::errors::{Error, ErrorView};
use crate::text::same_text;
use vstd::prelude::*;

verus! {

/// The kind of change a commit makes, written in front of its message.
#[derive(Debug, Clone, Copy, PartialEq, Eq)]
pub enum CommitType {
    Chore,
    Feat,
    Fix,
    Style,
}

/// The commit type that a word names, if it names one.
pub open spec fn commit_type_named(word: Seq<char>) -> Option<CommitType> {
    if word == "feat"@ {
        Some(CommitType::Feat)
    } else if word == "chore"@ {
        Some(CommitType::Chore)
    } else if word == "style"@ {
        Some(CommitType::Style)
    } else if word == "fix"@ {
        Some(CommitType::Fix)
    } else {
        None
    }
}

impl CommitType {
    /// The word that stands for this commit type in a message.
    pub open spec fn label(self) -> Seq<char> {
        match self {
            CommitType::Chore => "chore"@,
            CommitType::Feat => "feat"@,
            CommitType::Fix => "fix"@,
            CommitType::Style => "style"@,
        }
    }

    /// The word that stands for this commit type in a message.
    pub fn as_str(self) -> (word: &'static str)
        ensures
            word@ == self.label(),
    {
        match self {
            CommitType::Chore => "chore",
            CommitType::Feat => "feat",
            CommitType::Fix => "fix",
            CommitType::Style => "style",
        }
    }

    /// Reads a commit type from the word the user gave.  Any word but
    /// `feat`, `chore`, `style` and `fix` is refused.
    pub fn from_name(word: &str) -> (r: Result<CommitType, Error>)
        ensures
            match r {
                Ok(t) => commit_type_named(word@) == Some(t),
                Err(e) => commit_type_named(word@) is None && e@ == ErrorView::CommitType,
            },
    {
        if same_text(word, "feat") {
            Ok(CommitType::Feat)
        } else if same_text(word, "chore") {
            Ok(CommitType::Chore)
        } else if same_text(word, "style") {
            Ok(CommitType::Style)
        } else if same_text(word, "fix") {
            Ok(CommitType::Fix)
        } else {
            Err(Error::CommitType)
        }
    }
}

} // verus!
