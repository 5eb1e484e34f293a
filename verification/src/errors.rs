//! Errors that the commands on a repository report.

use vstd::prelude::*;

verus! {

/// A failure of the object store, with its message.
#[derive(Clone, Debug, PartialEq, Eq)]
pub enum GitError {
    Wrapped(String),
}

impl GitError {
    /// The message of the failure.
    pub open spec fn text(self) -> Seq<char> {
        match self {
            GitError::Wrapped(message) => message@,
        }
    }

    /// The failure with the given message.
    pub fn from_message(message: String) -> (error: GitError)
        ensures
            error == GitError::Wrapped(message),
    {
        GitError::Wrapped(message)
    }

    /// The message of the failure.
    pub fn message(&self) -> (message: &String)
        ensures
            *self == GitError::Wrapped(*message),
    {
        match self {
            GitError::Wrapped(message) => message,
        }
    }
}

/// Why a commit could not be made.
#[derive(Clone, Debug, PartialEq, Eq)]
pub enum CommitError {
    /// The object store failed, with its message.
    Read(String),
    /// There is no commit to amend.
    NeedCommitToAmend,
}

impl CommitError {
    /// The failure of the object store with the given message.
    pub fn from_message(message: String) -> (error: CommitError)
        ensures
            error == CommitError::Read(message),
    {
        CommitError::Read(message)
    }
}

/// Why a repository could not be opened.
#[derive(Clone, Debug, PartialEq, Eq)]
pub enum OpenRepoError {
    /// No folder was chosen.
    NoSelection,
    /// The object store failed, with its message.
    Read(String),
}

impl OpenRepoError {
    /// The failure of the object store with the given message.
    pub fn from_message(message: String) -> (error: OpenRepoError)
        ensures
            error == OpenRepoError::Read(message),
    {
        OpenRepoError::Read(message)
    }
}

/// Why a change could not be staged or unstaged.
#[derive(Clone, Debug, PartialEq, Eq)]
pub enum StageError {
    /// The object store failed, with its message.
    Read(String),
    UnstageError,
    EntryDoesntExistOnHead,
}

impl StageError {
    /// The failure of the object store with the given message.
    pub fn from_message(message: String) -> (error: StageError)
        ensures
            error == StageError::Read(message),
    {
        StageError::Read(message)
    }
}

} // verus!
