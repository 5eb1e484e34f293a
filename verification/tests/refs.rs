use gitgraph::errors::{CommitError, GitError, OpenRepoError, StageError};
use gitgraph::oid::Oid;
use gitgraph::refs::{
    split_remote_name, tag_name, Branch, BranchType, LocalRef, ParseRefError, Ref, RemoteRef,
};

fn oid(n: u8) -> Oid {
    Oid::from_bytes([n; 20])
}

fn branch(target: Option<u8>, name: Result<Option<&str>, &str>, is_head: bool) -> Branch {
    Branch {
        target: target.map(oid),
        name: name
            .map(|n| n.map(|n| n.to_string()))
            .map_err(|e| GitError::Wrapped(e.to_string())),
        is_head,
    }
}

#[test]
fn local_branch_is_read() {
    let read = LocalRef::from_branch(branch(Some(0x12), Ok(Some("main")), true));
    assert_eq!(
        read,
        Ok(LocalRef { id: "12".repeat(20), name: "main".to_string(), is_head: true })
    );
}

#[test]
fn local_branch_errors_come_in_order() {
    assert_eq!(
        LocalRef::from_branch(branch(None, Err("bad"), false)),
        Err(ParseRefError::NoRef)
    );
    assert_eq!(
        LocalRef::from_branch(branch(Some(1), Err("bad"), false)),
        Err(ParseRefError::Git2Error(GitError::Wrapped("bad".to_string())))
    );
    assert_eq!(
        LocalRef::from_branch(branch(Some(1), Ok(None), false)),
        Err(ParseRefError::InvalidUTF8)
    );
}

#[test]
fn remote_branch_is_split_at_the_first_slash() {
    let read = RemoteRef::from_branch(branch(Some(0x34), Ok(Some("origin/feature/x")), false));
    assert_eq!(
        read,
        Ok(RemoteRef {
            id: "34".repeat(20),
            remote: "origin".to_string(),
            name: "feature/x".to_string()
        })
    );
    assert_eq!(split_remote_name("origin/"), Some(("origin".to_string(), String::new())));
    assert_eq!(split_remote_name("/x"), Some((String::new(), "x".to_string())));
    assert_eq!(split_remote_name("origin"), None);
    assert_eq!(split_remote_name(""), None);
}

#[test]
fn remote_branch_errors_come_in_order() {
    assert_eq!(
        RemoteRef::from_branch(branch(None, Err("bad"), false)),
        Err(ParseRefError::Git2Error(GitError::Wrapped("bad".to_string())))
    );
    assert_eq!(
        RemoteRef::from_branch(branch(None, Ok(None), false)),
        Err(ParseRefError::InvalidUTF8)
    );
    assert_eq!(
        RemoteRef::from_branch(branch(None, Ok(Some("noslash")), false)),
        Err(ParseRefError::NoRemote)
    );
    assert_eq!(
        RemoteRef::from_branch(branch(None, Ok(Some("origin/x")), false)),
        Err(ParseRefError::NoRef)
    );
}

#[test]
fn reference_is_read_by_the_kind_of_its_branch() {
    let local = Ref::from_branch(branch(Some(1), Ok(Some("a/b")), false), BranchType::Local);
    assert_eq!(
        local,
        Ok(Ref::LocalBranch(LocalRef {
            id: "01".repeat(20),
            name: "a/b".to_string(),
            is_head: false
        }))
    );
    let remote = Ref::from_branch(branch(Some(1), Ok(Some("a/b")), false), BranchType::Remote);
    assert_eq!(
        remote,
        Ok(Ref::RemoteBranch(RemoteRef {
            id: "01".repeat(20),
            remote: "a".to_string(),
            name: "b".to_string()
        }))
    );
    let failed = Ref::from_branch(branch(Some(1), Ok(Some("ab")), false), BranchType::Remote);
    assert_eq!(failed, Err(ParseRefError::NoRemote));
    assert_eq!(Ref::head(&oid(0xcd)), Ref::Head("cd".repeat(20)));
}

#[test]
fn tag_name_follows_the_second_slash() {
    assert_eq!(tag_name("refs/tags/v1.0").as_deref(), Some("v1.0"));
    assert_eq!(tag_name("refs/tags/release/1").as_deref(), Some("release/1"));
    assert_eq!(tag_name("refs/tags/").as_deref(), Some(""));
    assert_eq!(tag_name("refs/tags"), None);
    assert_eq!(tag_name("tag"), None);
    assert_eq!(
        LocalRef::tag(&oid(0xee), "v1".to_string()),
        LocalRef { id: "ee".repeat(20), name: "v1".to_string(), is_head: false }
    );
}

#[test]
fn errors_of_the_object_store_are_wrapped_with_their_message() {
    let error = git2::Error::from_str("object not found");
    assert_eq!(GitError::from_git(&error), GitError::Wrapped("object not found".to_string()));
    assert_eq!(GitError::from_git(&error).message(), "object not found");
    assert_eq!(CommitError::from_git(&error), CommitError::Read("object not found".to_string()));
    assert_eq!(
        OpenRepoError::from_git(&error),
        OpenRepoError::Read("object not found".to_string())
    );
    assert_eq!(StageError::from_git(&error), StageError::Read("object not found".to_string()));
    assert_ne!(OpenRepoError::NoSelection, OpenRepoError::Read(String::new()));
    assert_ne!(StageError::UnstageError, StageError::EntryDoesntExistOnHead);
}

#[test]
fn failures_of_the_object_store_keep_the_given_message() {
    assert_eq!(GitError::from_message("a".to_string()), GitError::Wrapped("a".to_string()));
    assert_eq!(CommitError::from_message("b".to_string()), CommitError::Read("b".to_string()));
    assert_eq!(OpenRepoError::from_message("c".to_string()), OpenRepoError::Read("c".to_string()));
    assert_eq!(StageError::from_message("d".to_string()), StageError::Read("d".to_string()));
    assert_ne!(CommitError::from_message(String::new()), CommitError::NeedCommitToAmend);
}
