//! Branches and tags as they are shown.

use crate::errors::GitError;
use crate::git::hex_of;
use crate::oid::Oid;
use crate::text::{find_first, first_from, slice};
use vstd::prelude::*;
use vstd::string::*;

verus! {

/// Why a branch could not be read.
#[derive(Clone, Debug, PartialEq, Eq)]
pub enum ParseRefError {
    /// The branch points at no commit.
    NoRef,
    /// The name of a remote branch does not begin with the name of a remote.
    NoRemote,
    /// The object store failed.
    Git2Error(GitError),
    /// The name of the branch is no UTF-8.
    InvalidUTF8,
}

/// What is read of a branch before it is shown.
#[derive(Debug, PartialEq, Eq)]
pub struct Branch {
    /// The commit that the branch points at, if it points at one.
    pub target: Option<Oid>,
    /// The name of the branch; `None` inside if the name is no UTF-8.
    pub name: Result<Option<String>, GitError>,
    /// Whether HEAD points at the branch.
    pub is_head: bool,
}

/// Whether a branch is a local one or follows a remote.
#[derive(Clone, Copy, Debug, PartialEq, Eq, Structural)]
pub enum BranchType {
    Local,
    Remote,
}

/// A local branch, or a tag.
#[derive(Clone, Debug, PartialEq, Eq)]
pub struct LocalRef {
    /// The commit it points at, in hexadecimal form.
    pub id: String,
    pub name: String,
    pub is_head: bool,
}

/// A branch of a remote.
#[derive(Clone, Debug, PartialEq, Eq)]
pub struct RemoteRef {
    /// The commit it points at, in hexadecimal form.
    pub id: String,
    pub remote: String,
    pub name: String,
}

/// A reference of the repository.
#[derive(Clone, Debug, PartialEq, Eq)]
pub enum Ref {
    /// The commit of HEAD, in hexadecimal form.
    Head(String),
    LocalBranch(LocalRef),
    RemoteBranch(RemoteRef),
    Tag(LocalRef),
}

/// Why the name of a branch cannot be had, if it cannot.
pub open spec fn name_error(name: Result<Option<String>, GitError>) -> Option<ParseRefError> {
    match name {
        Err(error) => Some(ParseRefError::Git2Error(error)),
        Ok(None) => Some(ParseRefError::InvalidUTF8),
        Ok(Some(_)) => None,
    }
}

/// Whether `read` is what reading `branch` as a local branch gives: the
/// branch with its target in hexadecimal form; `NoRef` without a target, and
/// else the error of the name.
pub open spec fn reads_local(branch: Branch, read: Result<LocalRef, ParseRefError>) -> bool {
    match read {
        Ok(local) => branch.target is Some && local.id@ == hex_of(branch.target.unwrap()@)
            && branch.name == Ok::<Option<String>, GitError>(Some(local.name)) && local.is_head
            == branch.is_head,
        Err(error) => if branch.target is None {
            error == ParseRefError::NoRef
        } else {
            name_error(branch.name) == Some(error)
        },
    }
}

/// Whether `read` is what reading `branch` as a branch of a remote gives:
/// the remote before the first slash of the name, the branch after it, and
/// the target in hexadecimal form; the error of the name if there is one,
/// else `NoRemote` without a slash, else `NoRef` without a target.
pub open spec fn reads_remote(branch: Branch, read: Result<RemoteRef, ParseRefError>) -> bool {
    match read {
        Ok(remote) => branch.name matches Ok(Some(name)) && remote_end(name@) matches Some(end)
            && remote.remote@ == name@.subrange(0, end) && remote.name@ == name@.subrange(
            end + 1,
            name@.len() as int,
        ) && branch.target is Some && remote.id@ == hex_of(branch.target.unwrap()@),
        Err(error) => match branch.name {
            Ok(Some(name)) => if remote_end(name@) is None {
                error == ParseRefError::NoRemote
            } else {
                branch.target is None && error == ParseRefError::NoRef
            },
            _ => name_error(branch.name) == Some(error),
        },
    }
}

impl LocalRef {
    /// Reads a local branch. A branch without a target gives `NoRef`, and
    /// only then is the name looked at.
    pub fn from_branch(branch: Branch) -> (read: Result<LocalRef, ParseRefError>)
        ensures
            reads_local(branch, read),
    {
        let target = match branch.target {
            Some(target) => target,
            None => {
                return Err(ParseRefError::NoRef);
            },
        };
        let name = match branch.name {
            Ok(Some(name)) => name,
            Ok(None) => {
                return Err(ParseRefError::InvalidUTF8);
            },
            Err(error) => {
                return Err(ParseRefError::Git2Error(error));
            },
        };
        Ok(LocalRef { id: target.to_hex(), name, is_head: branch.is_head })
    }

    /// The tag with the given name at the given commit.
    pub fn tag(target: &Oid, name: String) -> (tag: LocalRef)
        ensures
            tag.id@ == hex_of(target@),
            tag.name == name,
            !tag.is_head,
    {
        LocalRef { id: target.to_hex(), name, is_head: false }
    }
}

/// Where the name of a remote ends in the name of a remote branch: at the
/// first slash. Nothing if the name has no slash.
pub open spec fn remote_end(name: Seq<char>) -> Option<int> {
    if first_from(name, '/', 0) < name.len() {
        Some(first_from(name, '/', 0))
    } else {
        None
    }
}

/// The name of a remote branch in two parts: the remote before the first
/// slash, and the branch after it. Nothing if the name has no slash.
pub fn split_remote_name(name: &str) -> (parts: Option<(String, String)>)
    ensures
        match parts {
            Some((remote, branch)) => remote_end(name@) matches Some(end) && remote@
                == name@.subrange(0, end) && branch@ == name@.subrange(end + 1, name@.len() as int),
            None => remote_end(name@) is None,
        },
{
    let length = name.unicode_len();
    let end = find_first(name, '/', 0);
    if end < length {
        Some((slice(name, 0, end), slice(name, end + 1, length)))
    } else {
        None
    }
}

impl RemoteRef {
    /// Reads a branch of a remote. The name is looked at first, then its
    /// split into remote and branch, then the target.
    pub fn from_branch(branch: Branch) -> (read: Result<RemoteRef, ParseRefError>)
        ensures
            reads_remote(branch, read),
    {
        let name = match branch.name {
            Ok(Some(name)) => name,
            Ok(None) => {
                return Err(ParseRefError::InvalidUTF8);
            },
            Err(error) => {
                return Err(ParseRefError::Git2Error(error));
            },
        };
        let (remote, name) = match split_remote_name(name.as_str()) {
            Some(parts) => parts,
            None => {
                return Err(ParseRefError::NoRemote);
            },
        };
        match branch.target {
            Some(target) => Ok(RemoteRef { id: target.to_hex(), remote, name }),
            None => Err(ParseRefError::NoRef),
        }
    }
}

impl Ref {
    /// Reads a branch as the reference of its kind.
    pub fn from_branch(branch: Branch, branch_type: BranchType) -> (read: Result<Ref, ParseRefError>)
        ensures
            match branch_type {
                BranchType::Local => match read {
                    Ok(Ref::LocalBranch(local)) => reads_local(
                        branch,
                        Ok::<LocalRef, ParseRefError>(local),
                    ),
                    Err(error) => reads_local(branch, Err::<LocalRef, ParseRefError>(error)),
                    Ok(_) => false,
                },
                BranchType::Remote => match read {
                    Ok(Ref::RemoteBranch(remote)) => reads_remote(
                        branch,
                        Ok::<RemoteRef, ParseRefError>(remote),
                    ),
                    Err(error) => reads_remote(branch, Err::<RemoteRef, ParseRefError>(error)),
                    Ok(_) => false,
                },
            },
    {
        match branch_type {
            BranchType::Local => match LocalRef::from_branch(branch) {
                Ok(local) => Ok(Ref::LocalBranch(local)),
                Err(error) => Err(error),
            },
            BranchType::Remote => match RemoteRef::from_branch(branch) {
                Ok(remote) => Ok(Ref::RemoteBranch(remote)),
                Err(error) => Err(error),
            },
        }
    }

    /// The reference for the commit of HEAD.
    pub fn head(target: &Oid) -> (head: Ref)
        ensures
            head matches Ref::Head(id) && id@ == hex_of(target@),
    {
        Ref::Head(target.to_hex())
    }
}

/// Where the name of a tag starts in the name of its reference: after the
/// second slash. Nothing if the name has fewer than two slashes.
pub open spec fn tag_name_start(reference: Seq<char>) -> Option<int> {
    let first = first_from(reference, '/', 0);
    if first < reference.len() {
        let second = first_from(reference, '/', first + 1);
        if second < reference.len() {
            Some(second + 1)
        } else {
            None
        }
    } else {
        None
    }
}

/// The name of a tag from the name of its reference, as in
/// `refs/tags/name`: what follows the second slash.
pub fn tag_name(reference: &str) -> (name: Option<String>)
    ensures
        match name {
            Some(name) => tag_name_start(reference@) matches Some(start) && name@
                == reference@.subrange(start, reference@.len() as int),
            None => tag_name_start(reference@) is None,
        },
{
    let length = reference.unicode_len();
    let first = find_first(reference, '/', 0);
    if first >= length {
        return None;
    }
    let second = find_first(reference, '/', first + 1);
    if second >= length {
        return None;
    }
    Some(slice(reference, second + 1, length))
}

} // verus!
