//! Immutable snapshots of commits and of the people who signed them.

use crate::oid::Oid;
use crate::text::text_of;
use vstd::prelude::*;

verus! {

/// The MD5 digest of the UTF-8 bytes of a text, written as lowercase
/// hexadecimal digits.
pub uninterp spec fn md5_hex(text: Seq<char>) -> Seq<char>;

/// Calls `md5::compute` on the bytes of `text` and formats the digest with
/// the crate's `LowerHex` impl. The digest depends on the text alone; the
/// contract gives it the name `md5_hex` and claims nothing else of it.
#[verifier::external_body]
fn md5_hex_digest(text: &str) -> (hex: String)
    ensures
        hex@ == md5_hex(text@),
{
    format!("{:x}", md5::compute(text.as_bytes()))
}

/// Who signed a commit, and when.
#[derive(Clone, Debug, PartialEq, Eq)]
pub struct SignatureInfo {
    pub name: Option<String>,
    pub email: Option<String>,
    /// Digest of the email address, by which an avatar is looked up.
    pub hash: Option<String>,
    /// Seconds since the epoch.
    pub time: i64,
}

impl SignatureInfo {
    /// The digest that belongs to an email address, if there is an address.
    pub open spec fn hash_of(email: Option<String>) -> Option<Seq<char>> {
        match email {
            Some(address) => Some(md5_hex(address@)),
            None => None,
        }
    }

    /// A signature whose hash is the digest of its email address.
    pub fn new(name: Option<String>, email: Option<String>, time: i64) -> (signature: SignatureInfo)
        ensures
            signature.name == name,
            signature.email == email,
            signature.time == time,
            text_of(signature.hash) == Self::hash_of(email),
    {
        let hash = match &email {
            Some(address) => Some(md5_hex_digest(address.as_str())),
            None => None,
        };
        SignatureInfo::from_parts(name, email, hash, time)
    }

    /// A signature with a hash that the caller already holds.
    pub fn from_parts(
        name: Option<String>,
        email: Option<String>,
        hash: Option<String>,
        time: i64,
    ) -> (signature: SignatureInfo)
        ensures
            signature == (SignatureInfo { name, email, hash, time }),
    {
        SignatureInfo { name, email, hash, time }
    }
}

/// One commit as read from the object store.
#[derive(Clone, Debug, PartialEq, Eq)]
pub struct CommitInfo {
    pub id: Oid,
    pub summary: Option<String>,
    pub body: Option<String>,
    /// Commit time, in seconds since the epoch.
    pub time: i64,
    /// Parent ids in order: none for a root, one for an ordinary commit,
    /// two or more for a merge.
    pub parents: Vec<Oid>,
    pub author: SignatureInfo,
    pub committer: SignatureInfo,
}

impl CommitInfo {
    pub fn new(
        id: Oid,
        summary: Option<String>,
        body: Option<String>,
        time: i64,
        parents: Vec<Oid>,
        author: SignatureInfo,
        committer: SignatureInfo,
    ) -> (commit: CommitInfo)
        ensures
            commit == (CommitInfo { id, summary, body, time, parents, author, committer }),
    {
        CommitInfo { id, summary, body, time, parents, author, committer }
    }

    /// Whether the commit has two or more parents.
    pub fn is_merge(&self) -> (merge: bool)
        ensures
            merge == (self.parents@.len() >= 2),
    {
        self.parents.len() >= 2
    }
}

} // verus!
