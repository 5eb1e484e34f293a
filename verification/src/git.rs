//! What the library takes from `git2`: the text form of object ids and the
//! messages of its errors.

use crate::errors::{CommitError, GitError, OpenRepoError, StageError};
use crate::history::{
    RepositoryError, CLASS_FILESYSTEM, CLASS_OS, CODE_NOT_FOUND, CODE_UNBORN_BRANCH,
};
use crate::oid::Oid;
use vstd::prelude::*;

verus! {

/// The error type of `git2`, carried through as it is: nothing inside it
/// is seen here.
#[verifier::external_type_specification]
#[verifier::external_body]
pub struct ExGit2Error(git2::Error);

/// The bytes of the object id that a text stands for; for a text that
/// stands for none, the message with which it is refused.
pub uninterp spec fn parsed_oid(text: Seq<char>) -> Result<Seq<u8>, Seq<char>>;

/// The code of an error of the object store, as a number.
pub uninterp spec fn error_code(error: git2::Error) -> i32;

/// The class of an error of the object store, as a number.
pub uninterp spec fn error_class(error: git2::Error) -> i32;

/// The message of an error of the object store.
pub uninterp spec fn error_message(error: git2::Error) -> Seq<char>;

/// The digit of a value below sixteen.
pub open spec fn hex_digit(value: int) -> char {
    "0123456789abcdef"@[value]
}

/// The text form of bytes: two lowercase hexadecimal digits for each byte,
/// the high half first.
pub open spec fn hex_of(bytes: Seq<u8>) -> Seq<char> {
    Seq::new(
        2 * bytes.len(),
        |i: int|
            if i % 2 == 0 {
                hex_digit(bytes[i / 2] as int / 16)
            } else {
                hex_digit(bytes[i / 2] as int % 16)
            },
    )
}

/// Calls `git2::Oid::from_str`, which parses the hexadecimal form of an
/// object id. What it accepts, which id it gives and with which message it
/// refuses depend on the text alone; the contract gives that the name
/// `parsed_oid` and claims nothing else.
#[verifier::external_body]
fn parse_oid(text: &str) -> (parsed: Result<Oid, git2::Error>)
    ensures
        match parsed {
            Ok(id) => parsed_oid(text@) == Ok::<Seq<u8>, Seq<char>>(id@),
            Err(error) => parsed_oid(text@) == Err::<Seq<u8>, Seq<char>>(error_message(error)),
        },
{
    let raw = git2::Oid::from_str(text)?;
    let mut bytes = [0u8; 20];
    bytes.copy_from_slice(raw.as_bytes());
    Ok(Oid::from_bytes(bytes))
}

/// Formats an id with the `Display` impl of `git2::Oid`: forty lowercase
/// hexadecimal digits, two for each byte.
#[verifier::external_body]
fn format_oid(id: &Oid) -> (hex: String)
    ensures
        hex@ == hex_of(id@),
{
    match git2::Oid::from_bytes(id.as_bytes()) {
        Ok(raw) => raw.to_string(),
        Err(_) => String::new(),
    }
}

/// Calls `git2::Error::message`. The message belongs to the error alone;
/// the contract gives it the name `error_message` and claims nothing else.
#[verifier::external_body]
fn message_of(error: &git2::Error) -> (message: String)
    ensures
        message@ == error_message(*error),
{
    error.message().to_owned()
}

/// Calls `git2::Error::raw_code`: the code of the error as a number. The
/// code belongs to the error alone; the contract gives it the name
/// `error_code` and claims nothing else.
#[verifier::external_body]
fn code_of(error: &git2::Error) -> (code: i32)
    ensures
        code == error_code(*error),
{
    error.raw_code() as i32
}

/// Calls `git2::Error::raw_class`: the class of the error as a number. The
/// class belongs to the error alone; the contract gives it the name
/// `error_class` and claims nothing else.
#[verifier::external_body]
fn class_of(error: &git2::Error) -> (class: i32)
    ensures
        class == error_class(*error),
{
    error.raw_class() as i32
}

impl RepositoryError {
    /// The failure that an error of the object store stands for: it keeps
    /// the message of the error, and its kind goes by the code and the class
    /// of the error as `classify` says.
    pub fn from_git(error: &git2::Error) -> (failure: RepositoryError)
        ensures
            failure.text() == error_message(*error),
            failure is NotFound <==> (error_code(*error) == CODE_NOT_FOUND || error_code(*error)
                == CODE_UNBORN_BRANCH),
            failure is Io <==> (!(failure is NotFound) && (error_class(*error) == CLASS_OS
                || error_class(*error) == CLASS_FILESYSTEM)),
    {
        let code = code_of(error);
        let class = class_of(error);
        let message = message_of(error);
        RepositoryError::classify(code, class, message)
    }
}

impl Oid {
    /// Parses the hexadecimal form of an id. A text that is no id is
    /// refused with the message of the parser.
    pub fn from_hex(text: &str) -> (parsed: Result<Oid, GitError>)
        ensures
            match parsed {
                Ok(id) => parsed_oid(text@) == Ok::<Seq<u8>, Seq<char>>(id@),
                Err(error) => parsed_oid(text@) == Err::<Seq<u8>, Seq<char>>(error.text()),
            },
    {
        match parse_oid(text) {
            Ok(id) => Ok(id),
            Err(error) => Err(GitError::from_git(&error)),
        }
    }

    /// The hexadecimal form of the id: forty lowercase digits.
    pub fn to_hex(&self) -> (hex: String)
        ensures
            hex@ == hex_of(self@),
            hex@.len() == 40,
    {
        proof {
            Oid::lemma_view_injective(*self, *self);
        }
        format_oid(self)
    }
}

impl GitError {
    /// The failure that an error of the object store stands for: it wraps
    /// the message of the error.
    pub fn from_git(error: &git2::Error) -> (wrapped: GitError)
        ensures
            wrapped.text() == error_message(*error),
    {
        GitError::from_message(message_of(error))
    }
}

impl CommitError {
    /// The failure that an error of the object store stands for: `Read`
    /// with the message of the error.
    pub fn from_git(error: &git2::Error) -> (wrapped: CommitError)
        ensures
            wrapped matches CommitError::Read(message) && message@ == error_message(*error),
    {
        CommitError::from_message(message_of(error))
    }
}

impl OpenRepoError {
    /// The failure that an error of the object store stands for: `Read`
    /// with the message of the error.
    pub fn from_git(error: &git2::Error) -> (wrapped: OpenRepoError)
        ensures
            wrapped matches OpenRepoError::Read(message) && message@ == error_message(*error),
    {
        OpenRepoError::from_message(message_of(error))
    }
}

impl StageError {
    /// The failure that an error of the object store stands for: `Read`
    /// with the message of the error.
    pub fn from_git(error: &git2::Error) -> (wrapped: StageError)
        ensures
            wrapped matches StageError::Read(message) && message@ == error_message(*error),
    {
        StageError::from_message(message_of(error))
    }
}

} // verus!
