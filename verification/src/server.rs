//! What the file server decides: where a raw file comes from, which media
//! type it has, and which headers every response carries.

use crate::diff::{blob_source, source_of, BlobSource};
use crate::errors::GitError;
use crate::git::parsed_oid;
use crate::oid::{Oid, OID_LEN};
use crate::text::text_of;
use mime_sniffer::MimeTypeSniffer;
use std::str::FromStr;
use vstd::prelude::*;
use vstd::string::*;

verus! {

/// Marks every response as open to any origin.
#[derive(Clone, Copy, Debug, PartialEq, Eq, Structural)]
pub struct CORS;

impl CORS {
    /// The name under which the headers are announced.
    pub fn name() -> (name: &'static str)
        ensures
            name@ == "Add CORS headers to responses"@,
    {
        "Add CORS headers to responses"
    }

    /// The headers that every response carries, each with its value.
    pub fn headers() -> (headers: [(&'static str, &'static str); 4])
        ensures
            headers[0].0@ == "Access-Control-Allow-Origin"@ && headers[0].1@ == "*"@,
            headers[1].0@ == "Access-Control-Allow-Methods"@ && headers[1].1@
                == "POST, GET, PATCH, OPTIONS"@,
            headers[2].0@ == "Access-Control-Allow-Headers"@ && headers[2].1@ == "*"@,
            headers[3].0@ == "Access-Control-Allow-Credentials"@ && headers[3].1@ == "true"@,
    {
        [
            ("Access-Control-Allow-Origin", "*"),
            ("Access-Control-Allow-Methods", "POST, GET, PATCH, OPTIONS"),
            ("Access-Control-Allow-Headers", "*"),
            ("Access-Control-Allow-Credentials", "true"),
        ]
    }
}

/// The message for a request that names the zero id and no file.
pub open spec fn file_needed() -> Seq<char> {
    "file needed for oid=0"@
}

/// Where a raw file comes from, by the id and the file of the request:
/// from the blob with that id, or, for the id whose bytes are all zero, from
/// the named file of the working directory. Fails for the zero id without a
/// file.
pub fn raw_source(id: Oid, file: Option<&str>) -> (source: Result<BlobSource, GitError>)
    ensures
        match source {
            Ok(found) => found == source_of(id) && (found == BlobSource::WorkingDir ==> file is Some),
            Err(error) => {
                &&& source_of(id) == BlobSource::WorkingDir
                &&& file is None
                &&& error matches GitError::Wrapped(message)
                &&& message@ == file_needed()
            },
        },
{
    match blob_source(id) {
        BlobSource::Object(id) => Ok(BlobSource::Object(id)),
        BlobSource::WorkingDir => match file {
            Some(_) => Ok(BlobSource::WorkingDir),
            None => Err(GitError::from_message("file needed for oid=0".to_owned())),
        },
    }
}

/// Where a raw file comes from, by the text of the id and the file of the
/// request. A text that is no object id is refused with the message of the
/// parser; an id that was read is dealt with as `raw_source` does.
pub fn raw_file_source(id: &str, file: Option<&str>) -> (source: Result<BlobSource, GitError>)
    ensures
        match source {
            Ok(found) => exists|id_read: Oid|
                parsed_oid(id@) == Ok::<Seq<u8>, Seq<char>>(id_read@) && found
                    == #[trigger] source_of(id_read) && (found == BlobSource::WorkingDir
                    ==> file is Some),
            Err(error) => match parsed_oid(id@) {
                Ok(bytes) => bytes == Seq::new(OID_LEN as nat, |i: int| 0u8) && file is None
                    && error.text() == file_needed(),
                Err(message) => error.text() == message,
            },
        },
{
    match Oid::from_hex(id) {
        Ok(id) => raw_source(id, file),
        Err(error) => Err(error),
    }
}

/// The media type that the first bytes of a content give away, if they give
/// one away.
pub uninterp spec fn sniffed_media_type(content: Seq<u8>) -> Option<Seq<char>>;

/// The content type that a text stands for, as the content type prints
/// itself, if the text stands for one.
pub uninterp spec fn parsed_content_type(text: Seq<char>) -> Option<Seq<char>>;

/// Calls `mime_sniffer::MimeTypeSniffer::sniff_mime_type` on the bytes. The
/// result depends on the bytes alone; the contract gives it the name
/// `sniffed_media_type` and claims nothing else.
#[verifier::external_body]
fn sniff(content: &Vec<u8>) -> (media: Option<String>)
    ensures
        text_of(media) == sniffed_media_type(content@),
{
    match content.sniff_mime_type() {
        Some(media) => Some(media.to_owned()),
        None => None,
    }
}

/// Calls `rocket::http::ContentType::from_str` and formats what it accepts
/// with the `Display` impl of the content type. The result depends on the
/// text alone; the contract gives it the name `parsed_content_type` and
/// claims nothing else.
#[verifier::external_body]
fn parse_content_type(text: &str) -> (parsed: Option<String>)
    ensures
        text_of(parsed) == parsed_content_type(text@),
{
    match rocket::http::ContentType::from_str(text) {
        Ok(kind) => Some(kind.to_string()),
        Err(_) => None,
    }
}

/// The content type of a raw file given what sniffing found: the sniffed
/// media type as a content type, if it is one. Without a result the file is
/// served as any type.
pub open spec fn content_type_from(sniffed: Option<Seq<char>>) -> Option<Seq<char>> {
    match sniffed {
        Some(media) => parsed_content_type(media),
        None => None,
    }
}

/// The content type of a sniffed media type.
pub fn content_type_of_media(sniffed: Option<String>) -> (kind: Option<String>)
    ensures
        text_of(kind) == content_type_from(text_of(sniffed)),
{
    match sniffed {
        Some(media) => parse_content_type(media.as_str()),
        None => None,
    }
}

/// The content type of a raw file, sniffed from its content.
pub fn content_type_of(content: &Vec<u8>) -> (kind: Option<String>)
    ensures
        text_of(kind) == content_type_from(sniffed_media_type(content@)),
{
    content_type_of_media(sniff(content))
}

} // verus!
