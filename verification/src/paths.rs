//! What the protocol takes from std's paths.
use std::path::PathBuf;

use vstd::prelude::*;
use vstd::utf8::*;

verus! {

/// An owned path of std, known here by the bytes that it is made of alone.
#[verifier::external_type_specification]
#[verifier::external_body]
pub struct ExPathBuf(PathBuf);

/// The bytes that a path is made of. On Unix, where the protocol is at home, a path is just bytes.
pub uninterp spec fn path_bytes(path: PathBuf) -> Seq<u8>;

/// `PathBuf::from` a string is made of the string's UTF-8 form.
#[verifier::external_body]
pub(crate) fn path_from_text(s: String) -> (path: PathBuf)
    ensures
        path_bytes(path) == encode_utf8(s@),
{
    PathBuf::from(s)
}

/// `OsStr::as_encoded_bytes` lends the bytes that a path is made of.
#[verifier::external_body]
pub(crate) fn path_slice(path: &PathBuf) -> (slice: &[u8])
    ensures
        slice@ == path_bytes(*path),
{
    path.as_os_str().as_encoded_bytes()
}

/// `PathBuf::clone` is made of the same bytes.
pub assume_specification[ <PathBuf as Clone>::clone ](path: &PathBuf) -> (copy: PathBuf)
    ensures
        path_bytes(copy) == path_bytes(*path),
;

/// The `Debug` form of a path that is made of these bytes.
pub uninterp spec fn path_text(path: Seq<u8>) -> Seq<char>;

/// The `Debug` form that std gives a `PathBuf`: quoted, with the escapes that std chooses.
#[verifier::external_body]
pub(crate) fn describe_path(path: &PathBuf) -> (text: String)
    ensures
        text@ == path_text(path_bytes(*path)),
{
    format!("{:?}", path)
}

} // verus!
