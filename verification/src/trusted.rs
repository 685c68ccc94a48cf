//! Contracts that Verus takes on trust: each item below names the standard
//! library or outside-crate function that it stands for.

use chrono::{Datelike, Timelike};
use vstd::prelude::*;
use crate::clock::LocalTimestamp;

verus! {

/// `String::push` (std): appends one character. The contract claims that the
/// string afterwards is the old contents followed by `ch`.
pub assume_specification[ String::push ](s: &mut String, ch: char)
    ensures
        final(s)@ == old(s)@.push(ch),
;

} // verus!

verus! {

/// What `Path::eq` (std) gives for two paths written as `a` and `b`: they
/// have the same components (which depends on the platform's separators).
pub uninterp spec fn same_path(a: Seq<char>, b: Seq<char>) -> bool;

/// `Path::eq` (std), on two path strings. The contract claims that the
/// result is the named function of the two strings, and that equal strings
/// name equal paths.
#[verifier::external_body]
pub(crate) fn path_eq(a: &str, b: &str) -> (r: bool)
    ensures
        r == same_path(a@, b@),
        a@ == b@ ==> r,
{
    std::path::Path::new(a) == std::path::Path::new(b)
}

} // verus!

verus! {

/// `chrono::Local::now()` with its calendar fields (`Datelike` and
/// `Timelike`). The result depends on the clock and the time zone; the
/// contract claims only the ranges that chrono documents for each field
/// (a nanosecond count of a second or more marks a leap second).
#[verifier::external_body]
pub(crate) fn local_now() -> (t: LocalTimestamp)
    ensures
        t.well_formed(),
{
    let now = chrono::Local::now();
    LocalTimestamp {
        year: now.year(),
        month: now.month(),
        day: now.day(),
        hour: now.hour(),
        minute: now.minute(),
        second: now.second(),
        nanosecond: now.nanosecond(),
    }
}

} // verus!

verus! {

/// What `str::to_lowercase` (std) gives for `s`: the Unicode lower case of
/// every character, with the rule for a final sigma.
pub uninterp spec fn unicode_lowercase(s: Seq<char>) -> Seq<char>;

/// `str::to_lowercase` (std). The contract claims that the result is the
/// named function of the argument; Unicode case mapping is not spelled out.
#[verifier::external_body]
pub(crate) fn to_lowercase(s: &str) -> (r: String)
    ensures
        r@ == unicode_lowercase(s@),
{
    s.to_lowercase()
}

/// What `String::from_utf8_lossy` (std) gives for `bytes`: the UTF-8 text,
/// each invalid sequence replaced by U+FFFD.
pub uninterp spec fn utf8_lossy(bytes: Seq<u8>) -> Seq<char>;

/// `String::from_utf8_lossy` (std), made owned. The contract claims that the
/// result is the named function of the bytes.
#[verifier::external_body]
pub(crate) fn from_utf8_lossy(bytes: &[u8]) -> (r: String)
    ensures
        r@ == utf8_lossy(bytes@),
{
    String::from_utf8_lossy(bytes).into_owned()
}

} // verus!

verus! {

/// What `Path::file_stem` (std) gives for a path written as `path`: the
/// final component without its extension, if there is a final component.
pub uninterp spec fn path_file_stem(path: Seq<char>) -> Option<Seq<char>>;

/// What `Path::extension` (std) gives for a path written as `path`.
pub uninterp spec fn path_extension(path: Seq<char>) -> Option<Seq<char>>;

/// What `Path::file_name` (std) gives for a path written as `path`.
pub uninterp spec fn path_file_name(path: Seq<char>) -> Option<Seq<char>>;

/// `Path::file_stem` (std) on a path given as a string, read back as a
/// string (a component of a UTF-8 path is UTF-8). The contract claims that
/// the result is the named function of the argument; the splitting rules of
/// `std::path` are not spelled out.
#[verifier::external_body]
pub(crate) fn file_stem(path: &str) -> (r: Option<String>)
    ensures
        match r {
            Some(s) => path_file_stem(path@) == Some(s@),
            None => path_file_stem(path@) is None,
        },
{
    std::path::Path::new(path).file_stem().and_then(|v| v.to_str()).map(|v| v.to_string())
}

/// `Path::extension` (std) on a path given as a string, read back as a
/// string. The contract claims that the result is the named function of the
/// argument.
#[verifier::external_body]
pub(crate) fn extension(path: &str) -> (r: Option<String>)
    ensures
        match r {
            Some(s) => path_extension(path@) == Some(s@),
            None => path_extension(path@) is None,
        },
{
    std::path::Path::new(path).extension().and_then(|v| v.to_str()).map(|v| v.to_string())
}

/// `Path::file_name` (std) on a path given as a string, read back as a
/// string. The contract claims that the result is the named function of the
/// argument.
#[verifier::external_body]
pub(crate) fn file_name(path: &str) -> (r: Option<String>)
    ensures
        match r {
            Some(s) => path_file_name(path@) == Some(s@),
            None => path_file_name(path@) is None,
        },
{
    std::path::Path::new(path).file_name().and_then(|v| v.to_str()).map(|v| v.to_string())
}

} // verus!

verus! {

/// The SHA-256 digest of `data`, as sha2's `Sha256` computes it.
pub uninterp spec fn sha256_digest(data: Seq<u8>) -> Seq<u8>;

/// `Digest::digest` of sha2's `Sha256`. The contract claims that the result
/// is the named function of the data, and that it is 32 bytes long (the
/// output size of SHA-256).
#[verifier::external_body]
pub(crate) fn sha256(data: &[u8]) -> (r: Vec<u8>)
    ensures
        r@ == sha256_digest(data@),
        r@.len() == 32,
{
    <sha2::Sha256 as sha2::Digest>::digest(data).to_vec()
}

/// base64's decoding error.
#[verifier::external_type_specification]
#[verifier::external_body]
pub struct ExDecodeError(base64::DecodeError);

/// What the standard base64 engine decodes `text` into, where it is valid.
pub uninterp spec fn base64_decoded(text: Seq<char>) -> Option<Seq<u8>>;

/// `Engine::decode` of base64's `general_purpose::STANDARD` engine. The
/// contract claims that the result is the named function of the text.
#[verifier::external_body]
pub(crate) fn base64_decode(text: &str) -> (r: Result<Vec<u8>, base64::DecodeError>)
    ensures
        match r {
            Ok(b) => base64_decoded(text@) == Some(b@),
            Err(_) => base64_decoded(text@) is None,
        },
{
    base64::Engine::decode(&base64::engine::general_purpose::STANDARD, text)
}

/// The `Display` text of a base64 decoding error. The error is opaque here,
/// so the contract claims nothing of the text.
#[verifier::external_body]
pub(crate) fn decode_error_text(e: &base64::DecodeError) -> (r: String) {
    e.to_string()
}

/// `Uuid::new_v4` (uuid) in its hyphenated form. The value is random; the
/// contract claims only the form's length, 36 characters.
#[verifier::external_body]
pub(crate) fn new_uuid_v4() -> (r: String)
    ensures
        r@.len() == 36,
{
    uuid::Uuid::new_v4().to_string()
}

} // verus!
