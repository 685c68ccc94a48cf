//! Exporting a report: its content comes as text, or as base64 for binary
//! formats.

use vstd::prelude::*;
use crate::text::owned;
use crate::trusted::{base64_decode, base64_decoded, decode_error_text};

verus! {

/// What an exported report file holds.
#[derive(Debug, Clone)]
pub enum ReportPayload {
    /// Text, written as UTF-8.
    Text(String),
    /// Bytes decoded from base64.
    Binary(Vec<u8>),
}

/// The content of an exported report: the text where there is one, else the
/// decoded base64 content (an invalid encoding is an error with base64's
/// message), else the error "缺少导出内容".
pub fn report_export_payload(text_content: Option<String>, base64_content: Option<String>) -> (r: Result<ReportPayload, String>)
    ensures
        text_content matches Some(t) ==> (r matches Ok(ReportPayload::Text(x)) && x@ == t@),
        text_content is None ==> (base64_content matches Some(b) ==> match base64_decoded(b@) {
            Some(bytes) => (r matches Ok(ReportPayload::Binary(v)) && v@ == bytes),
            None => r is Err,
        }),
        text_content is None && base64_content is None ==> (r matches Err(e) && e@ == "缺少导出内容"@),
{
    match text_content {
        Some(t) => Ok(ReportPayload::Text(t)),
        None => match base64_content {
            Some(b) => match base64_decode(b.as_str()) {
                Ok(v) => Ok(ReportPayload::Binary(v)),
                Err(e) => Err(decode_error_text(&e)),
            },
            None => Err(owned("缺少导出内容")),
        },
    }
}

} // verus!
