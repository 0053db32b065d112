//! What the library takes from outside code, with the contracts it relies on.
//!
//! Nothing here is proved: each contract below is a claim about the outside function it
//! names, stated from that function's source or documentation.

use vstd::prelude::*;
use std::time::Duration;
use vstd::utf8::{valid_utf8, decode_utf8};

verus! {

/// A JSON value (`serde_json::Value`). The library carries such values through without
/// reading them.
#[verifier::external_type_specification]
#[verifier::external_body]
pub struct ExJsonValue(serde_json::Value);

/// An MCP protocol error (`rmcp::model::ErrorData`): an error code, a message and optional
/// data. The library builds such values and hands them on without reading them.
#[verifier::external_type_specification]
#[verifier::external_body]
pub struct ExErrorData(rmcp::model::ErrorData);

/// The duration of `secs` whole seconds, as `Duration::from_secs` makes it.
pub uninterp spec fn duration_of_secs(secs: u64) -> Duration;

/// Calls `Duration::from_secs`, which depends on `secs` alone.
#[verifier::external_body]
pub(crate) fn duration_from_secs(secs: u64) -> (d: Duration)
    ensures
        d == duration_of_secs(secs),
{
    Duration::from_secs(secs)
}

/// The text that `String::from_utf8_lossy` decodes from `bytes`: invalid sequences become
/// U+FFFD.
pub uninterp spec fn utf8_lossy(bytes: Seq<u8>) -> Seq<char>;

/// Calls `String::from_utf8_lossy`. Its documentation promises that valid UTF-8 is decoded
/// unchanged; how invalid sequences are replaced is left to the name `utf8_lossy`.
#[verifier::external_body]
pub(crate) fn utf8_lossy_text(bytes: &Vec<u8>) -> (r: String)
    ensures
        r@ == utf8_lossy(bytes@),
        valid_utf8(bytes@) ==> r@ == decode_utf8(bytes@),
{
    String::from_utf8_lossy(bytes.as_slice()).into_owned()
}

/// The error that `ErrorData::invalid_params(message, None)` builds (code -32602, no data).
pub uninterp spec fn invalid_params_data(message: Seq<char>) -> rmcp::model::ErrorData;

/// Calls `rmcp::model::ErrorData::invalid_params` with no data; the result depends on the
/// message alone.
#[verifier::external_body]
pub(crate) fn invalid_params_error(message: String) -> (r: rmcp::model::ErrorData)
    ensures
        r == invalid_params_data(message@),
{
    rmcp::model::ErrorData::invalid_params(message, None)
}

/// The error that `ErrorData::internal_error(message, None)` builds (code -32603, no data).
pub uninterp spec fn internal_error_data(message: Seq<char>) -> rmcp::model::ErrorData;

/// Calls `rmcp::model::ErrorData::internal_error` with no data; the result depends on the
/// message alone.
#[verifier::external_body]
pub(crate) fn internal_error(message: String) -> (r: rmcp::model::ErrorData)
    ensures
        r == internal_error_data(message@),
{
    rmcp::model::ErrorData::internal_error(message, None)
}

} // verus!
