//! How the answer of a run becomes the reply of the MCP tool.

use vstd::prelude::*;
use crate::bindings::invalid_params_data;
use crate::error::{
    details_view, is_invalid_params_error, message_of, payload_details_of, payload_type_of,
    AppError, ErrorPayload,
};
use crate::types::{GeminiRunResponse, RunStatus};

verus! {

/// The reply of the run tool.
#[derive(Debug)]
pub enum ToolReply {
    /// A successful run: the answer as the tool's structured result.
    Structured(GeminiRunResponse),
    /// A failed run: the answer as the tool's structured result, marked as an error.
    StructuredError(GeminiRunResponse),
    /// A refused request: an MCP protocol error.
    Rejected(rmcp::model::ErrorData),
    /// A failure of the server: an error payload as the tool's structured result, marked as an
    /// error.
    Failed(ErrorPayload),
}

/// The reply of the run tool to the outcome of a run: an answer is the tool's result (marked as
/// an error when the run failed); a refused request is a protocol error; any other error is
/// reported as an error payload.
pub fn run_tool_reply(result: Result<GeminiRunResponse, AppError>) -> (r: ToolReply)
    ensures
        match result {
            Ok(resp) => if resp.status == RunStatus::Success {
                r == ToolReply::Structured(resp)
            } else {
                r == ToolReply::StructuredError(resp)
            },
            Err(e) => if is_invalid_params_error(e@) {
                r == ToolReply::Rejected(invalid_params_data(message_of(e@)))
            } else {
                r matches ToolReply::Failed(p) && {
                    &&& p.status@ == "error"@
                    &&& p.error.error_type@ == payload_type_of(e@)
                    &&& p.error.message@ == message_of(e@)
                    &&& details_view(p.error.details) == payload_details_of(e@)
                }
            },
        },
{
    match result {
        Ok(resp) => match resp.status {
            RunStatus::Success => ToolReply::Structured(resp),
            RunStatus::Error => ToolReply::StructuredError(resp),
        },
        Err(e) => if e.is_invalid_params() {
            ToolReply::Rejected(e.to_error_data())
        } else {
            ToolReply::Failed(e.to_error_payload())
        },
    }
}

} // verus!
