//! The values that the tools take and return, and the events of the CLI's `stream-json` output.

use vstd::prelude::*;
use std::collections::BTreeMap;

verus! {

/// The arguments of a run.
#[derive(Debug, Clone)]
pub struct GeminiRunRequest {
    /// Prompt to send to `gemini -p`.
    pub prompt: String,
    /// Working directory for the gemini subprocess.
    pub cwd: Option<String>,
    /// Optional timeout override in seconds.
    pub timeout_secs: Option<u64>,
    /// Optional `--model` override.
    pub model: Option<String>,
    /// Include parsed stream-json events in the response.
    pub include_events: Option<bool>,
    /// Always include stderr in the response, even on success.
    pub include_stderr: Option<bool>,
}

/// Whether a run succeeded.
#[derive(Debug, Clone, Copy, PartialEq, Eq, Structural)]
pub enum RunStatus {
    Success,
    Error,
}

/// An error: its kind and its message.
#[derive(Debug, Clone)]
pub struct ErrorInfo {
    /// The kind of error (the `type` member of its JSON form).
    pub error_type: String,
    /// What went wrong.
    pub message: String,
}

/// The view of an optional error: its kind and message.
pub open spec fn error_info_view(e: Option<ErrorInfo>) -> Option<(Seq<char>, Seq<char>)> {
    match e {
        Some(i) => Some((i.error_type@, i.message@)),
        None => None,
    }
}

/// Token counts of one model.
#[derive(Debug, Clone, Copy, PartialEq, Eq, Structural)]
pub struct ModelStreamStats {
    pub total_tokens: u64,
    pub input_tokens: u64,
    pub output_tokens: u64,
    pub cached: u64,
    pub input: u64,
}

/// Statistics of a run, as the CLI's final event reports them.
#[derive(Debug, Clone)]
pub struct StreamStats {
    pub total_tokens: u64,
    pub input_tokens: u64,
    pub output_tokens: u64,
    pub cached: u64,
    pub input: u64,
    pub duration_ms: u64,
    pub tool_calls: u64,
    /// Per-model counts (absent from the event means empty).
    pub models: BTreeMap<String, ModelStreamStats>,
}

/// The value of a [`StreamStats`].
pub struct StreamStatsView {
    pub total_tokens: u64,
    pub input_tokens: u64,
    pub output_tokens: u64,
    pub cached: u64,
    pub input: u64,
    pub duration_ms: u64,
    pub tool_calls: u64,
    pub models: Map<String, ModelStreamStats>,
}

impl View for StreamStats {
    type V = StreamStatsView;

    open spec fn view(&self) -> StreamStatsView {
        StreamStatsView {
            total_tokens: self.total_tokens,
            input_tokens: self.input_tokens,
            output_tokens: self.output_tokens,
            cached: self.cached,
            input: self.input,
            duration_ms: self.duration_ms,
            tool_calls: self.tool_calls,
            models: self.models@,
        }
    }
}

/// The view of optional statistics.
pub open spec fn stats_view(s: Option<StreamStats>) -> Option<StreamStatsView> {
    match s {
        Some(st) => Some(st@),
        None => None,
    }
}

/// A copy of a run's statistics.
pub fn copy_stats(s: &StreamStats) -> (r: StreamStats)
    ensures
        r@ == s@,
{
    StreamStats {
        total_tokens: s.total_tokens,
        input_tokens: s.input_tokens,
        output_tokens: s.output_tokens,
        cached: s.cached,
        input: s.input,
        duration_ms: s.duration_ms,
        tool_calls: s.tool_calls,
        models: s.models.clone(),
    }
}

/// Who wrote a message.
#[derive(Debug, Clone, Copy, PartialEq, Eq, Structural)]
pub enum MessageRole {
    User,
    Assistant,
}

/// How bad a reported error is.
#[derive(Debug, Clone, Copy, PartialEq, Eq, Structural)]
pub enum ErrorSeverity {
    Warning,
    Error,
}

/// Whether a tool call of the model succeeded.
#[derive(Debug, Clone, Copy, PartialEq, Eq, Structural)]
pub enum ToolResultStatus {
    Success,
    Error,
}

/// One event of the CLI's `stream-json` output (one JSON object per line, tagged by `type`).
#[derive(Debug)]
#[allow(inconsistent_fields)]
pub enum GeminiStreamEvent {
    /// The session started.
    Init { timestamp: String, session_id: String, model: String },
    /// A message, or a piece of one when `delta` is set.
    Message { timestamp: String, role: MessageRole, content: String, delta: Option<bool> },
    /// The model called a tool.
    ToolUse {
        timestamp: String,
        tool_name: String,
        tool_id: String,
        parameters: serde_json::Value,
    },
    /// A tool call finished.
    ToolResult {
        timestamp: String,
        tool_id: String,
        status: ToolResultStatus,
        output: Option<String>,
        error: Option<ErrorInfo>,
    },
    /// The CLI reported an error.
    Error { timestamp: String, severity: ErrorSeverity, message: String },
    /// The run ended.
    Result {
        timestamp: String,
        status: RunStatus,
        error: Option<ErrorInfo>,
        stats: Option<StreamStats>,
    },
}

/// What a run returns.
#[derive(Debug)]
pub struct GeminiRunResponse {
    pub status: RunStatus,
    /// The assistant's messages, concatenated.
    pub response: String,
    pub session_id: Option<String>,
    pub model: Option<String>,
    pub stats: Option<StreamStats>,
    pub error: Option<ErrorInfo>,
    pub exit_code: i32,
    pub timed_out: bool,
    pub duration_ms: u64,
    pub gemini_bin: String,
    pub resolved_bin: Option<String>,
    pub cwd: String,
    /// The command line that ran.
    pub invocation: Vec<String>,
    pub stderr: Option<String>,
    pub events: Option<Vec<GeminiStreamEvent>>,
}

/// The state of a healthy binary (`"ok"` in JSON).
#[derive(Debug, Clone, Copy, PartialEq, Eq, Structural)]
pub enum HealthStatus {
    Healthy,
}

/// What a health check returns.
#[derive(Debug, Clone)]
pub struct GeminiHealthResponse {
    pub status: HealthStatus,
    pub gemini_bin: String,
    pub resolved_bin: Option<String>,
    pub version_output: String,
    pub stderr: Option<String>,
}

} // verus!
