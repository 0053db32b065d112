//! The errors of the server, their messages, and how each is reported to an MCP client.

use vstd::prelude::*;
use crate::bindings::{invalid_params_data, internal_error_data, invalid_params_error, internal_error};
use crate::text::{views, copy_strings, decimal, u64_to_text};

verus! {

/// An error of the server.
///
/// Errors that come from the operating system or from a parser are held as their messages.
#[derive(Debug)]
pub enum AppError {
    /// A tool argument is invalid.
    InvalidParams(String),
    /// The configured binary was not found.
    BinaryNotFound { configured: String },
    /// The working directory does not exist or is not a directory.
    InvalidWorkingDirectory(String),
    /// The working directory lies outside every allowed prefix.
    WorkingDirectoryNotAllowed { cwd: String, allowed_prefixes: Vec<String> },
    /// The requested model is not in the allowlist (which is listed in sorted order).
    ModelNotAllowed { model: String, allowed: Vec<String> },
    /// The requested timeout exceeds the configured maximum.
    TimeoutTooLarge { requested_secs: u64, max_secs: u64 },
    /// The environment configuration is invalid.
    InvalidConfiguration(String),
    /// The process could not be started.
    SpawnProcess(String),
    /// Waiting for the process, or reading its output, failed.
    WaitProcess(String),
    /// The timed out process could not be terminated.
    KillProcess(String),
    /// The process had no stdout pipe.
    MissingStdout,
    /// The process had no stderr pipe.
    MissingStderr,
    /// A reader task could not be joined.
    JoinTask(String),
    /// A line of the event stream is not a valid event.
    ParseStreamLine { line: String, source: String },
}

/// The value of an [`AppError`], with texts as character sequences.
pub enum AppErrorView {
    InvalidParams(Seq<char>),
    BinaryNotFound { configured: Seq<char> },
    InvalidWorkingDirectory(Seq<char>),
    WorkingDirectoryNotAllowed { cwd: Seq<char>, allowed_prefixes: Seq<Seq<char>> },
    ModelNotAllowed { model: Seq<char>, allowed: Seq<Seq<char>> },
    TimeoutTooLarge { requested_secs: u64, max_secs: u64 },
    InvalidConfiguration(Seq<char>),
    SpawnProcess(Seq<char>),
    WaitProcess(Seq<char>),
    KillProcess(Seq<char>),
    MissingStdout,
    MissingStderr,
    JoinTask(Seq<char>),
    ParseStreamLine { line: Seq<char>, source: Seq<char> },
}

impl View for AppError {
    type V = AppErrorView;

    open spec fn view(&self) -> AppErrorView {
        match self {
            AppError::InvalidParams(m) => AppErrorView::InvalidParams(m@),
            AppError::BinaryNotFound { configured } => AppErrorView::BinaryNotFound {
                configured: configured@,
            },
            AppError::InvalidWorkingDirectory(p) => AppErrorView::InvalidWorkingDirectory(p@),
            AppError::WorkingDirectoryNotAllowed { cwd, allowed_prefixes } =>
                AppErrorView::WorkingDirectoryNotAllowed {
                cwd: cwd@,
                allowed_prefixes: views(allowed_prefixes@),
            },
            AppError::ModelNotAllowed { model, allowed } => AppErrorView::ModelNotAllowed {
                model: model@,
                allowed: views(allowed@),
            },
            AppError::TimeoutTooLarge { requested_secs, max_secs } =>
                AppErrorView::TimeoutTooLarge {
                requested_secs: *requested_secs,
                max_secs: *max_secs,
            },
            AppError::InvalidConfiguration(m) => AppErrorView::InvalidConfiguration(m@),
            AppError::SpawnProcess(m) => AppErrorView::SpawnProcess(m@),
            AppError::WaitProcess(m) => AppErrorView::WaitProcess(m@),
            AppError::KillProcess(m) => AppErrorView::KillProcess(m@),
            AppError::MissingStdout => AppErrorView::MissingStdout,
            AppError::MissingStderr => AppErrorView::MissingStderr,
            AppError::JoinTask(m) => AppErrorView::JoinTask(m@),
            AppError::ParseStreamLine { line, source } => AppErrorView::ParseStreamLine {
                line: line@,
                source: source@,
            },
        }
    }
}

/// The view of a result whose error is an [`AppError`].
pub open spec fn result_view<T>(r: Result<T, AppError>) -> Result<T, AppErrorView> {
    match r {
        Ok(v) => Ok(v),
        Err(e) => Err(e@),
    }
}

/// The human-readable message of an error.
pub open spec fn message_of(e: AppErrorView) -> Seq<char> {
    match e {
        AppErrorView::InvalidParams(m) => "invalid parameter: "@ + m,
        AppErrorView::BinaryNotFound { configured } => "configured gemini binary was not found: "@
            + configured,
        AppErrorView::InvalidWorkingDirectory(p) =>
            "working directory does not exist or is not a directory: "@ + p,
        AppErrorView::WorkingDirectoryNotAllowed { cwd, .. } =>
            "working directory is outside allowed prefixes: "@ + cwd,
        AppErrorView::ModelNotAllowed { model, .. } => "requested model '"@ + model
            + "' is not in the configured allowlist"@,
        AppErrorView::TimeoutTooLarge { requested_secs, max_secs } => "requested timeout "@
            + decimal(requested_secs as nat) + "s exceeds configured max "@ + decimal(
            max_secs as nat,
        ) + "s"@,
        AppErrorView::InvalidConfiguration(m) => "invalid environment configuration: "@ + m,
        AppErrorView::SpawnProcess(m) => "failed to spawn gemini process: "@ + m,
        AppErrorView::WaitProcess(m) => "failed to wait for gemini process: "@ + m,
        AppErrorView::KillProcess(m) => "failed to terminate timed out gemini process: "@ + m,
        AppErrorView::MissingStdout => "gemini process did not expose stdout"@,
        AppErrorView::MissingStderr => "gemini process did not expose stderr"@,
        AppErrorView::JoinTask(m) => "failed to join subprocess reader task: "@ + m,
        AppErrorView::ParseStreamLine { line, .. } => "failed to parse stream-json line: "@ + line,
    }
}

/// Whether the error is the client's fault: a bad argument rather than a failure of the server.
pub open spec fn is_invalid_params_error(e: AppErrorView) -> bool {
    match e {
        AppErrorView::InvalidParams(_) => true,
        AppErrorView::InvalidWorkingDirectory(_) => true,
        AppErrorView::WorkingDirectoryNotAllowed { .. } => true,
        AppErrorView::ModelNotAllowed { .. } => true,
        AppErrorView::TimeoutTooLarge { .. } => true,
        _ => false,
    }
}

/// The client's faults are exactly the bad arguments: an invalid parameter, a working directory
/// that does not exist or is not allowed, a model that is not allowed, and a timeout above the
/// maximum. A missing binary, a bad configuration, and every failure to start, wait for, kill or
/// read the process is the server's.
pub proof fn lemma_client_faults(e: AppErrorView)
    ensures
        is_invalid_params_error(e) <==> (e is InvalidParams || e is InvalidWorkingDirectory
            || e is WorkingDirectoryNotAllowed || e is ModelNotAllowed || e is TimeoutTooLarge),
        (e is SpawnProcess || e is WaitProcess || e is KillProcess || e is MissingStdout
            || e is MissingStderr || e is JoinTask || e is ParseStreamLine || e is BinaryNotFound
            || e is InvalidConfiguration) ==> !is_invalid_params_error(e),
{
}

/// The `type` that an error payload gives for an error.
pub open spec fn payload_type_of(e: AppErrorView) -> Seq<char> {
    match e {
        AppErrorView::ModelNotAllowed { .. } => "model_not_allowed"@,
        AppErrorView::WorkingDirectoryNotAllowed { .. } => "cwd_not_allowed"@,
        _ => "server_error"@,
    }
}

/// The details of an error payload.
#[derive(Debug)]
pub enum ErrorPayloadDetails {
    /// The refused model and the allowlist.
    ModelNotAllowed { model: String, allowed: Vec<String> },
    /// The refused working directory and the allowed prefixes.
    CwdNotAllowed { cwd: String, allowed_prefixes: Vec<String> },
}

/// The `error` member of an error payload.
#[derive(Debug)]
pub struct ErrorPayloadBody {
    /// The kind of error: `model_not_allowed`, `cwd_not_allowed` or `server_error`.
    pub error_type: String,
    /// The error's message.
    pub message: String,
    /// Details, for the two kinds that have them.
    pub details: Option<ErrorPayloadDetails>,
}

/// The structured error that a tool call reports as its result:
/// `{"status": "error", "error": {"type", "message", "details"?}}`.
#[derive(Debug)]
pub struct ErrorPayload {
    /// Always `error`.
    pub status: String,
    /// What went wrong.
    pub error: ErrorPayloadBody,
}

/// The details that a payload gives for an error, as character sequences.
pub open spec fn payload_details_of(e: AppErrorView) -> Option<(Seq<char>, Seq<Seq<char>>)> {
    match e {
        AppErrorView::ModelNotAllowed { model, allowed } => Some((model, allowed)),
        AppErrorView::WorkingDirectoryNotAllowed { cwd, allowed_prefixes } => Some(
            (cwd, allowed_prefixes),
        ),
        _ => None,
    }
}

/// The view of a payload's details.
pub open spec fn details_view(d: Option<ErrorPayloadDetails>) -> Option<(Seq<char>, Seq<Seq<char>>)> {
    match d {
        Some(ErrorPayloadDetails::ModelNotAllowed { model, allowed }) => Some(
            (model@, views(allowed@)),
        ),
        Some(ErrorPayloadDetails::CwdNotAllowed { cwd, allowed_prefixes }) => Some(
            (cwd@, views(allowed_prefixes@)),
        ),
        None => None,
    }
}

impl AppError {
    /// Whether the error is a bad argument of the client.
    pub fn is_invalid_params(&self) -> (b: bool)
        ensures
            b == is_invalid_params_error(self@),
    {
        match self {
            AppError::InvalidParams(_) => true,
            AppError::InvalidWorkingDirectory(_) => true,
            AppError::WorkingDirectoryNotAllowed { .. } => true,
            AppError::ModelNotAllowed { .. } => true,
            AppError::TimeoutTooLarge { .. } => true,
            _ => false,
        }
    }

    /// The error's message (what its `Display` shows).
    pub fn message(&self) -> (r: String)
        ensures
            r@ == message_of(self@),
    {
        match self {
            AppError::InvalidParams(m) => String::from_str("invalid parameter: ").concat(
                m.as_str(),
            ),
            AppError::BinaryNotFound { configured } => String::from_str(
                "configured gemini binary was not found: ",
            ).concat(configured.as_str()),
            AppError::InvalidWorkingDirectory(p) => String::from_str(
                "working directory does not exist or is not a directory: ",
            ).concat(p.as_str()),
            AppError::WorkingDirectoryNotAllowed { cwd, .. } => String::from_str(
                "working directory is outside allowed prefixes: ",
            ).concat(cwd.as_str()),
            AppError::ModelNotAllowed { model, .. } => String::from_str(
                "requested model '",
            ).concat(model.as_str()).concat("' is not in the configured allowlist"),
            AppError::TimeoutTooLarge { requested_secs, max_secs } => {
                let a = u64_to_text(*requested_secs);
                let b = u64_to_text(*max_secs);
                String::from_str("requested timeout ").concat(a.as_str()).concat(
                    "s exceeds configured max ",
                ).concat(b.as_str()).concat("s")
            },
            AppError::InvalidConfiguration(m) => String::from_str(
                "invalid environment configuration: ",
            ).concat(m.as_str()),
            AppError::SpawnProcess(m) => String::from_str("failed to spawn gemini process: ").concat(
                m.as_str(),
            ),
            AppError::WaitProcess(m) => String::from_str(
                "failed to wait for gemini process: ",
            ).concat(m.as_str()),
            AppError::KillProcess(m) => String::from_str(
                "failed to terminate timed out gemini process: ",
            ).concat(m.as_str()),
            AppError::MissingStdout => String::from_str("gemini process did not expose stdout"),
            AppError::MissingStderr => String::from_str("gemini process did not expose stderr"),
            AppError::JoinTask(m) => String::from_str(
                "failed to join subprocess reader task: ",
            ).concat(m.as_str()),
            AppError::ParseStreamLine { line, .. } => String::from_str(
                "failed to parse stream-json line: ",
            ).concat(line.as_str()),
        }
    }

    /// The MCP protocol error that reports this error: `invalid_params` for a bad argument,
    /// `internal_error` otherwise, with the error's message and no data.
    pub fn to_error_data(&self) -> (r: rmcp::model::ErrorData)
        ensures
            r == (if is_invalid_params_error(self@) {
                invalid_params_data(message_of(self@))
            } else {
                internal_error_data(message_of(self@))
            }),
    {
        let message = self.message();
        if self.is_invalid_params() {
            invalid_params_error(message)
        } else {
            internal_error(message)
        }
    }

    /// The structured payload that reports this error as a failed tool call.
    pub fn to_error_payload(&self) -> (r: ErrorPayload)
        ensures
            r.status@ == "error"@,
            r.error.error_type@ == payload_type_of(self@),
            r.error.message@ == message_of(self@),
            details_view(r.error.details) == payload_details_of(self@),
    {
        let message = self.message();
        match self {
            AppError::ModelNotAllowed { model, allowed } => ErrorPayload {
                status: String::from_str("error"),
                error: ErrorPayloadBody {
                    error_type: String::from_str("model_not_allowed"),
                    message,
                    details: Some(
                        ErrorPayloadDetails::ModelNotAllowed {
                            model: model.clone(),
                            allowed: copy_strings(allowed),
                        },
                    ),
                },
            },
            AppError::WorkingDirectoryNotAllowed { cwd, allowed_prefixes } => ErrorPayload {
                status: String::from_str("error"),
                error: ErrorPayloadBody {
                    error_type: String::from_str("cwd_not_allowed"),
                    message,
                    details: Some(
                        ErrorPayloadDetails::CwdNotAllowed {
                            cwd: cwd.clone(),
                            allowed_prefixes: copy_strings(allowed_prefixes),
                        },
                    ),
                },
            },
            _ => ErrorPayload {
                status: String::from_str("error"),
                error: ErrorPayloadBody {
                    error_type: String::from_str("server_error"),
                    message,
                    details: None,
                },
            },
        }
    }
}

} // verus!
