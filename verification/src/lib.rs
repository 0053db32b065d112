//! Verified core of an MCP server that runs a local `gemini` CLI in headless mode.
//!
//! The library holds the server's configuration and the checks of each tool call against it,
//! the decisions around the CLI process (what to run, what its output and exit mean), and the
//! reporting of errors. Starting processes, reading the environment and the file system, and
//! speaking the MCP protocol are left to the caller.

pub mod text;
pub mod path;
pub mod winpath;
pub mod bindings;
pub mod error;
pub mod config;
pub mod types;
pub mod gemini;
pub mod server;

pub use config::AppConfig;
pub use error::AppError;
pub use gemini::process::GeminiRunner;
