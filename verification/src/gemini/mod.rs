//! Running the `gemini` CLI: reading its event stream, and the decisions around the process.

pub mod events;
pub mod process;
