# gemini_mcp

The verified core of an MCP server that hands tasks to a locally installed `gemini` CLI in
headless mode (`gemini -p <prompt> --output-format stream-json`).

`src/` is checked by Verus:

- `text.rs`: trimming (Unicode white space), splitting, decimal numbers, string order.
- `path.rs`: paths as text, in a Unix or a Windows style: components, absoluteness, joining,
  component-wise prefixes. The Unix rules live here, the Windows ones (drive, UNC and verbatim
  prefixes, both separators) in `winpath.rs`.
- `config.rs`: the configuration (from the environment's values) and the checks of a tool
  call's timeout, model and working directory against it; where to look for the binary
  (each `PATH` entry, and on Windows also the command with `.exe`, `.cmd` and `.bat`).
- `error.rs`: the server's errors, their messages, and how they are reported.
- `gemini/events.rs`: what the CLI's event stream adds up to.
- `gemini/process.rs`: what to run for a request, and what a finished process means.
- `server.rs`: how the outcome of a run becomes the tool's reply.
- `bindings.rs`: the few calls into `std`, `rmcp` and `serde_json` that the proofs take on
  trust, each with the contract it is trusted for.

`app/` is the server itself: it reads the environment and the file system, starts and waits
for the process, parses the event stream with serde, and speaks MCP over stdio with `rmcp`.
It passes the platform's path style to the library.
