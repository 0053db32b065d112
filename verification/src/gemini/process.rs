//! The decisions of a run and of a health check: what to run, and what its outcome means.
//!
//! The process itself is started, waited for and read by the caller; these functions decide
//! what to start and turn what came back into the tool's answer.

use vstd::prelude::*;
use vstd::utf8::{valid_utf8, decode_utf8};
use std::time::Duration;
use crate::bindings::{duration_from_secs, duration_of_secs, utf8_lossy, utf8_lossy_text};
use crate::config::{AppConfig, ConfigView, cwd_outcome, model_outcome, timeout_outcome};
use crate::error::{AppError, AppErrorView};
use crate::path::{main_separator, PathStyle};
use crate::gemini::events::{digest_events, summarize_events, EventDigest};
use crate::text::{
    decimal, i32_to_text, is_blank, is_blank_text, is_white_space, opt_str, opt_text, signed_decimal, trim,
    trim_text, u64_to_text, views, chars_of,
};
use crate::types::{
    error_info_view, stats_view, ErrorInfo, GeminiHealthResponse, GeminiRunRequest,
    GeminiRunResponse, GeminiStreamEvent, HealthStatus, RunStatus,
};

verus! {

/// Runs the `gemini` CLI for tool calls.
#[derive(Debug)]
pub struct GeminiRunner {
    config: AppConfig,
}

/// What to run for a tool call.
#[derive(Debug)]
pub struct RunPlan {
    /// The binary.
    pub program: String,
    /// Its arguments.
    pub args: Vec<String>,
    /// The working directory.
    pub cwd: String,
    /// How long the process may run, in seconds.
    pub timeout_secs: u64,
    /// The model passed with `--model`, if any.
    pub model: Option<String>,
    /// The command line as reported back: the binary followed by its arguments.
    pub invocation: Vec<String>,
    /// Whether the answer includes the events.
    pub include_events: bool,
    /// Whether the answer includes stderr even when the process succeeded.
    pub include_stderr: bool,
}

/// The value of a [`RunPlan`].
pub struct RunPlanView {
    pub program: Seq<char>,
    pub args: Seq<Seq<char>>,
    pub cwd: Seq<char>,
    pub timeout_secs: u64,
    pub model: Option<Seq<char>>,
    pub invocation: Seq<Seq<char>>,
    pub include_events: bool,
    pub include_stderr: bool,
}

impl View for RunPlan {
    type V = RunPlanView;

    open spec fn view(&self) -> RunPlanView {
        RunPlanView {
            program: self.program@,
            args: views(self.args@),
            cwd: self.cwd@,
            timeout_secs: self.timeout_secs,
            model: opt_text(self.model),
            invocation: views(self.invocation@),
            include_events: self.include_events,
            include_stderr: self.include_stderr,
        }
    }
}

impl RunPlan {
    /// How long the process may run.
    pub fn timeout(&self) -> (r: Duration)
        ensures
            r == duration_of_secs(self.timeout_secs),
    {
        duration_from_secs(self.timeout_secs)
    }
}

/// The arguments that select a model.
pub open spec fn model_args(model: Option<Seq<char>>) -> Seq<Seq<char>> {
    match model {
        Some(m) => seq!["--model"@, m],
        None => Seq::empty(),
    }
}

/// The arguments of a run: the prompt in headless mode with `stream-json` output, and the model.
/// No other flag is ever passed.
pub open spec fn run_args(prompt: Seq<char>, model: Option<Seq<char>>) -> Seq<Seq<char>> {
    seq!["-p"@, prompt, "--output-format"@, "stream-json"@] + model_args(model)
}

/// The command line of a run as reported back: the binary followed by its arguments.
pub open spec fn run_invocation(bin: Seq<char>, prompt: Seq<char>, model: Option<Seq<char>>) -> Seq<
    Seq<char>,
> {
    seq![bin] + run_args(prompt, model)
}

/// A flag of a request: unset counts as false.
pub open spec fn flag(b: Option<bool>) -> bool {
    match b {
        Some(v) => v,
        None => false,
    }
}

/// What a run request gives, where `canonical_cwd` is the canonical form of the requested
/// working directory: the plan, or why the request is refused. The checks come in this order:
/// the prompt, the working directory, the timeout, the model.
pub open spec fn plan_outcome(
    c: ConfigView,
    request: GeminiRunRequest,
    canonical_cwd: Option<Seq<char>>,
    style: PathStyle,
) -> Result<RunPlanView, AppErrorView> {
    if is_blank(request.prompt@) {
        Err(AppErrorView::InvalidParams("prompt must not be empty"@))
    } else {
        match cwd_outcome(c, opt_text(request.cwd), canonical_cwd, style) {
            Err(e) => Err(e),
            Ok(cwd) => match timeout_outcome(c, request.timeout_secs) {
                Err(e) => Err(e),
                Ok(t) => match model_outcome(c, opt_text(request.model)) {
                    Err(e) => Err(e),
                    Ok(m) => Ok(
                        RunPlanView {
                            program: c.gemini_bin,
                            args: run_args(request.prompt@, m),
                            cwd,
                            timeout_secs: t,
                            model: m,
                            invocation: run_invocation(c.gemini_bin, request.prompt@, m),
                            include_events: flag(request.include_events),
                            include_stderr: flag(request.include_stderr),
                        },
                    ),
                },
            },
        }
    }
}

/// What a finished process reported.
#[derive(Debug)]
pub struct RunOutcome {
    /// The events of its stdout, in order.
    pub events: Vec<GeminiStreamEvent>,
    /// Its stderr, trimmed.
    pub stderr: String,
    /// Its exit code (`ExitStatus::code`: `None` when a signal ended it). A process succeeded
    /// exactly when its exit code is 0.
    pub exit_code: Option<i32>,
    /// Whether it was killed for exceeding the timeout.
    pub timed_out: bool,
    /// How long the run took, in milliseconds.
    pub elapsed_ms: u128,
    /// The resolved path of the binary, if it was found.
    pub resolved_bin: Option<String>,
}

/// The exit code reported for a process: its own, or -1 when it was killed for the timeout and
/// 1 otherwise.
pub open spec fn reported_exit_code(code: Option<i32>, timed_out: bool) -> i32 {
    match code {
        Some(c) => c,
        None => if timed_out {
            -1i32
        } else {
            1i32
        },
    }
}

/// Whether the process failed without the events reporting an error.
pub open spec fn silent_failure(d: EventDigest, code: Option<i32>) -> bool {
    code != Some(0i32) && d.error is None
}

/// The status of a run: an error when it timed out or failed silently, and otherwise what the
/// events report.
pub open spec fn final_status(d: EventDigest, code: Option<i32>, timed_out: bool) -> RunStatus {
    if timed_out || silent_failure(d, code) {
        RunStatus::Error
    } else {
        d.status
    }
}

/// The error of a run: a `timeout` when it timed out, a `process_exit` when it failed silently,
/// and otherwise what the events report.
pub open spec fn final_error(
    d: EventDigest,
    code: Option<i32>,
    timed_out: bool,
    timeout_secs: u64,
) -> Option<(Seq<char>, Seq<char>)> {
    if timed_out {
        Some(
            (
                "timeout"@,
                "gemini process exceeded timeout of "@ + decimal(timeout_secs as nat) + "s"@,
            ),
        )
    } else if silent_failure(d, code) {
        Some(
            (
                "process_exit"@,
                "gemini process exited with status code "@ + signed_decimal(
                    reported_exit_code(code, timed_out) as int,
                ),
            ),
        )
    } else {
        d.error
    }
}

/// Milliseconds as a `u64`, saturating at its maximum.
pub open spec fn saturating_ms(ms: u128) -> u64 {
    if ms > u64::MAX as u128 {
        u64::MAX
    } else {
        ms as u64
    }
}

/// Whether a run's answer includes its stderr: when asked for or when the exit code is not 0,
/// and only when stderr is not blank.
pub open spec fn stderr_shown(include_stderr: bool, exit_code: i32, stderr: Seq<char>) -> bool {
    (include_stderr || exit_code != 0) && !is_blank(stderr)
}

/// Milliseconds as a `u64`, saturating at its maximum.
pub fn saturating_duration_ms(ms: u128) -> (r: u64)
    ensures
        r == saturating_ms(ms),
{
    if ms > u64::MAX as u128 {
        u64::MAX
    } else {
        ms as u64
    }
}

/// What the `--version` probe of a health check gave.
#[derive(Debug)]
pub enum VersionProbe {
    /// It did not finish within the default timeout.
    TimedOut,
    /// It could not be started; the message of the error.
    SpawnFailed(String),
    /// It finished with this output.
    Finished { stdout: Vec<u8>, stderr: Vec<u8> },
}

/// Whether the configured binary cannot be found: it was not resolved, and it holds no main
/// separator of the path style, so it is not a path.
pub open spec fn binary_missing(
    c: ConfigView,
    resolved_bin: Option<Seq<char>>,
    style: PathStyle,
) -> bool {
    resolved_bin is None && !c.gemini_bin.contains(main_separator(style))
}

/// What a health check gives: the health, or why the binary is not healthy. A binary that cannot
/// be found is reported before anything is run.
pub open spec fn health_outcome(
    c: ConfigView,
    resolved_bin: Option<Seq<char>>,
    probe: VersionProbe,
    style: PathStyle,
) -> Result<(Seq<char>, Option<Seq<char>>), AppErrorView> {
    if binary_missing(c, resolved_bin, style) {
        Err(AppErrorView::BinaryNotFound { configured: c.gemini_bin })
    } else {
        match probe {
            VersionProbe::TimedOut => Err(
                AppErrorView::InvalidConfiguration("timed out while running `gemini --version`"@),
            ),
            VersionProbe::SpawnFailed(m) => Err(AppErrorView::SpawnProcess(m@)),
            VersionProbe::Finished { stdout, stderr } => {
                let out = trim(utf8_lossy(stdout@));
                let err = trim(utf8_lossy(stderr@));
                let version = if out.len() == 0 {
                    err
                } else {
                    out
                };
                if version.len() == 0 {
                    Err(AppErrorView::InvalidConfiguration("`gemini --version` returned no output"@))
                } else {
                    Ok(
                        (
                            version,
                            if err.len() == 0 {
                                None
                            } else {
                                Some(err)
                            },
                        ),
                    )
                }
            },
        }
    }
}

impl GeminiRunner {
    /// A runner with this configuration.
    pub fn new(config: AppConfig) -> (r: Self)
        ensures
            r.config_view() == config@,
    {
        GeminiRunner { config }
    }

    /// The runner's configuration.
    pub closed spec fn config_view(&self) -> ConfigView {
        self.config@
    }

    /// The runner's configuration.
    pub fn config(&self) -> (r: &AppConfig)
        ensures
            r@ == self.config_view(),
    {
        &self.config
    }

    /// What to run for a request, where `canonical_cwd` is the canonical form of
    /// `self.config().cwd_candidate(request.cwd, style)` (`None` when that is not an existing
    /// directory), and paths are read in the given style.
    pub fn plan_run(
        &self,
        request: &GeminiRunRequest,
        canonical_cwd: Option<String>,
        style: PathStyle,
    ) -> (r: Result<RunPlan, AppError>)
        ensures
            match plan_outcome(self.config_view(), *request, opt_text(canonical_cwd), style) {
                Ok(p) => r matches Ok(plan) && plan@ == p,
                Err(e) => r matches Err(err) && err@ == e,
            },
    {
        if is_blank_text(request.prompt.as_str()) {
            return Err(AppError::InvalidParams(String::from_str("prompt must not be empty")));
        }
        let cwd_req: Option<&str> = match &request.cwd {
            Some(c) => Some(c.as_str()),
            None => None,
        };
        assert(opt_str(cwd_req) == opt_text(request.cwd));
        let cwd = match self.config.resolve_cwd(cwd_req, canonical_cwd, style) {
            Ok(c) => c,
            Err(e) => return Err(e),
        };
        let timeout_secs = match self.config.resolve_timeout_secs(request.timeout_secs) {
            Ok(t) => t,
            Err(e) => return Err(e),
        };
        let model_req: Option<&str> = match &request.model {
            Some(m) => Some(m.as_str()),
            None => None,
        };
        assert(opt_str(model_req) == opt_text(request.model));
        let model = match self.config.resolve_model(model_req) {
            Ok(m) => m,
            Err(e) => return Err(e),
        };
        let bin = self.config.gemini_bin();
        let mut invocation: Vec<String> = Vec::new();
        invocation.push(String::from_str(bin));
        invocation.push(String::from_str("-p"));
        invocation.push(request.prompt.clone());
        invocation.push(String::from_str("--output-format"));
        invocation.push(String::from_str("stream-json"));
        let mut args: Vec<String> = Vec::new();
        args.push(String::from_str("-p"));
        args.push(request.prompt.clone());
        args.push(String::from_str("--output-format"));
        args.push(String::from_str("stream-json"));
        let ghost m = opt_text(model);
        match &model {
            Some(name) => {
                invocation.push(String::from_str("--model"));
                invocation.push(name.clone());
                args.push(String::from_str("--model"));
                args.push(name.clone());
            },
            None => {},
        }
        assert(views(invocation@) =~= run_invocation(bin@, request.prompt@, m));
        assert(views(args@) =~= run_args(request.prompt@, m));
        let include_events = match request.include_events {
            Some(b) => b,
            None => false,
        };
        let include_stderr = match request.include_stderr {
            Some(b) => b,
            None => false,
        };
        Ok(
            RunPlan {
                program: String::from_str(bin),
                args,
                cwd,
                timeout_secs,
                model,
                invocation,
                include_events,
                include_stderr,
            },
        )
    }

    /// The answer to a run: what the events add up to, overridden by a timeout or by a failure
    /// of the process that the events did not report.
    pub fn finish_run(&self, plan: RunPlan, outcome: RunOutcome) -> (r: GeminiRunResponse)
        ensures
            ({
                let d = digest_events(outcome.events@);
                let code = reported_exit_code(outcome.exit_code, outcome.timed_out);
                &&& r.status == final_status(d, outcome.exit_code, outcome.timed_out)
                &&& r.response@ == d.response
                &&& opt_text(r.session_id) == d.session_id
                &&& opt_text(r.model) == d.model
                &&& stats_view(r.stats) == d.stats
                &&& error_info_view(r.error) == final_error(
                    d,
                    outcome.exit_code,
                    outcome.timed_out,
                    plan.timeout_secs,
                )
                &&& r.exit_code == code
                &&& r.timed_out == outcome.timed_out
                &&& r.duration_ms == saturating_ms(outcome.elapsed_ms)
                &&& r.gemini_bin@ == self.config_view().gemini_bin
                &&& r.resolved_bin == outcome.resolved_bin
                &&& r.cwd == plan.cwd
                &&& r.invocation == plan.invocation
                &&& r.stderr == (if stderr_shown(plan.include_stderr, code, outcome.stderr@) {
                    Some(outcome.stderr)
                } else {
                    None
                })
                &&& r.events == (if plan.include_events {
                    Some(outcome.events)
                } else {
                    None
                })
            }),
    {
        let summary = summarize_events(&outcome.events);
        let RunOutcome { events, stderr, exit_code, timed_out, elapsed_ms, resolved_bin } = outcome;
        let ghost d = digest_events(events@);
        let code: i32 = match exit_code {
            Some(c) => c,
            None => if timed_out {
                -1
            } else {
                1
            },
        };
        let succeeded = match exit_code {
            Some(c) => c == 0,
            None => false,
        };
        let mut status = summary.status;
        let mut error = summary.error;
        if timed_out {
            status = RunStatus::Error;
            let secs = u64_to_text(plan.timeout_secs);
            error = Some(
                ErrorInfo {
                    error_type: String::from_str("timeout"),
                    message: String::from_str("gemini process exceeded timeout of ").concat(
                        secs.as_str(),
                    ).concat("s"),
                },
            );
        } else if !succeeded && error.is_none() {
            status = RunStatus::Error;
            let text = i32_to_text(code);
            error = Some(
                ErrorInfo {
                    error_type: String::from_str("process_exit"),
                    message: String::from_str("gemini process exited with status code ").concat(
                        text.as_str(),
                    ),
                },
            );
        }
        let show_stderr = (plan.include_stderr || code != 0) && !is_blank_text(stderr.as_str());
        GeminiRunResponse {
            status,
            response: summary.response,
            session_id: summary.session_id,
            model: summary.model,
            stats: summary.stats,
            error,
            exit_code: code,
            timed_out,
            duration_ms: saturating_duration_ms(elapsed_ms),
            gemini_bin: String::from_str(self.config.gemini_bin()),
            resolved_bin,
            cwd: plan.cwd,
            invocation: plan.invocation,
            stderr: if show_stderr {
                Some(stderr)
            } else {
                None
            },
            events: if plan.include_events {
                Some(events)
            } else {
                None
            },
        }
    }

    /// Whether a health check can go on: the configured binary must have been resolved
    /// (`resolved_bin`), or hold the main separator of the path style.
    pub fn health_precheck(&self, resolved_bin: &Option<String>, style: PathStyle) -> (r: Result<
        (),
        AppError,
    >)
        ensures
            binary_missing(self.config_view(), opt_text(*resolved_bin), style) ==> (r matches Err(e)
                && e@ == AppErrorView::BinaryNotFound { configured: self.config_view().gemini_bin }),
            !binary_missing(self.config_view(), opt_text(*resolved_bin), style) ==> r is Ok,
    {
        let sep: char = match style {
            PathStyle::Unix => '/',
            PathStyle::Windows => '\\',
        };
        if resolved_bin.is_none() && !contains_char(self.config.gemini_bin(), sep) {
            return Err(
                AppError::BinaryNotFound { configured: String::from_str(self.config.gemini_bin()) },
            );
        }
        Ok(())
    }

    /// The health of the configured binary, given its resolved path and what running it with
    /// `--version` gave: the version is its trimmed stdout, or its trimmed stderr when stdout is
    /// blank.
    pub fn check_health(
        &self,
        resolved_bin: Option<String>,
        probe: VersionProbe,
        style: PathStyle,
    ) -> (r: Result<GeminiHealthResponse, AppError>)
        ensures
            match health_outcome(self.config_view(), opt_text(resolved_bin), probe, style) {
                Ok((version, err)) => r matches Ok(h) && {
                    &&& h.status == HealthStatus::Healthy
                    &&& h.gemini_bin@ == self.config_view().gemini_bin
                    &&& h.resolved_bin == resolved_bin
                    &&& h.version_output@ == version
                    &&& opt_text(h.stderr) == err
                },
                Err(e) => r matches Err(err) && err@ == e,
            },
            probe matches VersionProbe::Finished { stdout, .. } ==> ((valid_utf8(stdout@) && trim(
                decode_utf8(stdout@),
            ).len() > 0 && !binary_missing(self.config_view(), opt_text(resolved_bin), style)) ==> (
            r matches Ok(h) && h.version_output@ == trim(decode_utf8(stdout@)))),
            probe matches VersionProbe::Finished { stderr, .. } ==> ((valid_utf8(stderr@) && r is Ok)
                ==> (r matches Ok(h) && opt_text(h.stderr) == (if trim(decode_utf8(stderr@)).len()
                == 0 {
                None::<Seq<char>>
            } else {
                Some(trim(decode_utf8(stderr@)))
            }))),
    {
        match self.health_precheck(&resolved_bin, style) {
            Ok(()) => {},
            Err(e) => return Err(e),
        }
        match probe {
            VersionProbe::TimedOut => Err(
                AppError::InvalidConfiguration(
                    String::from_str("timed out while running `gemini --version`"),
                ),
            ),
            VersionProbe::SpawnFailed(m) => Err(AppError::SpawnProcess(m)),
            VersionProbe::Finished { stdout, stderr } => {
                let out_text = utf8_lossy_text(&stdout);
                let err_text = utf8_lossy_text(&stderr);
                let out = trim_text(out_text.as_str());
                let err = trim_text(err_text.as_str());
                let err_blank = err.as_str().unicode_len() == 0;
                let version_output = if out.as_str().unicode_len() == 0 {
                    err.clone()
                } else {
                    out
                };
                if version_output.as_str().unicode_len() == 0 {
                    return Err(
                        AppError::InvalidConfiguration(
                            String::from_str("`gemini --version` returned no output"),
                        ),
                    );
                }
                Ok(
                    GeminiHealthResponse {
                        status: HealthStatus::Healthy,
                        gemini_bin: String::from_str(self.config.gemini_bin()),
                        resolved_bin,
                        version_output,
                        stderr: if err_blank {
                            None
                        } else {
                            Some(err)
                        },
                    },
                )
            },
        }
    }
}


// ---------------------------------------------------------------------------
// Laws
// ---------------------------------------------------------------------------

/// A planned run passes the prompt with `-p`, asks for `stream-json` output, and passes no
/// other flag than `--model` with a granted model; the timeout is positive and at most the
/// maximum; the working directory lies within an allowed prefix when prefixes are configured;
/// the reported command line is the one that runs.
pub proof fn lemma_plan_is_confined(
    c: ConfigView,
    request: GeminiRunRequest,
    canonical_cwd: Option<Seq<char>>,
    style: PathStyle,
    p: RunPlanView,
)
    requires
        plan_outcome(c, request, canonical_cwd, style) == Ok::<RunPlanView, AppErrorView>(p),
    ensures
        p.args.len() == 4 || p.args.len() == 6,
        p.args[0] == "-p"@,
        p.args[1] == request.prompt@,
        p.args[2] == "--output-format"@,
        p.args[3] == "stream-json"@,
        p.args.len() == 6 <==> p.model is Some,
        p.args.len() == 6 ==> p.args[4] == "--model"@ && p.model == Some(p.args[5]),
        p.model matches Some(m) ==> (c.allowed_models matches Some(allowed) ==> allowed.contains(
            m,
        )),
        p.program == c.gemini_bin,
        p.invocation == seq![p.program] + p.args,
        0 < p.timeout_secs <= c.max_timeout_secs,
        c.allowed_cwd_prefixes matches Some(prefixes) ==> crate::config::under_some_prefix(
            p.cwd,
            prefixes,
            style,
        ),
        !is_blank(request.prompt@),
{
    let m = model_outcome(c, opt_text(request.model));
    if let Ok(Some(name)) = m {
        crate::config::lemma_granted_model_is_allowed(c, opt_text(request.model), name);
    }
}

/// Stderr is shown when it is not blank and either the caller asked for it or the process did not
/// exit with 0; blank stderr is never shown, and neither is stderr of a clean exit that the caller
/// did not ask for.
pub proof fn lemma_stderr_shown_when(include_stderr: bool, exit_code: i32, stderr: Seq<char>)
    ensures
        include_stderr && !is_blank(stderr) ==> stderr_shown(include_stderr, exit_code, stderr),
        exit_code != 0 && !is_blank(stderr) ==> stderr_shown(include_stderr, exit_code, stderr),
        is_blank(stderr) ==> !stderr_shown(include_stderr, exit_code, stderr),
        !include_stderr && exit_code == 0 ==> !stderr_shown(include_stderr, exit_code, stderr),
{
}

/// A request passes when each of its checks passes: a prompt that is not blank, a granted working
/// directory, a granted timeout and a granted model give a plan with exactly those, running the
/// configured binary on the prompt as given.
pub proof fn lemma_plan_granted_when_checks_pass(
    c: ConfigView,
    request: GeminiRunRequest,
    canonical_cwd: Option<Seq<char>>,
    style: PathStyle,
    cwd: Seq<char>,
    t: u64,
    m: Option<Seq<char>>,
)
    requires
        !is_blank(request.prompt@),
        cwd_outcome(c, opt_text(request.cwd), canonical_cwd, style) == Ok::<
            Seq<char>,
            AppErrorView,
        >(cwd),
        timeout_outcome(c, request.timeout_secs) == Ok::<u64, AppErrorView>(t),
        model_outcome(c, opt_text(request.model)) == Ok::<Option<Seq<char>>, AppErrorView>(m),
    ensures
        plan_outcome(c, request, canonical_cwd, style) matches Ok(p) && {
            &&& p.cwd == cwd
            &&& p.timeout_secs == t
            &&& p.model == m
            &&& p.program == c.gemini_bin
            &&& p.args[0] == "-p"@
            &&& p.args[1] == request.prompt@
        },
{
}

/// The only refusal of a prompt is a blank one: a request whose prompt holds any character other
/// than whitespace is planned exactly when its working directory, timeout and model are granted.
pub proof fn lemma_only_blank_prompts_refused(
    c: ConfigView,
    request: GeminiRunRequest,
    canonical_cwd: Option<Seq<char>>,
    style: PathStyle,
    i: int,
)
    requires
        0 <= i < request.prompt@.len(),
        !is_white_space(request.prompt@[i]),
    ensures
        !is_blank(request.prompt@),
        plan_outcome(c, request, canonical_cwd, style) is Ok <==> (cwd_outcome(
            c,
            opt_text(request.cwd),
            canonical_cwd,
            style,
        ) is Ok && timeout_outcome(c, request.timeout_secs) is Ok && model_outcome(
            c,
            opt_text(request.model),
        ) is Ok),
{
    crate::text::lemma_visible_char_not_blank(request.prompt@, i);
}

/// A run that timed out is an error of kind `timeout`, whatever its events say; without an exit
/// code its reported exit code is -1.
pub proof fn lemma_timed_out_run_is_error(d: EventDigest, code: Option<i32>, timeout_secs: u64)
    ensures
        final_status(d, code, true) == RunStatus::Error,
        final_error(d, code, true, timeout_secs) matches Some((kind, _)) && kind == "timeout"@,
        code is None ==> reported_exit_code(code, true) == -1,
{
}

/// A process that did not exit with 0 always reports an error: the events' own, or else one of
/// kind `process_exit`.
pub proof fn lemma_failed_process_reports_error(
    d: EventDigest,
    code: Option<i32>,
    timed_out: bool,
    timeout_secs: u64,
)
    requires
        code != Some(0i32),
    ensures
        final_error(d, code, timed_out, timeout_secs) is Some,
        !timed_out && d.error is None ==> final_status(d, code, timed_out) == RunStatus::Error,
{
}

/// A process that exited with 0 in time reports exactly what its events report.
pub proof fn lemma_clean_run_reports_events(d: EventDigest, timeout_secs: u64)
    ensures
        final_status(d, Some(0i32), false) == d.status,
        final_error(d, Some(0i32), false, timeout_secs) == d.error,
        reported_exit_code(Some(0i32), false) == 0,
{
}

/// Whether `s` holds the character `c`.
fn contains_char(s: &str, c: char) -> (b: bool)
    ensures
        b == s@.contains(c),
{
    let v = chars_of(s);
    let mut i: usize = 0;
    while i < v.len()
        invariant
            i <= v.len(),
            v@ == s@,
            forall|k: int| 0 <= k < i ==> v@[k] != c,
        decreases v.len() - i,
    {
        if v[i] == c {
            return true;
        }
        i = i + 1;
    }
    false
}

} // verus!
