use std::collections::BTreeMap;

use gemini_mcp::gemini::events::{event_line, summarize_events};
use gemini_mcp::gemini::process::{saturating_duration_ms, RunOutcome, VersionProbe};
use gemini_mcp::types::{
    ErrorInfo, ErrorSeverity, GeminiRunRequest, GeminiStreamEvent, HealthStatus, MessageRole,
    ModelStreamStats, RunStatus, StreamStats,
};
use gemini_mcp::path::PathStyle;
use gemini_mcp::{AppConfig, AppError, GeminiRunner};

fn s(x: &str) -> String {
    x.to_string()
}

fn runner(models: Option<Vec<String>>) -> GeminiRunner {
    GeminiRunner::new(AppConfig::new(
        s("/tmp/t/fake-gemini.sh"),
        5,
        10,
        models,
        Some(vec![s("/tmp/t")]),
        s("/tmp/t"),
    ))
}

fn request(prompt: &str, timeout: Option<u64>, model: Option<&str>) -> GeminiRunRequest {
    GeminiRunRequest {
        prompt: s(prompt),
        cwd: None,
        timeout_secs: timeout,
        model: model.map(s),
        include_events: Some(true),
        include_stderr: Some(false),
    }
}

fn stats(total: u64) -> StreamStats {
    StreamStats {
        total_tokens: total,
        input_tokens: 1,
        output_tokens: 2,
        cached: 0,
        input: 1,
        duration_ms: 10,
        tool_calls: 0,
        models: BTreeMap::new(),
    }
}

fn message(role: MessageRole, content: &str) -> GeminiStreamEvent {
    GeminiStreamEvent::Message { timestamp: s("t"), role, content: s(content), delta: Some(true) }
}

fn session_events() -> Vec<GeminiStreamEvent> {
    vec![
        GeminiStreamEvent::Init { timestamp: s("t0"), session_id: s("session-1"), model: s("gemini-test") },
        message(MessageRole::Assistant, "hello "),
        message(MessageRole::Assistant, "world"),
        GeminiStreamEvent::Result {
            timestamp: s("t3"),
            status: RunStatus::Success,
            error: None,
            stats: Some(stats(3)),
        },
    ]
}

fn outcome(events: Vec<GeminiStreamEvent>, code: Option<i32>, timed_out: bool) -> RunOutcome {
    RunOutcome {
        events,
        stderr: s(""),
        exit_code: code,
        timed_out,
        elapsed_ms: 1250,
        resolved_bin: Some(s("/tmp/t/fake-gemini.sh")),
    }
}

#[test]
fn blank_event_lines_are_skipped() {
    assert_eq!(event_line("  {\"type\":\"init\"}\r"), Some(s("{\"type\":\"init\"}")));
    assert_eq!(event_line(" \t "), None);
    assert_eq!(event_line(""), None);
}

#[test]
fn assistant_messages_are_concatenated() {
    let mut events = session_events();
    events.insert(1, message(MessageRole::User, "ignored"));
    let sum = summarize_events(&events);
    assert_eq!(sum.response, "hello world");
    assert_eq!(sum.session_id.as_deref(), Some("session-1"));
    assert_eq!(sum.model.as_deref(), Some("gemini-test"));
    assert!(matches!(sum.status, RunStatus::Success));
    let st = sum.stats.expect("stats should be present");
    assert_eq!(st.total_tokens, 3);
    assert!(st.models.is_empty());
    assert!(sum.error.is_none());
}

#[test]
fn first_stream_error_is_kept_until_a_result_replaces_it() {
    let err = |m: &str| GeminiStreamEvent::Error { timestamp: s("t"), severity: ErrorSeverity::Error, message: s(m) };
    let sum = summarize_events(&vec![err("first"), err("second")]);
    let e = sum.error.expect("stream error");
    assert_eq!(e.error_type, "stream_error");
    assert_eq!(e.message, "first");

    let mut models = BTreeMap::new();
    models.insert(s("m"), ModelStreamStats { total_tokens: 1, input_tokens: 1, output_tokens: 0, cached: 0, input: 1 });
    let mut st = stats(9);
    st.models = models;
    let sum = summarize_events(&vec![
        err("first"),
        GeminiStreamEvent::Result {
            timestamp: s("t"),
            status: RunStatus::Error,
            error: Some(ErrorInfo { error_type: s("quota"), message: s("out of quota") }),
            stats: Some(st),
        },
        err("after"),
    ]);
    let e = sum.error.expect("result error");
    assert_eq!(e.error_type, "quota");
    assert!(matches!(sum.status, RunStatus::Error));
    assert_eq!(sum.stats.unwrap().models.len(), 1);

    // A result without error clears an earlier stream error.
    let sum = summarize_events(&vec![
        err("first"),
        GeminiStreamEvent::Result { timestamp: s("t"), status: RunStatus::Success, error: None, stats: None },
    ]);
    assert!(sum.error.is_none());
}

#[test]
fn plan_passes_prompt_flags_and_model() {
    let r = runner(Some(vec![s("gemini-test")]));
    let plan = r
        .plan_run(&request("say hello", Some(2), Some("gemini-test")), Some(s("/tmp/t")), PathStyle::Unix)
        .expect("plan");
    assert_eq!(plan.program, "/tmp/t/fake-gemini.sh");
    assert_eq!(plan.args, vec![s("-p"), s("say hello"), s("--output-format"), s("stream-json"), s("--model"), s("gemini-test")]);
    assert_eq!(
        plan.invocation,
        vec![s("/tmp/t/fake-gemini.sh"), s("-p"), s("say hello"), s("--output-format"), s("stream-json"), s("--model"), s("gemini-test")]
    );
    assert_eq!(plan.cwd, "/tmp/t");
    assert_eq!(plan.timeout_secs, 2);
    assert_eq!(plan.timeout().as_secs(), 2);
    assert!(plan.include_events);
    assert!(!plan.include_stderr);
    let plain = r.plan_run(&request("x", None, None), Some(s("/tmp/t")), PathStyle::Unix).expect("plan");
    assert_eq!(plain.args.len(), 4);
    assert_eq!(plain.timeout_secs, 5);
}

#[test]
fn plan_checks_come_in_order() {
    let r = runner(Some(vec![s("gemini-test")]));
    match r.plan_run(&request("  \n", Some(0), Some("bad")), None, PathStyle::Unix) {
        Err(AppError::InvalidParams(m)) => assert_eq!(m, "prompt must not be empty"),
        other => panic!("unexpected: {other:?}"),
    }
    assert!(matches!(r.plan_run(&request("p", Some(0), Some("bad")), None, PathStyle::Unix), Err(AppError::InvalidWorkingDirectory(_))));
    assert!(matches!(r.plan_run(&request("p", Some(0), Some("bad")), Some(s("/etc")), PathStyle::Unix), Err(AppError::WorkingDirectoryNotAllowed { .. })));
    assert!(matches!(r.plan_run(&request("p", Some(0), Some("bad")), Some(s("/tmp/t")), PathStyle::Unix), Err(AppError::InvalidParams(_))));
    assert!(matches!(r.plan_run(&request("p", Some(11), Some("bad")), Some(s("/tmp/t")), PathStyle::Unix), Err(AppError::TimeoutTooLarge { .. })));
    assert!(matches!(r.plan_run(&request("p", Some(1), Some("bad")), Some(s("/tmp/t")), PathStyle::Unix), Err(AppError::ModelNotAllowed { .. })));
}

#[test]
fn run_collects_response_and_events() {
    let r = runner(Some(vec![s("gemini-test")]));
    let plan = r.plan_run(&request("say hello", Some(2), Some("gemini-test")), Some(s("/tmp/t")), PathStyle::Unix).unwrap();
    let resp = r.finish_run(plan, outcome(session_events(), Some(0), false));
    assert!(matches!(resp.status, RunStatus::Success));
    assert_eq!(resp.response, "hello world");
    assert_eq!(resp.session_id.as_deref(), Some("session-1"));
    assert_eq!(resp.model.as_deref(), Some("gemini-test"));
    assert!(resp.stats.as_ref().expect("stats should be present").models.is_empty());
    assert_eq!(resp.events.as_ref().map(Vec::len), Some(4));
    assert_eq!(resp.exit_code, 0);
    assert!(!resp.timed_out);
    assert_eq!(resp.duration_ms, 1250);
    assert_eq!(resp.cwd, "/tmp/t");
    assert_eq!(resp.gemini_bin, "/tmp/t/fake-gemini.sh");
    assert_eq!(resp.resolved_bin.as_deref(), Some("/tmp/t/fake-gemini.sh"));
    assert_eq!(resp.invocation, vec![s("/tmp/t/fake-gemini.sh"), s("-p"), s("say hello"), s("--output-format"), s("stream-json"), s("--model"), s("gemini-test")]);
    let args = resp.invocation.join("\n");
    assert!(args.contains("-p"));
    assert!(args.contains("--output-format"));
    assert!(args.contains("stream-json"));
    assert!(args.contains("--model"));
    assert!(resp.stderr.is_none());
    assert!(resp.error.is_none());
}

#[test]
fn run_returns_error_for_timeout() {
    let r = runner(None);
    let mut req = request("slow", Some(1), None);
    req.include_events = Some(false);
    let plan = r.plan_run(&req, Some(s("/tmp/t")), PathStyle::Unix).unwrap();
    let resp = r.finish_run(plan, outcome(session_events(), None, true));
    assert!(matches!(resp.status, RunStatus::Error));
    assert!(resp.timed_out);
    assert_eq!(resp.exit_code, -1);
    let e = resp.error.expect("timeout error");
    assert_eq!(e.error_type, "timeout");
    assert_eq!(e.message, "gemini process exceeded timeout of 1s");
    assert!(resp.events.is_none());
}

#[test]
fn failed_process_without_error_event_reports_exit() {
    let r = runner(None);
    let plan = r.plan_run(&request("p", None, None), Some(s("/tmp/t")), PathStyle::Unix).unwrap();
    let mut o = outcome(vec![message(MessageRole::Assistant, "partial")], Some(3), false);
    o.stderr = s("boom");
    let resp = r.finish_run(plan, o);
    assert!(matches!(resp.status, RunStatus::Error));
    assert_eq!(resp.exit_code, 3);
    let e = resp.error.expect("exit error");
    assert_eq!(e.error_type, "process_exit");
    assert_eq!(e.message, "gemini process exited with status code 3");
    assert_eq!(resp.stderr.as_deref(), Some("boom"));
    assert_eq!(resp.response, "partial");

    let plan = r.plan_run(&request("p", None, None), Some(s("/tmp/t")), PathStyle::Unix).unwrap();
    let resp = r.finish_run(plan, outcome(vec![], None, false));
    assert_eq!(resp.exit_code, 1);
    assert_eq!(resp.error.unwrap().message, "gemini process exited with status code 1");

    let plan = r.plan_run(&request("p", None, None), Some(s("/tmp/t")), PathStyle::Unix).unwrap();
    let resp = r.finish_run(plan, outcome(vec![], Some(-9), false));
    assert_eq!(resp.error.unwrap().message, "gemini process exited with status code -9");
}

#[test]
fn failed_process_keeps_the_events_error() {
    let r = runner(None);
    let plan = r.plan_run(&request("p", None, None), Some(s("/tmp/t")), PathStyle::Unix).unwrap();
    let events = vec![GeminiStreamEvent::Error { timestamp: s("t"), severity: ErrorSeverity::Warning, message: s("bad key") }];
    let resp = r.finish_run(plan, outcome(events, Some(2), false));
    // The events reported the error; the status is what they say.
    assert!(matches!(resp.status, RunStatus::Success));
    let e = resp.error.unwrap();
    assert_eq!(e.error_type, "stream_error");
    assert_eq!(e.message, "bad key");
}

#[test]
fn stderr_is_shown_on_request_or_failure_only_when_not_blank() {
    let r = runner(None);
    let mut req = request("p", None, None);
    req.include_stderr = Some(true);
    let plan = r.plan_run(&req, Some(s("/tmp/t")), PathStyle::Unix).unwrap();
    let mut o = outcome(vec![], Some(0), false);
    o.stderr = s("warn");
    assert_eq!(r.finish_run(plan, o).stderr.as_deref(), Some("warn"));

    let plan = r.plan_run(&request("p", None, None), Some(s("/tmp/t")), PathStyle::Unix).unwrap();
    let mut o = outcome(vec![], Some(0), false);
    o.stderr = s("warn");
    assert!(r.finish_run(plan, o).stderr.is_none());

    let plan = r.plan_run(&req, Some(s("/tmp/t")), PathStyle::Unix).unwrap();
    let mut o = outcome(vec![], Some(1), false);
    o.stderr = s(" \n");
    assert!(r.finish_run(plan, o).stderr.is_none());
}

#[test]
fn duration_saturates() {
    assert_eq!(saturating_duration_ms(1250), 1250);
    assert_eq!(saturating_duration_ms(u64::MAX as u128), u64::MAX);
    assert_eq!(saturating_duration_ms(u128::MAX), u64::MAX);
}

#[test]
fn health_reports_version_output() {
    let r = runner(None);
    let resolved = Some(s("/tmp/t/fake-gemini.sh"));
    r.health_precheck(&resolved, PathStyle::Unix).expect("binary is known");
    let h = r
        .check_health(resolved.clone(), VersionProbe::Finished { stdout: b"gemini 9.9.9\n".to_vec(), stderr: vec![] }, PathStyle::Unix)
        .expect("health should succeed");
    assert_eq!(h.version_output, "gemini 9.9.9");
    assert!(matches!(h.status, HealthStatus::Healthy));
    assert!(h.stderr.is_none());
    assert_eq!(h.resolved_bin, resolved);
}

#[test]
fn health_falls_back_to_stderr() {
    let r = runner(None);
    let h = r
        .check_health(None, VersionProbe::Finished { stdout: b"  \n".to_vec(), stderr: b" v1 \n".to_vec() }, PathStyle::Unix)
        .unwrap();
    assert_eq!(h.version_output, "v1");
    assert_eq!(h.stderr.as_deref(), Some("v1"));
    let lossy = r
        .check_health(None, VersionProbe::Finished { stdout: vec![b'v', 0xff, b'2'], stderr: vec![] }, PathStyle::Unix)
        .unwrap();
    assert_eq!(lossy.version_output, "v\u{fffd}2");
}

#[test]
fn health_errors() {
    let r = runner(None);
    match r.check_health(None, VersionProbe::Finished { stdout: vec![], stderr: vec![] }, PathStyle::Unix) {
        Err(AppError::InvalidConfiguration(m)) => assert_eq!(m, "`gemini --version` returned no output"),
        other => panic!("unexpected: {other:?}"),
    }
    match r.check_health(None, VersionProbe::TimedOut, PathStyle::Unix) {
        Err(AppError::InvalidConfiguration(m)) => assert_eq!(m, "timed out while running `gemini --version`"),
        other => panic!("unexpected: {other:?}"),
    }
    assert!(matches!(r.check_health(None, VersionProbe::SpawnFailed(s("denied")), PathStyle::Unix), Err(AppError::SpawnProcess(m)) if m == "denied"));
    let bare = GeminiRunner::new(AppConfig::new(s("gemini"), 5, 10, None, None, s("/")));
    let err = bare.health_precheck(&None, PathStyle::Unix).unwrap_err();
    assert_eq!(err.message(), "configured gemini binary was not found: gemini");
    assert!(!err.is_invalid_params());
    assert!(matches!(bare.check_health(None, VersionProbe::TimedOut, PathStyle::Unix), Err(AppError::BinaryNotFound { .. })));
    assert!(bare.health_precheck(&Some(s("/usr/bin/gemini")), PathStyle::Unix).is_ok());
}

#[test]
fn windows_health_precheck_tests_the_backslash() {
    let with_backslash = GeminiRunner::new(AppConfig::new(s(r"C:\tools\gemini.exe"), 5, 10, None, None, s(r"C:\")));
    assert!(with_backslash.health_precheck(&None, PathStyle::Windows).is_ok());
    assert!(matches!(
        with_backslash.health_precheck(&None, PathStyle::Unix),
        Err(AppError::BinaryNotFound { .. })
    ));
    let with_slash = GeminiRunner::new(AppConfig::new(s("tools/gemini"), 5, 10, None, None, s(r"C:\")));
    assert!(matches!(
        with_slash.health_precheck(&None, PathStyle::Windows),
        Err(AppError::BinaryNotFound { configured }) if configured == "tools/gemini"
    ));
    assert!(with_slash.health_precheck(&None, PathStyle::Unix).is_ok());
    assert!(with_slash.health_precheck(&Some(s(r"C:\bin\gemini.exe")), PathStyle::Windows).is_ok());
}

#[test]
fn windows_plan_confines_the_working_directory() {
    let r = GeminiRunner::new(AppConfig::new(s("gemini"), 5, 10, None, Some(vec![s(r"C:\work")]), s(r"C:\work")));
    let mut req = request("p", None, None);
    req.cwd = Some(s("sub"));
    let plan = r.plan_run(&req, Some(s(r"C:\work\sub")), PathStyle::Windows).unwrap();
    assert_eq!(plan.cwd, r"C:\work\sub");
    assert!(matches!(
        r.plan_run(&req, Some(s(r"C:\other")), PathStyle::Windows),
        Err(AppError::WorkingDirectoryNotAllowed { .. })
    ));
    assert!(matches!(r.plan_run(&req, None, PathStyle::Windows), Err(AppError::InvalidWorkingDirectory(p)) if p == r"C:\work\sub"));
}

#[test]
fn health_stderr_is_trimmed_or_absent() {
    let r = runner(None);
    let quiet = r
        .check_health(None, VersionProbe::Finished { stdout: b"v1\n".to_vec(), stderr: b" \n ".to_vec() }, PathStyle::Unix)
        .unwrap();
    assert!(quiet.stderr.is_none());
    let noisy = r
        .check_health(None, VersionProbe::Finished { stdout: b"v1\n".to_vec(), stderr: b" warn \n".to_vec() }, PathStyle::Unix)
        .unwrap();
    assert_eq!(noisy.stderr.as_deref(), Some("warn"));
}
