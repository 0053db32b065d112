use gemini_mcp::gemini::events::summarize_events;
use gemini_mcp::path::{path_starts_with_text, PathStyle};
use gemini_mcp::types::{GeminiRunRequest, GeminiStreamEvent, MessageRole};
use gemini_mcp::{AppConfig, AppError, GeminiRunner};

fn s(x: &str) -> String {
    x.to_string()
}

fn allowed_list(models: Vec<String>) -> Vec<String> {
    let c = AppConfig::new(s("gemini"), 5, 10, Some(models), None, s("/w"));
    match c.resolve_model(Some("not-listed")) {
        Err(AppError::ModelNotAllowed { allowed, .. }) => allowed,
        other => panic!("unexpected: {other:?}"),
    }
}

#[test]
fn allowlist_depends_on_the_set_of_models_only() {
    let a = allowed_list(vec![s("b"), s("a"), s("b"), s("c")]);
    let b = allowed_list(vec![s("c"), s("a"), s("b")]);
    assert_eq!(a, b);
    assert_eq!(a, vec![s("a"), s("b"), s("c")]);
}

#[test]
fn granted_model_is_granted_again() {
    let c = AppConfig::new(s("gemini"), 5, 10, Some(vec![s("m")]), None, s("/w"));
    let first = c.resolve_model(Some("  m\n")).unwrap().unwrap();
    assert_eq!(c.resolve_model(Some(&first)).unwrap(), Some(first.clone()));
}

#[test]
fn relative_cwd_stays_within_working_dir() {
    for wd in ["/w", "/w/", "w", "./w", "."] {
        let c = AppConfig::new(s("gemini"), 5, 10, None, None, s(wd));
        for req in ["x", "x/../y", "./z", "a//b/"] {
            let candidate = c.cwd_candidate(Some(req), PathStyle::Unix);
            assert!(path_starts_with_text(&candidate, wd, PathStyle::Unix), "{candidate:?} within {wd:?}");
        }
        assert_eq!(c.cwd_candidate(Some(" "), PathStyle::Unix), wd);
    }
}

#[test]
fn relative_windows_cwd_stays_within_working_dir() {
    for wd in [r"C:\w", r"C:\w\", "C:", r"\\server\share", r"\\.\dev", r"w\", "."] {
        let c = AppConfig::new(s("gemini"), 5, 10, None, None, s(wd));
        for req in ["x", r"x\..\y", r".\z", "a//b/", "?"] {
            let candidate = c.cwd_candidate(Some(req), PathStyle::Windows);
            assert!(path_starts_with_text(&candidate, wd, PathStyle::Windows), "{candidate:?} within {wd:?}");
        }
        assert_eq!(c.cwd_candidate(Some(" "), PathStyle::Windows), wd);
    }
    let unc_start = AppConfig::new(s("gemini"), 5, 10, None, None, s(r"\\server"));
    let joined = unc_start.cwd_candidate(Some("share"), PathStyle::Windows);
    assert_eq!(joined, r"\\server\share");
    assert!(!path_starts_with_text(&joined, r"\\server", PathStyle::Windows));
}

#[test]
fn response_of_joined_event_streams_is_joined() {
    let msg = |t: &str| GeminiStreamEvent::Message { timestamp: s("t"), role: MessageRole::Assistant, content: s(t), delta: None };
    let a = vec![msg("ab"), msg("c")];
    let b = vec![msg("d"), msg("ef")];
    let mut both = Vec::new();
    both.push(msg("ab"));
    both.push(msg("c"));
    both.push(msg("d"));
    both.push(msg("ef"));
    let joined = summarize_events(&both).response;
    assert_eq!(joined, summarize_events(&a).response + &summarize_events(&b).response);
}

#[test]
fn plan_runs_only_the_known_flags() {
    let runner = GeminiRunner::new(AppConfig::new(s("gemini"), 5, 10, None, None, s("/w")));
    let request = GeminiRunRequest {
        prompt: s("--dangerous --flags"),
        cwd: None,
        timeout_secs: None,
        model: Some(s("m")),
        include_events: None,
        include_stderr: None,
    };
    let plan = runner.plan_run(&request, Some(s("/w")), PathStyle::Unix).unwrap();
    assert_eq!(plan.args, vec![s("-p"), s("--dangerous --flags"), s("--output-format"), s("stream-json"), s("--model"), s("m")]);
    let mut expected = vec![plan.program.clone()];
    expected.extend(plan.args.iter().cloned());
    assert_eq!(plan.invocation, expected);
    assert!(!plan.include_events);
    assert!(!plan.include_stderr);
}

#[test]
fn granted_cwd_is_granted_again() {
    let c = AppConfig::new(s("gemini"), 5, 10, None, Some(vec![s("/w")]), s("/w"));
    let first = c.resolve_cwd(Some("a"), Some(s("/w/a")), PathStyle::Unix).unwrap();
    assert_eq!(c.cwd_candidate(Some(&first), PathStyle::Unix), first);
    assert_eq!(c.resolve_cwd(Some(&first), Some(first.clone()), PathStyle::Unix).unwrap(), first);
    let w = AppConfig::new(s("gemini"), 5, 10, None, Some(vec![s(r"C:\w")]), s(r"C:\w"));
    let first = w.resolve_cwd(Some("a"), Some(s(r"C:\w\a")), PathStyle::Windows).unwrap();
    assert_eq!(w.cwd_candidate(Some(&first), PathStyle::Windows), first);
    assert_eq!(w.resolve_cwd(Some(&first), Some(first.clone()), PathStyle::Windows).unwrap(), first);
}
