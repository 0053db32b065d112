use gemini_mcp::config::{
    binary_lookup, parse_allowed_models, parse_u64_env, split_paths, DirProbe, EnvSettings,
    EnvValue,
};
use gemini_mcp::path::PathStyle;
use gemini_mcp::{AppConfig, AppError};

fn s(x: &str) -> String {
    x.to_string()
}

fn config(models: Option<Vec<String>>, prefixes: Option<Vec<String>>) -> AppConfig {
    AppConfig::new(s("gemini"), 5, 10, models, prefixes, s("/srv/work"))
}

#[test]
fn timeout_defaults_when_not_requested() {
    let c = config(None, None);
    assert_eq!(c.resolve_timeout_secs(None).unwrap(), 5);
    assert_eq!(c.resolve_timeout(None).unwrap().as_secs(), 5);
    assert_eq!(c.default_timeout().as_secs(), 5);
}

#[test]
fn timeout_at_the_maximum_is_granted() {
    let c = config(None, None);
    assert_eq!(c.resolve_timeout(Some(10)).unwrap().as_secs(), 10);
    assert_eq!(c.resolve_timeout(Some(1)).unwrap().as_secs(), 1);
}

#[test]
fn zero_timeout_is_invalid() {
    let c = config(None, None);
    match c.resolve_timeout(Some(0)) {
        Err(AppError::InvalidParams(m)) => assert_eq!(m, "timeout_secs must be greater than zero"),
        other => panic!("unexpected: {other:?}"),
    }
    let zero_default = AppConfig::new(s("gemini"), 0, 10, None, None, s("/"));
    assert!(matches!(zero_default.resolve_timeout(None), Err(AppError::InvalidParams(_))));
}

#[test]
fn timeout_above_the_maximum_is_refused() {
    let c = config(None, None);
    let err = c.resolve_timeout(Some(11)).unwrap_err();
    match &err {
        AppError::TimeoutTooLarge { requested_secs, max_secs } => {
            assert_eq!(*requested_secs, 11);
            assert_eq!(*max_secs, 10);
        }
        other => panic!("unexpected: {other:?}"),
    }
    assert_eq!(err.message(), "requested timeout 11s exceeds configured max 10s");
    assert!(err.is_invalid_params());
}

#[test]
fn model_is_trimmed_and_blank_means_none() {
    let c = config(None, None);
    assert_eq!(c.resolve_model(Some("  gemini-2.5-pro\t")).unwrap(), Some(s("gemini-2.5-pro")));
    assert_eq!(c.resolve_model(Some("   ")).unwrap(), None);
    assert_eq!(c.resolve_model(Some("")).unwrap(), None);
    assert_eq!(c.resolve_model(None).unwrap(), None);
}

#[test]
fn model_outside_allowlist_is_refused_with_sorted_list() {
    let c = config(Some(vec![s("zeta"), s("alpha"), s("mid"), s("alpha")]), None);
    assert_eq!(c.resolve_model(Some(" mid ")).unwrap(), Some(s("mid")));
    let err = c.resolve_model(Some("other")).unwrap_err();
    match &err {
        AppError::ModelNotAllowed { model, allowed } => {
            assert_eq!(model, "other");
            assert_eq!(allowed, &vec![s("alpha"), s("mid"), s("zeta")]);
        }
        other => panic!("unexpected: {other:?}"),
    }
    assert_eq!(err.message(), "requested model 'other' is not in the configured allowlist");
    // A blank request is not checked against the allowlist.
    assert_eq!(c.resolve_model(Some(" ")).unwrap(), None);
}

#[test]
fn empty_allowlist_refuses_every_model() {
    let c = config(Some(vec![]), None);
    assert!(matches!(c.resolve_model(Some("a")), Err(AppError::ModelNotAllowed { .. })));
    assert_eq!(c.resolve_model(None).unwrap(), None);
}

#[test]
fn cwd_candidate_resolves_against_working_dir() {
    let c = config(None, None);
    assert_eq!(c.cwd_candidate(None, PathStyle::Unix), "/srv/work");
    assert_eq!(c.cwd_candidate(Some("  "), PathStyle::Unix), "/srv/work");
    assert_eq!(c.cwd_candidate(Some(" sub/dir "), PathStyle::Unix), "/srv/work/sub/dir");
    assert_eq!(c.cwd_candidate(Some("/abs/path"), PathStyle::Unix), "/abs/path");
    let trailing = AppConfig::new(s("gemini"), 5, 10, None, None, s("/srv/"));
    assert_eq!(trailing.cwd_candidate(Some("x"), PathStyle::Unix), "/srv/x");
}

#[test]
fn missing_cwd_is_invalid_working_directory() {
    let c = config(None, None);
    match c.resolve_cwd(Some("nope"), None, PathStyle::Unix) {
        Err(AppError::InvalidWorkingDirectory(p)) => assert_eq!(p, "/srv/work/nope"),
        other => panic!("unexpected: {other:?}"),
    }
}

#[test]
fn cwd_must_lie_within_an_allowed_prefix_by_components() {
    let c = config(None, Some(vec![s("/srv/work"), s("/opt/data/")]));
    assert_eq!(c.resolve_cwd(None, Some(s("/srv/work")), PathStyle::Unix).unwrap(), "/srv/work");
    assert_eq!(c.resolve_cwd(Some("a"), Some(s("/srv/work/a/b")), PathStyle::Unix).unwrap(), "/srv/work/a/b");
    assert_eq!(c.resolve_cwd(Some("/opt/data"), Some(s("/opt/data")), PathStyle::Unix).unwrap(), "/opt/data");
    let err = c.resolve_cwd(Some("/srv/workshop"), Some(s("/srv/workshop")), PathStyle::Unix).unwrap_err();
    match &err {
        AppError::WorkingDirectoryNotAllowed { cwd, allowed_prefixes } => {
            assert_eq!(cwd, "/srv/workshop");
            assert_eq!(allowed_prefixes, &vec![s("/srv/work"), s("/opt/data/")]);
        }
        other => panic!("unexpected: {other:?}"),
    }
    assert_eq!(err.message(), "working directory is outside allowed prefixes: /srv/workshop");
    let open = config(None, None);
    assert_eq!(open.resolve_cwd(Some("/anywhere"), Some(s("/anywhere")), PathStyle::Unix).unwrap(), "/anywhere");
}

#[test]
fn binary_lookup_searches_path_entries_in_order() {
    let l = binary_lookup("gemini", Some("/usr/local/bin:/usr/bin/:"), PathStyle::Unix);
    assert!(!l.direct);
    assert_eq!(l.candidates, vec![s("/usr/local/bin/gemini"), s("/usr/bin/gemini"), s("gemini")]);
    let none = binary_lookup("gemini", None, PathStyle::Unix);
    assert!(none.candidates.is_empty());
    let direct = binary_lookup("./gemini", Some("/usr/bin"), PathStyle::Unix);
    assert!(direct.direct);
    assert_eq!(direct.candidates, vec![s("./gemini")]);
    let abs = binary_lookup("/opt/gemini/bin/gemini", None, PathStyle::Unix);
    assert!(abs.direct);
}

#[test]
fn resolve_binary_path_takes_first_found_candidate() {
    let c = config(None, None);
    let path = Some("/a:/b:/c");
    assert_eq!(c.resolve_binary_path(path, &vec![false, true, true], PathStyle::Unix), Some(s("/b/gemini")));
    assert_eq!(c.resolve_binary_path(path, &vec![false, false, false], PathStyle::Unix), None);
    assert_eq!(c.resolve_binary_path(path, &vec![false], PathStyle::Unix), None);
    assert_eq!(c.resolve_binary_path(None, &vec![true], PathStyle::Unix), None);
}

#[test]
fn u64_settings_parse_like_the_standard_library() {
    let name = "GEMINI_DEFAULT_TIMEOUT_SECS";
    assert_eq!(parse_u64_env(name, &EnvValue::Present(s("600")), 1).unwrap(), 600);
    assert_eq!(parse_u64_env(name, &EnvValue::Present(s("+42")), 1).unwrap(), 42);
    assert_eq!(
        parse_u64_env(name, &EnvValue::Present(s("18446744073709551615")), 1).unwrap(),
        u64::MAX
    );
    assert_eq!(parse_u64_env(name, &EnvValue::NotPresent, 7).unwrap(), 7);
    let cases = [
        ("", "cannot parse integer from empty string"),
        ("abc", "invalid digit found in string"),
        ("-1", "invalid digit found in string"),
        ("+", "invalid digit found in string"),
        (" 5", "invalid digit found in string"),
        ("18446744073709551616", "number too large to fit in target type"),
    ];
    for (input, detail) in cases {
        let err = parse_u64_env(name, &EnvValue::Present(s(input)), 1).unwrap_err();
        let expected = format!("failed to parse {name} as u64: {detail}");
        assert_eq!(err.message(), format!("invalid environment configuration: {expected}"));
        // The standard library agrees on the verdict.
        assert!(input.parse::<u64>().is_err());
    }
    let err = parse_u64_env(name, &EnvValue::NotUnicode, 1).unwrap_err();
    assert!(matches!(&err, AppError::InvalidConfiguration(m) if m == "GEMINI_DEFAULT_TIMEOUT_SECS must be valid unicode"));
}

#[test]
fn allowed_models_list_becomes_a_sorted_set() {
    assert_eq!(
        parse_allowed_models(Some(" gemini-2.5-pro, gemini-2.5-flash ,,gemini-2.5-pro ")),
        Some(vec![s("gemini-2.5-flash"), s("gemini-2.5-pro")])
    );
    assert_eq!(parse_allowed_models(Some(" , ,")), None);
    assert_eq!(parse_allowed_models(Some("")), None);
    assert_eq!(parse_allowed_models(None), None);
}

#[test]
fn path_lists_split_on_colons() {
    assert_eq!(split_paths("/a:/b", PathStyle::Unix), vec![s("/a"), s("/b")]);
    assert_eq!(split_paths("", PathStyle::Unix), vec![s("")]);
    assert_eq!(split_paths("/a::", PathStyle::Unix), vec![s("/a"), s(""), s("")]);
}

fn settings() -> EnvSettings {
    EnvSettings {
        gemini_bin: None,
        default_timeout_secs: EnvValue::NotPresent,
        max_timeout_secs: EnvValue::NotPresent,
        allowed_models: None,
        allowed_cwd_prefixes: None,
        working_dir: Ok(s("/home/user")),
    }
}

#[test]
fn environment_defaults() {
    let c = AppConfig::from_env_values(settings()).unwrap();
    assert_eq!(c.gemini_bin(), "gemini");
    assert_eq!(c.resolve_timeout_secs(None).unwrap(), 600);
    assert_eq!(c.resolve_timeout_secs(Some(1800)).unwrap(), 1800);
    assert!(c.resolve_timeout_secs(Some(1801)).is_err());
    assert_eq!(c.cwd_candidate(None, PathStyle::Unix), "/home/user");
    assert_eq!(c.resolve_model(Some("anything")).unwrap(), Some(s("anything")));
}

#[test]
fn environment_values_are_applied() {
    let mut e = settings();
    e.gemini_bin = Some(s("/opt/gemini"));
    e.default_timeout_secs = EnvValue::Present(s("30"));
    e.max_timeout_secs = EnvValue::Present(s("60"));
    e.allowed_models = Some(s("b,a"));
    e.allowed_cwd_prefixes = Some(vec![DirProbe { path: s("/data/."), canonical: Some(s("/data")) }]);
    let c = AppConfig::from_env_values(e).unwrap();
    assert_eq!(c.gemini_bin(), "/opt/gemini");
    assert_eq!(c.resolve_timeout_secs(None).unwrap(), 30);
    assert!(matches!(c.resolve_timeout_secs(Some(61)), Err(AppError::TimeoutTooLarge { .. })));
    match c.resolve_model(Some("c")) {
        Err(AppError::ModelNotAllowed { allowed, .. }) => assert_eq!(allowed, vec![s("a"), s("b")]),
        other => panic!("unexpected: {other:?}"),
    }
    assert!(c.resolve_cwd(None, Some(s("/home/user")), PathStyle::Unix).is_err());
    assert!(c.resolve_cwd(Some("/data/x"), Some(s("/data/x")), PathStyle::Unix).is_ok());
}

#[test]
fn default_timeout_above_maximum_is_refused() {
    let mut e = settings();
    e.default_timeout_secs = EnvValue::Present(s("100"));
    e.max_timeout_secs = EnvValue::Present(s("50"));
    match AppConfig::from_env_values(e) {
        Err(AppError::InvalidConfiguration(m)) => {
            assert_eq!(m, "GEMINI_DEFAULT_TIMEOUT_SECS must be <= GEMINI_MAX_TIMEOUT_SECS")
        }
        other => panic!("unexpected: {other:?}"),
    }
}

#[test]
fn environment_errors_come_in_order() {
    let mut e = settings();
    e.default_timeout_secs = EnvValue::Present(s("x"));
    e.max_timeout_secs = EnvValue::NotUnicode;
    e.working_dir = Err(s("gone"));
    match AppConfig::from_env_values(e) {
        Err(AppError::InvalidConfiguration(m)) => assert_eq!(
            m,
            "failed to parse GEMINI_DEFAULT_TIMEOUT_SECS as u64: invalid digit found in string"
        ),
        other => panic!("unexpected: {other:?}"),
    }
    let mut e = settings();
    e.allowed_cwd_prefixes = Some(vec![
        DirProbe { path: s("/ok"), canonical: Some(s("/ok")) },
        DirProbe { path: s("/missing"), canonical: None },
        DirProbe { path: s("/also-missing"), canonical: None },
    ]);
    e.working_dir = Err(s("gone"));
    match AppConfig::from_env_values(e) {
        Err(AppError::InvalidWorkingDirectory(p)) => assert_eq!(p, "/missing"),
        other => panic!("unexpected: {other:?}"),
    }
    let mut e = settings();
    e.allowed_cwd_prefixes = Some(vec![]);
    e.working_dir = Err(s("No such file or directory (os error 2)"));
    match AppConfig::from_env_values(e) {
        Err(AppError::InvalidConfiguration(m)) => assert_eq!(
            m,
            "failed to determine current working directory: No such file or directory (os error 2)"
        ),
        other => panic!("unexpected: {other:?}"),
    }
}

#[test]
fn windows_path_list_splits_on_semicolons_outside_quotes() {
    assert_eq!(
        split_paths(r#"c:\foo;c:\som"e;di"r;c:\bar"#, PathStyle::Windows),
        vec![s(r"c:\foo"), s(r"c:\some;dir"), s(r"c:\bar")]
    );
    assert_eq!(split_paths(r#"c:\;c:\"foo"\"#, PathStyle::Windows), vec![s(r"c:\"), s(r"c:\foo\")]);
    assert_eq!(split_paths("", PathStyle::Windows), vec![s("")]);
    assert_eq!(split_paths(";;", PathStyle::Windows), vec![s(""), s(""), s("")]);
    assert_eq!(split_paths("/a:/b", PathStyle::Windows), vec![s("/a:/b")]);
    assert_eq!(split_paths(r"C:\a;D:\b", PathStyle::Unix), vec![s("C"), s(r"\a;D"), s(r"\b")]);
}

#[test]
fn windows_lookup_tries_the_executable_extensions() {
    let l = binary_lookup("gemini", Some(r"C:\bin;D:\tools\"), PathStyle::Windows);
    assert!(!l.direct);
    assert_eq!(
        l.candidates,
        vec![
            s(r"C:\bin\gemini"),
            s(r"C:\bin\gemini.exe"),
            s(r"C:\bin\gemini.cmd"),
            s(r"C:\bin\gemini.bat"),
            s(r"D:\tools\gemini"),
            s(r"D:\tools\gemini.exe"),
            s(r"D:\tools\gemini.cmd"),
            s(r"D:\tools\gemini.bat"),
        ]
    );
    let direct = binary_lookup(r"C:\x\gemini.exe", Some(r"C:\bin"), PathStyle::Windows);
    assert!(direct.direct);
    assert_eq!(direct.candidates, vec![s(r"C:\x\gemini.exe")]);
    assert!(binary_lookup(r"tools\gemini", None, PathStyle::Windows).direct);
    assert!(binary_lookup("tools/gemini", None, PathStyle::Windows).direct);
    assert!(!binary_lookup(r"tools\gemini", None, PathStyle::Unix).direct);
    assert!(!binary_lookup("gemini.exe", None, PathStyle::Windows).direct);
}

#[test]
fn windows_resolve_binary_path_takes_first_found_extension() {
    let c = AppConfig::new(s("gemini"), 5, 10, None, None, s(r"C:\work"));
    let path = Some(r"C:\a;C:\b");
    assert_eq!(
        c.resolve_binary_path(path, &vec![false, false, true, true, true], PathStyle::Windows),
        Some(s(r"C:\a\gemini.cmd"))
    );
    assert_eq!(
        c.resolve_binary_path(path, &vec![false, false, false, false, false, true], PathStyle::Windows),
        Some(s(r"C:\b\gemini.exe"))
    );
    assert_eq!(c.resolve_binary_path(path, &vec![false; 8], PathStyle::Windows), None);
}

#[test]
fn windows_cwd_resolves_and_is_confined_by_components() {
    let c = AppConfig::new(s("gemini"), 5, 10, None, Some(vec![s(r"C:\work")]), s(r"C:\work"));
    assert_eq!(c.cwd_candidate(Some("sub"), PathStyle::Windows), r"C:\work\sub");
    assert_eq!(c.cwd_candidate(Some(r"D:\data"), PathStyle::Windows), r"D:\data");
    assert_eq!(c.cwd_candidate(Some(r"\data"), PathStyle::Windows), r"C:\data");
    assert_eq!(c.cwd_candidate(None, PathStyle::Windows), r"C:\work");
    assert_eq!(
        c.resolve_cwd(Some("sub"), Some(s(r"C:\work\sub")), PathStyle::Windows).unwrap(),
        r"C:\work\sub"
    );
    assert_eq!(
        c.resolve_cwd(Some("sub"), Some(s("C:/work/sub")), PathStyle::Windows).unwrap(),
        "C:/work/sub"
    );
    assert!(matches!(
        c.resolve_cwd(None, Some(s(r"C:\workshop")), PathStyle::Windows),
        Err(AppError::WorkingDirectoryNotAllowed { .. })
    ));
    assert!(matches!(
        c.resolve_cwd(None, Some(s(r"D:\work")), PathStyle::Windows),
        Err(AppError::WorkingDirectoryNotAllowed { .. })
    ));
}

#[test]
fn windows_cwd_prefix_check_reads_the_drive_in_either_case() {
    let c = AppConfig::new(s("gemini"), 5, 10, None, Some(vec![s(r"\\?\C:\work")]), s(r"C:\work"));
    assert_eq!(
        c.resolve_cwd(None, Some(s(r"\\?\c:\work\a")), PathStyle::Windows).unwrap(),
        r"\\?\c:\work\a"
    );
    assert!(matches!(
        c.resolve_cwd(None, Some(s(r"C:\work\a")), PathStyle::Windows),
        Err(AppError::WorkingDirectoryNotAllowed { .. })
    ));
}
