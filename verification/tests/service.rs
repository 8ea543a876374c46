use axum::http::{HeaderMap, HeaderValue};
use gprox::config::{token, Host, Settings, StartArgs, LOCALHOST_V4, LOCALHOST_V6};
use gprox::json::Json;
use gprox::process::{
    accept_explicit, accept_found, find_native, source, unresolved, Candidate, Entry, Source,
    TreeGuard, SEARCH_DEPTH,
};
use gprox::service::{
    already_running, banner, base_url, control_auth, control_url, display_host, exit_outcome,
    is_running, start_look, status, status_body, stop_body, stop_look, stop_plan, Exit, Look,
    Runtime, StartError, StopPlan, START_LOOKS, STOP_LOOKS,
};

fn failure<T>(result: Result<T, gprox::failure::Failure>) -> String {
    match result {
        Ok(_) => panic!("a failure was expected"),
        Err(failure) => failure.message,
    }
}

fn no_args() -> StartArgs {
    StartArgs { host: None, port: None, codex: None, timeout: None, max_concurrency: None }
}

fn runtime() -> Runtime {
    Runtime {
        pid: 42,
        base_url: "http://127.0.0.1:8787/v1".to_owned(),
        admin_port: 5000,
        admin_token: "management".to_owned(),
        instance: "one".to_owned(),
    }
}

fn is_hex(text: &str) -> bool {
    text.bytes().all(|b| b.is_ascii_digit() || (b'a'..=b'f').contains(&b))
}

#[test]
fn first_settings_are_usable() {
    let mut settings = Settings::default();
    assert!(settings.host == Host::V4(LOCALHOST_V4));
    assert_eq!(settings.port, 8787);
    assert!(settings.codex.is_none());
    assert_eq!(settings.timeout, 300);
    assert_eq!(settings.max_concurrency, 2);
    assert!(settings.api_key.starts_with("sk-gprox-"));
    assert_eq!(settings.api_key.len(), 9 + 64);
    assert!(is_hex(&settings.api_key[9..]));
    let key = settings.api_key.clone();
    assert!(settings.apply(no_args()).is_ok());
    assert_eq!(settings.api_key, key);
    assert_ne!(Settings::default().api_key, key);
}

#[test]
fn tokens_are_random_digits() {
    let one = token();
    assert_eq!(one.len(), 64);
    assert!(is_hex(&one));
    for start in [0, 32] {
        assert_eq!(one.as_bytes()[start + 12], b'4');
        assert!(b"89ab".contains(&one.as_bytes()[start + 16]));
    }
    assert_ne!(token(), one);
}

#[test]
fn given_settings_replace_the_old_ones() {
    let mut settings = Settings::default();
    let args = StartArgs {
        host: Some(Host::V6(0)),
        port: Some(9000),
        codex: Some("/opt/codex".into()),
        timeout: Some(2),
        max_concurrency: Some(1),
    };
    assert!(settings.apply(args).is_ok());
    assert!(settings.apply(no_args()).is_ok());
    assert!(settings.host == Host::V6(0));
    assert_eq!(settings.port, 9000);
    assert_eq!(settings.codex.as_ref().unwrap().to_str(), Some("/opt/codex"));
    assert_eq!(settings.timeout, 2);
    assert_eq!(settings.max_concurrency, 1);
}

#[test]
fn unusable_settings_are_refused() {
    let positive = "port, timeout and max-concurrency must be greater than zero";
    let mut args = no_args();
    args.port = Some(0);
    assert_eq!(failure(Settings::default().apply(args)), positive);
    let mut args = no_args();
    args.timeout = Some(0);
    assert_eq!(failure(Settings::default().apply(args)), positive);
    let mut args = no_args();
    args.max_concurrency = Some(0);
    assert_eq!(failure(Settings::default().apply(args)), positive);
    let unusable = [
        "short".to_owned(),
        "a".repeat(31),
        format!("{} ", "a".repeat(32)),
        format!("{}é", "a".repeat(32)),
        "é".repeat(16),
    ];
    for key in unusable {
        let mut settings = Settings::default();
        settings.api_key = key;
        assert_eq!(
            failure(settings.apply(no_args())),
            "api_key must contain at least 32 ASCII characters without whitespace"
        );
    }
    let mut settings = Settings::default();
    settings.api_key = "a".repeat(32);
    assert!(settings.apply(no_args()).is_ok());
}

#[test]
fn addresses_are_shown_as_clients_reach_them() {
    assert!(display_host(Host::V4(0)) == Host::V4(LOCALHOST_V4));
    assert!(display_host(Host::V6(0)) == Host::V6(LOCALHOST_V6));
    assert!(display_host(Host::V4(0x0a000001)) == Host::V4(0x0a000001));
    assert_eq!(base_url("127.0.0.1:8787"), "http://127.0.0.1:8787/v1");
}

#[test]
fn management_has_a_credential_of_its_own() {
    let mut headers = HeaderMap::new();
    headers.insert("authorization", HeaderValue::from_static("Bearer api-key"));
    assert_eq!(
        control_auth(&headers, &runtime()),
        Err((401, "Invalid management token"))
    );
    headers.insert("authorization", HeaderValue::from_static("Bearer management"));
    assert_eq!(control_auth(&headers, &runtime()), Ok(()));
    assert_eq!(control_url(&runtime(), "stop"), "http://127.0.0.1:5000/stop");
    assert_eq!(stop_body().render(), r#"{"stopping":true}"#);
}

#[test]
fn a_gateway_is_known_by_its_instance() {
    let body = status_body(&runtime());
    assert_eq!(body.render(), r#"{"instance":"one","pid":42}"#);
    assert!(is_running(&runtime(), true, Some(&body)));
    assert!(!is_running(&runtime(), false, Some(&body)));
    assert!(!is_running(&runtime(), true, None));
    let mut other = runtime();
    other.instance = "two".to_owned();
    assert!(!is_running(&other, true, Some(&body)));
    assert!(!is_running(&other, true, Some(&Json::Null)));
}

#[test]
fn status_begins_with_the_state() {
    assert_eq!(
        status(Some(&runtime()), true, "/home/.gprox"),
        "running\nPID: 42\nBase URL: http://127.0.0.1:8787/v1\nState: /home/.gprox"
    );
    assert_eq!(
        status(None, true, "/home/.gprox"),
        "initializing or management endpoint unavailable"
    );
    assert_eq!(status(None, false, "/home/.gprox"), "stopped");
}

#[test]
fn only_a_gateway_that_answers_is_stopped() {
    assert!(matches!(stop_plan(true, true, true).ok().unwrap(), StopPlan::Ask));
    assert_eq!(
        failure(stop_plan(false, false, true)),
        "gprox is initializing; retry stop shortly"
    );
    assert_eq!(
        failure(stop_plan(true, false, true)),
        "gprox holds its lock but management endpoint is unavailable; no process was force-killed"
    );
    match stop_plan(false, false, false).ok().unwrap() {
        StopPlan::Done(text) => assert_eq!(text, "gprox is stopped"),
        StopPlan::Ask => panic!("nothing runs"),
    }
    match stop_plan(true, false, false).ok().unwrap() {
        StopPlan::Done(text) => assert_eq!(text, "gprox is stopped (stale runtime state)"),
        StopPlan::Ask => panic!("nothing runs"),
    }
}

#[test]
fn a_stopped_gateway_can_be_stopped_again() {
    // It answers, is told to stop, and its lock is free at the third look.
    assert!(matches!(stop_plan(true, true, true).ok().unwrap(), StopPlan::Ask));
    assert!(matches!(stop_look(0, false).ok().unwrap(), Look::Again));
    assert!(matches!(stop_look(1, false).ok().unwrap(), Look::Again));
    assert!(matches!(stop_look(2, true).ok().unwrap(), Look::Done(_)));
    assert_eq!(status(None, false, "/home/.gprox"), "stopped");
    assert!(matches!(stop_plan(false, false, false).ok().unwrap(), StopPlan::Done(_)));
}

#[test]
fn waiting_for_the_end_ends() {
    assert!(matches!(stop_look(0, false).ok().unwrap(), Look::Again));
    assert!(matches!(stop_look(STOP_LOOKS - 1, false).ok().unwrap(), Look::Again));
    match stop_look(STOP_LOOKS - 1, true).ok().unwrap() {
        Look::Done(text) => assert_eq!(text, "gprox stopped"),
        Look::Again => panic!("the lock is free"),
    }
    assert_eq!(
        failure(stop_look(STOP_LOOKS, true)),
        "Stop requested, but gprox has not released its lock yet"
    );
}

#[test]
fn a_started_gateway_must_be_the_one_that_answers() {
    assert!(matches!(start_look(0, None, None, 42, "log").ok().unwrap(), Look::Again));
    assert!(matches!(
        start_look(0, None, Some(&runtime()), 43, "log").ok().unwrap(),
        Look::Again
    ));
    match start_look(239, None, Some(&runtime()), 42, "log").ok().unwrap() {
        Look::Done(text) => assert_eq!(
            text,
            "gprox running in background: http://127.0.0.1:8787/v1 (PID 42)\nKey: gprox key\nLog: log"
        ),
        Look::Again => panic!("it runs"),
    }
    match start_look(1, Some("exit status: 1"), Some(&runtime()), 42, "log") {
        Err(StartError::Exited(failure)) => assert_eq!(
            failure.message,
            "Background gprox exited (exit status: 1). See log"
        ),
        _ => panic!("the process has ended"),
    }
    // Only a process that took too long is to be killed.
    match start_look(START_LOOKS, None, None, 42, "log") {
        Err(StartError::TimedOut(failure)) => {
            assert_eq!(failure.message, "Background startup timed out. See log")
        }
        _ => panic!("there are no looks left"),
    }
    assert_eq!(
        already_running(&runtime()),
        "gprox already running: http://127.0.0.1:8787/v1 (PID 42)"
    );
}

#[test]
fn runs_end_well_only_when_told_to() {
    assert!(exit_outcome(&Exit::Requested).is_ok());
    assert_eq!(
        failure(exit_outcome(&Exit::Public("Ok(())".to_owned()))),
        "Public listener exited: Ok(())"
    );
    assert_eq!(
        failure(exit_outcome(&Exit::Management("Ok(())".to_owned()))),
        "Management listener exited: Ok(())"
    );
    assert_eq!(
        banner(&runtime(), "/home/.gprox/config.json"),
        "gprox listening on http://127.0.0.1:8787/v1\nAPI key: run `gprox key` (credentials: /home/.gprox/config.json)\nStop: Ctrl+C or gprox stop"
    );
}

fn candidate(is_file: bool, extension: Option<&str>) -> Candidate {
    Candidate {
        shown: "codex".to_owned(),
        is_file,
        extension: extension.map(|text| text.to_owned()),
    }
}

#[test]
fn windows_needs_the_native_program() {
    assert!(accept_explicit(&candidate(true, None), false).is_ok());
    assert!(accept_explicit(&candidate(true, Some("exe")), true).is_ok());
    assert_eq!(
        failure(accept_explicit(&candidate(false, Some("exe")), true)),
        "Codex executable not found: codex"
    );
    assert_eq!(
        failure(accept_explicit(&candidate(true, Some("cmd")), true)),
        "On Windows --codex must point to codex.exe, not a .cmd/.ps1 wrapper"
    );
    assert!(accept_found(&candidate(true, Some("cmd")), false));
    assert!(accept_found(&candidate(true, Some("exe")), true));
    assert!(!accept_found(&candidate(true, None), true));
    assert_eq!(
        unresolved(&candidate(true, None)).message,
        "Cannot resolve native codex.exe from codex. Pass --codex <path-to-codex.exe>"
    );
}

#[test]
fn a_given_path_is_used_or_refused() {
    assert!(source(None, true).ok().unwrap() == Source::Search);
    let good = candidate(true, Some("exe"));
    assert!(source(Some(&good), true).ok().unwrap() == Source::Given);
    let missing = candidate(false, None);
    assert_eq!(
        failure(source(Some(&missing), false)),
        "Codex executable not found: codex"
    );
    let wrapper = candidate(true, Some("cmd"));
    assert_eq!(
        failure(source(Some(&wrapper), true)),
        "On Windows --codex must point to codex.exe, not a .cmd/.ps1 wrapper"
    );
}

fn file(path: &str, name: &str) -> Entry {
    Entry::File(path.into(), name.to_owned())
}

#[test]
fn the_native_program_is_found_below_its_wrapper() {
    let tree = vec![
        file("readme", "readme"),
        Entry::Directory(vec![file("a/codex", "codex"), Entry::Directory(Vec::new())]),
        Entry::Directory(vec![file("b/codex.exe", "codex.exe")]),
        file("codex.exe", "codex.exe"),
    ];
    assert_eq!(
        find_native(&tree, SEARCH_DEPTH).unwrap().to_str(),
        Some("b/codex.exe")
    );
    // With no depth left for directories the file beside them is found.
    assert_eq!(find_native(&tree, 1).unwrap().to_str(), Some("codex.exe"));
    assert!(find_native(&tree, 0).is_none());
    let tree = vec![Entry::Unknown, file("codex.exe", "codex.exe")];
    assert!(find_native(&tree, SEARCH_DEPTH).is_none());
}

#[test]
fn a_process_is_guarded_with_its_group() {
    assert_eq!(TreeGuard::attach(Some(42)).ok().unwrap().group(), -42);
    assert_eq!(TreeGuard { pid: 0x8000_0001 }.group(), 0x7fff_ffff);
    assert_eq!(failure(TreeGuard::attach(None)), "Codex process already exited");
}
