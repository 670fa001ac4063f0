use open_web_server::domain_watchdog::{
    apply_content_check, failure_outcome, plan_recovery, reissue_action_text, response_outcome, CheckFailure,
    CheckOutcome, RecoveryPlan, WatchdogState,
};

fn failed_tls() -> CheckOutcome {
    failure_outcome(&CheckFailure::TcpConnect("connection refused".to_string()))
}

fn page(body: &str) -> CheckOutcome {
    response_outcome(200, "200 OK", Some(body.as_bytes()))
}

fn health_of(state: &WatchdogState, host: &str) -> open_web_server::domain_watchdog::HostHealth {
    state.snapshot().into_iter().find(|(h, _)| h == host).unwrap().1
}

#[test]
fn check_host_https_reports_tls_broken_when_nothing_is_listening() {
    let outcome = failed_tls();
    assert!(!outcome.ok);
    assert!(outcome.tls_broken);
    assert_eq!(outcome.detail, "tcp connect failed: connection refused");
}

#[test]
fn check_host_https_succeeds_against_a_real_tls_listener() {
    let outcome = page("ok");
    assert!(outcome.ok);
    assert!(!outcome.tls_broken);
    assert_eq!(outcome.detail, "http status 200 OK");
    assert_eq!(outcome.body, "ok");
}

#[test]
fn repeated_tls_failures_trigger_automatic_reissuance_and_ai_diagnosis() {
    let mut state = WatchdogState::new();
    let host = "broken-host.example.test";

    let (_, plan1) = state.observe(host, failed_tls(), 100, 2, true, true);
    assert_eq!(plan1, RecoveryPlan { diagnose: false, reissue: false });

    let (checked, plan2) = state.observe(host, failed_tls(), 400, 2, true, true);
    assert_eq!(plan2, RecoveryPlan { diagnose: true, reissue: true });
    state.set_ai_diagnosis(host, "certificate may be missing".to_string());
    state.set_recovery_action(host, reissue_action_text(&Ok(())));
    assert!(checked.tls_broken);

    let health = health_of(&state, host);
    assert_eq!(health.consecutive_failures, 2);
    assert_eq!(health.last_recovery_action.as_deref(), Some("tls_reissued"));
    assert!(health.last_ai_diagnosis.is_some());
    assert_eq!(health.last_checked_unix, 400);
}

#[test]
fn recovery_resets_failure_count_and_clears_recovery_state() {
    let mut state = WatchdogState::new();
    let host = "recovers.example.test";
    state.record(
        host,
        &CheckOutcome { ok: false, detail: "manual failure injection".to_string(), tls_broken: true, body: String::new() },
        10,
    );
    state.set_recovery_action(host, "tls_reissued".to_string());

    let (_, plan) = state.observe(host, page("ok"), 20, 1, false, false);
    assert_eq!(plan, RecoveryPlan { diagnose: false, reissue: false });

    let health = health_of(&state, host);
    assert_eq!(health.consecutive_failures, 0);
    assert!(health.last_ok);
    assert!(health.last_recovery_action.is_none());
}

#[test]
fn missing_expected_content_is_treated_as_a_failure_without_triggering_cert_reissuance() {
    let mut state = WatchdogState::new();
    let host = "content-check.example.test";
    state.set_expectations(host, vec!["SPEC RPA-MG1000".to_string()]);

    let (checked, plan) = state.observe(host, page("<html>old content</html>"), 5, 1, true, true);
    assert!(!checked.ok);
    assert_eq!(checked.detail, "content check failed: missing expected text(s): SPEC RPA-MG1000");
    assert_eq!(plan, RecoveryPlan { diagnose: true, reissue: false });

    let health = health_of(&state, host);
    assert!(!health.last_ok);
    assert!(health.last_detail.contains("SPEC RPA-MG1000"));
    assert!(health.last_recovery_action.is_none());
}

#[test]
fn content_check_passes_when_expected_text_is_present() {
    let mut state = WatchdogState::new();
    let host = "content-ok.example.test";
    state.set_expectations(host, vec!["SPEC".to_string(), "RPA".to_string()]);
    let (checked, _) = state.observe(host, page("<html>SPEC RPA-MG1000</html>"), 5, 1, true, true);
    assert!(checked.ok);
    assert!(health_of(&state, host).last_ok);
}

#[test]
fn content_check_lists_every_missing_text() {
    let expected = vec!["a".to_string(), "zz".to_string(), "b".to_string(), "yy".to_string()];
    let r = apply_content_check(page("a b"), &expected);
    assert!(!r.ok);
    assert_eq!(r.detail, "content check failed: missing expected text(s): zz, yy");
    let untouched = apply_content_check(failed_tls(), &expected);
    assert_eq!(untouched.detail, "tcp connect failed: connection refused");
}

#[test]
fn server_errors_count_as_failures_but_not_tls_failures() {
    let r = response_outcome(503, "503 Service Unavailable", None);
    assert!(!r.ok);
    assert!(!r.tls_broken);
    assert!(r.body.is_empty());
    assert!(response_outcome(404, "404 Not Found", Some(b"x")).ok);
    let plan = plan_recovery(false, 3, 3, false, false, true);
    assert_eq!(plan, RecoveryPlan { diagnose: false, reissue: false });
    assert_eq!(reissue_action_text(&Err("acme down".to_string())), "tls_reissue_failed: acme down");
}

#[test]
fn expectations_can_be_cleared() {
    let mut state = WatchdogState::new();
    state.set_expectations("h", vec!["x".to_string()]);
    assert_eq!(state.expectations_for("h"), vec!["x".to_string()]);
    state.set_expectations("h", vec![]);
    assert!(state.expectations_for("h").is_empty());
    assert_eq!(state.failures_for("h"), 0);
}

#[test]
fn all_expectations_lists_every_host() {
    let mut state = WatchdogState::new();
    state.set_expectations("a", vec!["x".to_string()]);
    state.set_expectations("b", vec!["y".to_string(), "z".to_string()]);
    assert_eq!(
        state.all_expectations(),
        vec![("a".to_string(), vec!["x".to_string()]), ("b".to_string(), vec!["y".to_string(), "z".to_string()])]
    );
}
