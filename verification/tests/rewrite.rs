use open_web_server::rewrite::{apply, apply_with_context, RewriteCondition, RewriteContext, RewriteOutcome, RewriteRule};
#[test]
fn no_rules_leaves_path_unchanged() {
    assert_eq!(apply("/foo/bar", &[]), RewriteOutcome::Unchanged);
}

#[test]
fn unmatched_pattern_leaves_path_unchanged() {
    let rules = vec![RewriteRule { pattern: "^/nomatch$".to_string(), substitution: "/other".to_string(), redirect: false, conditions: vec![] }];
    assert_eq!(apply("/foo/bar", &rules), RewriteOutcome::Unchanged);
}

#[test]
fn internal_rewrite_with_capture_group() {
    // Apacheでよくある「/old/123 を /new.php?id=123 へ内部リライト」パターン。
    let rules = vec![RewriteRule {
        pattern: r"^/old/(\d+)$".to_string(),
        substitution: "/new.php?id=$1".to_string(),
        redirect: false,
        conditions: vec![],
    }];
    assert_eq!(apply("/old/123", &rules), RewriteOutcome::Rewritten("/new.php?id=123".to_string()));
}

#[test]
fn external_redirect_returns_redirect_variant() {
    let rules = vec![RewriteRule {
        pattern: r"^/legacy/(.*)$".to_string(),
        substitution: "/modern/$1".to_string(),
        redirect: true,
        conditions: vec![],
    }];
    assert_eq!(apply("/legacy/page", &rules), RewriteOutcome::Redirect("/modern/page".to_string()));
}

#[test]
fn first_matching_rule_wins_and_stops_evaluation() {
    let rules = vec![
        RewriteRule { pattern: r"^/a$".to_string(), substitution: "/first".to_string(), redirect: false, conditions: vec![] },
        RewriteRule { pattern: r"^/a$".to_string(), substitution: "/second".to_string(), redirect: false, conditions: vec![] },
    ];
    assert_eq!(apply("/a", &rules), RewriteOutcome::Rewritten("/first".to_string()));
}

#[test]
fn invalid_regex_pattern_is_skipped_not_panicking() {
    let rules = vec![
        RewriteRule { pattern: "(unclosed".to_string(), substitution: "/never".to_string(), redirect: false, conditions: vec![] },
        RewriteRule { pattern: r"^/ok$".to_string(), substitution: "/matched".to_string(), redirect: false, conditions: vec![] },
    ];
    assert_eq!(apply("/ok", &rules), RewriteOutcome::Rewritten("/matched".to_string()));
}

#[test]
fn rewrite_condition_on_http_host_gates_the_rule() {
    let rules = vec![RewriteRule {
        pattern: r"^/(.*)$".to_string(),
        substitution: "/mobile/$1".to_string(),
        redirect: false,
        conditions: vec![RewriteCondition {
            variable: "HTTP_HOST".to_string(),
            pattern: r"^m\.example\.com$".to_string(),
        }],
    }];

    let matching_ctx = RewriteContext { http_host: Some("m.example.com"), ..Default::default() };
    assert_eq!(
        apply_with_context("/page", &rules, &matching_ctx),
        RewriteOutcome::Rewritten("/mobile/page".to_string())
    );

    let non_matching_ctx = RewriteContext { http_host: Some("www.example.com"), ..Default::default() };
    assert_eq!(apply_with_context("/page", &rules, &non_matching_ctx), RewriteOutcome::Unchanged);
}

#[test]
fn rewrite_condition_without_context_never_matches_via_plain_apply() {
    // 後方互換の入口`apply`はコンテキストを持たないため、conditions付き
    // ルールはコンテキスト無しでは常に不一致として扱われる。
    let rules = vec![RewriteRule {
        pattern: r"^/(.*)$".to_string(),
        substitution: "/mobile/$1".to_string(),
        redirect: false,
        conditions: vec![RewriteCondition {
            variable: "HTTP_HOST".to_string(),
            pattern: r"^m\.example\.com$".to_string(),
        }],
    }];
    assert_eq!(apply("/page", &rules), RewriteOutcome::Unchanged);
}

#[test]
fn multiple_conditions_are_and_combined() {
    let rules = vec![RewriteRule {
        pattern: r"^/(.*)$".to_string(),
        substitution: "/api/$1".to_string(),
        redirect: false,
        conditions: vec![
            RewriteCondition { variable: "HTTP_HOST".to_string(), pattern: r"^api\.example\.com$".to_string() },
            RewriteCondition { variable: "REQUEST_METHOD".to_string(), pattern: r"^POST$".to_string() },
        ],
    }];

    let both_match = RewriteContext {
        http_host: Some("api.example.com"),
        request_method: Some("POST"),
        ..Default::default()
    };
    assert_eq!(
        apply_with_context("/thing", &rules, &both_match),
        RewriteOutcome::Rewritten("/api/thing".to_string())
    );

    let only_host_matches = RewriteContext {
        http_host: Some("api.example.com"),
        request_method: Some("GET"),
        ..Default::default()
    };
    assert_eq!(apply_with_context("/thing", &rules, &only_host_matches), RewriteOutcome::Unchanged);
}

#[test]
fn unknown_condition_variable_fails_closed() {
    let rules = vec![RewriteRule {
        pattern: r"^/(.*)$".to_string(),
        substitution: "/never/$1".to_string(),
        redirect: false,
        conditions: vec![RewriteCondition { variable: "REMOTE_ADDR".to_string(), pattern: r".*".to_string() }],
    }];
    let ctx = RewriteContext { http_host: Some("example.com"), ..Default::default() };
    assert_eq!(apply_with_context("/thing", &rules, &ctx), RewriteOutcome::Unchanged);
}
