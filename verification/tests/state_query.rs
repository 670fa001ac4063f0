use open_web_server::admin_api::{state_query_reply, StateQueryReply};
use open_web_server::mutation::DbStateAtCommitResponse;
use open_web_server::admin_api::{extract_bearer, parse_path};

#[test]
fn parse_path_extracts_target_key_and_commit_id() {
    let parsed = parse_path("/internal/db/state/game_items/player-1/at/commit-abc").unwrap();
    assert_eq!(parsed.target, "game_items");
    assert_eq!(parsed.key, "player-1");
    assert_eq!(parsed.commit_id, "commit-abc");
}

#[test]
fn parse_path_rejects_missing_at_segment() {
    assert!(parse_path("/internal/db/state/game_items/player-1/commit-abc").is_none());
}

#[test]
fn parse_path_rejects_wrong_segment_count() {
    assert!(parse_path("/internal/db/state/game_items/at/commit-abc").is_none());
    assert!(parse_path("/internal/db/state/game_items/player-1/at/commit-abc/extra").is_none());
}

#[test]
fn parse_path_rejects_empty_segments() {
    assert!(parse_path("/internal/db/state//player-1/at/commit-abc").is_none());
    assert!(parse_path("/internal/db/state/game_items/player-1/at/").is_none());
}

#[test]
fn extracts_bearer_token_from_header() {
    assert_eq!(extract_bearer(Some("Bearer abc123")), Some("abc123".to_string()));
    assert_eq!(extract_bearer(Some("Basic abc123")), None);
    assert_eq!(extract_bearer(None), None);
}

#[test]
fn state_query_replies_follow_the_read() {
    let path = "/internal/db/state/game_items/player-1/at/commit-abc";
    match state_query_reply("/internal/db/state/game_items/at/commit-abc", None) {
        StateQueryReply::Text(400, m) => assert_eq!(m, "expected /internal/db/state/:target/:key/at/:commit_id"),
        other => panic!("unexpected {other:?}"),
    }
    let v = DbStateAtCommitResponse {
        target: "game_items".to_string(),
        key: "player-1".to_string(),
        commit_id: "commit-abc".to_string(),
        value: "{\"gold\":10}".to_string(),
    };
    match state_query_reply(path, Some(Ok(Some(v)))) {
        StateQueryReply::Found(w) => assert_eq!(w.value, "{\"gold\":10}"),
        other => panic!("unexpected {other:?}"),
    }
    match state_query_reply(path, Some(Ok(None))) {
        StateQueryReply::Text(404, m) => assert_eq!(
            m,
            "no value for game_items/player-1 as of commit commit-abc (commit unknown, or the key did not exist yet at that point)"
        ),
        other => panic!("unexpected {other:?}"),
    }
    match state_query_reply(path, Some(Err("timeout".to_string()))) {
        StateQueryReply::Text(502, m) => assert_eq!(m, "open-runo request failed: timeout"),
        other => panic!("unexpected {other:?}"),
    }
}
