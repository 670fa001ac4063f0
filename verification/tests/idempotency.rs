use open_web_server::mutation::{
    charge_mutation, check_idempotency, grant_item_mutation, mutation_refused_reply, ChargeRequest, CoreError,
    GrantItemRequest, IdempotencyKey, MutationPayload,
};

#[test]
fn rejects_mutating_request_without_idempotency_key() {
    assert!(check_idempotency("/api/v1/items/grant", false).is_err());
}

#[test]
fn allows_mutating_request_with_idempotency_key() {
    assert!(check_idempotency("/api/v1/items/grant", true).is_ok());
}

#[test]
fn allows_non_mutating_request_without_idempotency_key() {
    assert!(check_idempotency("/healthz", false).is_ok());
}

#[test]
fn mutating_paths_are_the_api_write_endpoints() {
    assert!(check_idempotency("/api/v1/transactions/charge", false).is_err());
    assert!(check_idempotency("/admin/tenants", false).is_ok());
    assert_eq!(
        check_idempotency("/api/v1/items", false),
        Err("Idempotency-Key header is required for mutating endpoints".to_string())
    );
}

#[test]
fn generated_idempotency_keys_are_hyphenated_uuids() {
    let a = IdempotencyKey::new();
    let b = IdempotencyKey::new();
    assert_eq!(a.0.len(), 36);
    assert_eq!(a.0.matches('-').count(), 4);
    assert_ne!(a, b);
}

#[test]
fn core_error_messages() {
    let e = CoreError::DuplicateKey(IdempotencyKey("k1".to_string()));
    assert_eq!(e.message(), "duplicate idempotency key: IdempotencyKey(\"k1\") (既に処理済み。二重書き込みを拒否)");
    assert_eq!(CoreError::Validation("bad".to_string()).message(), "validation error: bad");
}

#[test]
fn idempotency_keys_are_lowercase_hyphenated_hex() {
    let k = IdempotencyKey::new();
    for (i, c) in k.0.chars().enumerate() {
        if [8, 13, 18, 23].contains(&i) {
            assert_eq!(c, '-');
        } else {
            assert!(c.is_ascii_digit() || ('a'..='f').contains(&c));
        }
    }
}

#[test]
fn item_grants_and_charges_become_ledger_writes() {
    let m = grant_item_mutation(
        GrantItemRequest {
            idempotency_key: "k-1".to_string(),
            account_id: "acct".to_string(),
            item_id: "sword".to_string(),
            quantity: 3,
        },
        1_700_000_000_000,
    );
    assert_eq!(m.idempotency_key, IdempotencyKey("k-1".to_string()));
    assert_eq!(m.target, "game_items");
    assert_eq!(m.requested_at, 1_700_000_000_000);
    assert!(matches!(m.payload, MutationPayload::ItemGrant { ref item_id, quantity: 3 } if item_id == "sword"));

    let c = charge_mutation(
        ChargeRequest {
            idempotency_key: "k-2".to_string(),
            account_id: "acct".to_string(),
            amount_cents: 1299,
            currency: "JPY".to_string(),
        },
        5,
    );
    assert_eq!(c.target, "financial_transactions");
    assert!(matches!(c.payload, MutationPayload::Charge { amount_cents: 1299, ref currency } if currency == "JPY"));

    let (st, msg) = mutation_refused_reply(&CoreError::UpstreamCommitFailed("down".to_string()));
    assert_eq!(st, 409);
    assert_eq!(msg, "upstream commit failed: down");
}
