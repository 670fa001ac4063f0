//! Shared vocabulary of the payment path: idempotency keys and the errors
//! of a mutation.

use vstd::prelude::*;
use crate::text::{push_str, starts_with, str_starts_with};

verus! {

/// Key that makes a mutation idempotent: a second request with the same
/// key is refused instead of applied twice.
#[derive(Debug, Clone, PartialEq, Eq, Hash)]
pub struct IdempotencyKey(pub String);

/// `uuid::Uuid::new_v4().to_string()`: a random version-4 UUID in its
/// hyphenated form, lowercase hex digits in groups of 8-4-4-4-12. Only
/// this form is claimed, not the value.
#[verifier::external_body]
fn random_uuid_hyphenated() -> (r: String)
    ensures
        hyphenated_uuid_form(r@),
{
    uuid::Uuid::new_v4().to_string()
}

/// A text in the hyphenated UUID form: 36 characters, `-` at positions 8,
/// 13, 18 and 23, lowercase hex digits elsewhere.
pub open spec fn hyphenated_uuid_form(s: Seq<char>) -> bool {
    &&& s.len() == 36
    &&& forall|i: int|
        0 <= i < 36 ==> if i == 8 || i == 13 || i == 18 || i == 23 {
            #[trigger] s[i] == '-'
        } else {
            crate::text::is_lower_hex_digit(s[i])
        }
}

impl IdempotencyKey {
    /// A fresh random key (a hyphenated version-4 UUID).
    pub fn new() -> (r: Self)
        ensures
            hyphenated_uuid_form(r.0@),
    {
        IdempotencyKey(random_uuid_hyphenated())
    }
}

/// Errors of a mutation.
#[derive(Debug, Clone)]
pub enum CoreError {
    /// The idempotency key was seen already: the write is refused.
    DuplicateKey(IdempotencyKey),
    UpstreamCommitFailed(String),
    Validation(String),
    MultiRegionReplicationFailed(String),
}

impl CoreError {
    /// Human-readable description of the error (the key is shown in its
    /// debug form, `IdempotencyKey("...")`).
    pub fn message(&self) -> (r: String)
        ensures
            r@ == match self {
                CoreError::DuplicateKey(k) => "duplicate idempotency key: IdempotencyKey(\""@ + k.0@
                    + "\") (既に処理済み。二重書き込みを拒否)"@,
                CoreError::UpstreamCommitFailed(s) => "upstream commit failed: "@ + s@,
                CoreError::Validation(s) => "validation error: "@ + s@,
                CoreError::MultiRegionReplicationFailed(s) =>
                    "multi-region synchronous replication failed: "@ + s@,
            },
    {
        let mut r = String::new();
        match self {
            CoreError::DuplicateKey(k) => {
                push_str(&mut r, "duplicate idempotency key: IdempotencyKey(\"");
                push_str(&mut r, k.0.as_str());
                push_str(&mut r, "\") (既に処理済み。二重書き込みを拒否)");
            },
            CoreError::UpstreamCommitFailed(s) => {
                push_str(&mut r, "upstream commit failed: ");
                push_str(&mut r, s.as_str());
            },
            CoreError::Validation(s) => {
                push_str(&mut r, "validation error: ");
                push_str(&mut r, s.as_str());
            },
            CoreError::MultiRegionReplicationFailed(s) => {
                push_str(&mut r, "multi-region synchronous replication failed: ");
                push_str(&mut r, s.as_str());
            },
        }
        r
    }
}

/// Whether a path is under a mutating endpoint, which needs an
/// `Idempotency-Key` header.
pub open spec fn needs_idempotency_key(path: Seq<char>) -> bool {
    starts_with(path, "/api/v1/items"@) || starts_with(path, "/api/v1/transactions"@)
}

/// The idempotency check of a request from its path and whether it carries
/// an `Idempotency-Key` header: refused (400 with this message) when a
/// mutating endpoint is called without one.
pub fn check_idempotency(path: &str, has_key_header: bool) -> (r: Result<(), String>)
    ensures
        needs_idempotency_key(path@) && !has_key_header ==> (r matches Err(m) && m@
            == "Idempotency-Key header is required for mutating endpoints"@),
        !(needs_idempotency_key(path@) && !has_key_header) ==> r is Ok,
{
    let needs = str_starts_with(path, "/api/v1/items") || str_starts_with(path, "/api/v1/transactions");
    if needs && !has_key_header {
        let mut m = String::new();
        push_str(&mut m, "Idempotency-Key header is required for mutating endpoints");
        return Err(m);
    }
    Ok(())
}


/// What a write carries.
#[derive(Debug, Clone)]
pub enum MutationPayload {
    /// `{"item_id": .., "quantity": ..}`: items granted to the account.
    ItemGrant { item_id: String, quantity: u32 },
    /// `{"amount_cents": .., "currency": ..}`: a charge to the account.
    Charge { amount_cents: i64, currency: String },
}

/// One write that must not be lost (a charge, a granted item): the
/// idempotency key, the account, the aruaru-db table it goes to, what it
/// carries, and when it was requested (Unix milliseconds).
#[derive(Debug, Clone)]
pub struct MutationRequest {
    pub idempotency_key: IdempotencyKey,
    pub account_id: String,
    pub target: String,
    pub payload: MutationPayload,
    pub requested_at: i64,
}

/// Body of `POST /api/v1/items/grant`.
#[derive(Debug, Clone)]
pub struct GrantItemRequest {
    pub idempotency_key: String,
    pub account_id: String,
    pub item_id: String,
    pub quantity: u32,
}

/// Body of `POST /api/v1/transactions/charge`.
#[derive(Debug, Clone)]
pub struct ChargeRequest {
    pub idempotency_key: String,
    pub account_id: String,
    pub amount_cents: i64,
    pub currency: String,
}

/// The write of an item grant requested at `now_ms`: into `game_items`,
/// under the client's idempotency key.
pub fn grant_item_mutation(body: GrantItemRequest, now_ms: i64) -> (r: MutationRequest)
    ensures
        r.idempotency_key.0 == body.idempotency_key,
        r.account_id == body.account_id,
        r.target@ == "game_items"@,
        r.payload == (MutationPayload::ItemGrant { item_id: body.item_id, quantity: body.quantity }),
        r.requested_at == now_ms,
{
    let mut target = String::new();
    push_str(&mut target, "game_items");
    MutationRequest {
        idempotency_key: IdempotencyKey(body.idempotency_key),
        account_id: body.account_id,
        target,
        payload: MutationPayload::ItemGrant { item_id: body.item_id, quantity: body.quantity },
        requested_at: now_ms,
    }
}

/// The write of a charge requested at `now_ms`: into
/// `financial_transactions`, under the client's idempotency key.
pub fn charge_mutation(body: ChargeRequest, now_ms: i64) -> (r: MutationRequest)
    ensures
        r.idempotency_key.0 == body.idempotency_key,
        r.account_id == body.account_id,
        r.target@ == "financial_transactions"@,
        r.payload == (MutationPayload::Charge { amount_cents: body.amount_cents, currency: body.currency }),
        r.requested_at == now_ms,
{
    let mut target = String::new();
    push_str(&mut target, "financial_transactions");
    MutationRequest {
        idempotency_key: IdempotencyKey(body.idempotency_key),
        account_id: body.account_id,
        target,
        payload: MutationPayload::Charge { amount_cents: body.amount_cents, currency: body.currency },
        requested_at: now_ms,
    }
}

/// The receipt of a committed write, with aruaru-db's commit id for
/// audit, and when it was committed (Unix milliseconds).
#[derive(Debug, Clone)]
pub struct MutationReceipt {
    pub idempotency_key: IdempotencyKey,
    pub committed: bool,
    pub db_commit_id: Option<String>,
    pub committed_at: Option<i64>,
}

/// The value of a key of an aruaru-db table as of a commit, the value as
/// JSON text.
#[derive(Debug, Clone)]
pub struct DbStateAtCommitResponse {
    pub target: String,
    pub key: String,
    pub commit_id: String,
    pub value: String,
}


/// The answer to a write the ledger refused: 409 with the error's
/// description.
pub fn mutation_refused_reply(e: &CoreError) -> (r: (u16, String))
    ensures
        r.0 == 409,
        r.1@ == match e {
            CoreError::DuplicateKey(k) => "duplicate idempotency key: IdempotencyKey(\""@ + k.0@
                + "\") (既に処理済み。二重書き込みを拒否)"@,
            CoreError::UpstreamCommitFailed(s) => "upstream commit failed: "@ + s@,
            CoreError::Validation(s) => "validation error: "@ + s@,
            CoreError::MultiRegionReplicationFailed(s) => "multi-region synchronous replication failed: "@
                + s@,
        },
{
    (409, e.message())
}

} // verus!
