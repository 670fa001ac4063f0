//! Domain watchdog: periodic HTTPS self-checks of every served host, with
//! content checks, failure counting and automatic recovery decisions.
//!
//! The TLS connection, the certificate reissuance and the advisory
//! diagnosis are performed by the program around the library; the library
//! turns what they report into check outcomes, keeps the health table and
//! decides the next actions.

use vstd::prelude::*;
use crate::keyed::{Keyed, value_of};
use crate::text::{clone_strings, contains, from_utf8_lossy, push_str, str_contains, utf8_lossy};

verus! {

/// Largest number of body bytes kept for content checks.
pub const MAX_BODY_BYTES: usize = 262144;

/// Recent health of one host.
#[derive(Debug, Clone)]
pub struct HostHealth {
    pub consecutive_failures: u32,
    pub last_checked_unix: u64,
    pub last_ok: bool,
    pub last_detail: String,
    pub last_recovery_action: Option<String>,
    pub last_ai_diagnosis: Option<String>,
}

impl HostHealth {
    /// A field-by-field copy.
    pub fn duplicate(&self) -> (r: Self)
        ensures
            r == *self,
    {
        HostHealth {
            consecutive_failures: self.consecutive_failures,
            last_checked_unix: self.last_checked_unix,
            last_ok: self.last_ok,
            last_detail: self.last_detail.clone(),
            last_recovery_action: match &self.last_recovery_action {
                Some(a) => Some(a.clone()),
                None => None,
            },
            last_ai_diagnosis: match &self.last_ai_diagnosis {
                Some(d) => Some(d.clone()),
                None => None,
            },
        }
    }

    /// The health of a host never checked.
    pub fn initial() -> (r: Self)
        ensures
            r.consecutive_failures == 0,
            r.last_checked_unix == 0,
            !r.last_ok,
            r.last_detail@.len() == 0,
            r.last_recovery_action is None,
            r.last_ai_diagnosis is None,
    {
        HostHealth {
            consecutive_failures: 0,
            last_checked_unix: 0,
            last_ok: false,
            last_detail: String::new(),
            last_recovery_action: None,
            last_ai_diagnosis: None,
        }
    }
}

/// Result of one check of a host.
#[derive(Debug, Clone)]
pub struct CheckOutcome {
    pub ok: bool,
    pub detail: String,
    /// The TLS layer failed (no or broken certificate suspected), as
    /// opposed to a failure at the HTTP level.
    pub tls_broken: bool,
    /// Response body (at most `MAX_BODY_BYTES` bytes, decoded), empty when
    /// none was read.
    pub body: String,
}

/// Why a check did not get an HTTP response.
#[derive(Debug, Clone)]
pub enum CheckFailure {
    TcpConnect(String),
    TcpTimeout,
    InvalidServerName(String),
    TlsHandshake(String),
    TlsTimeout,
    HttpHandshake(String),
    HttpRequest(String),
    HttpTimeout,
}

/// The detail text and TLS flag of a failure.
pub open spec fn failure_detail(f: CheckFailure) -> (Seq<char>, bool) {
    match f {
        CheckFailure::TcpConnect(e) => ("tcp connect failed: "@ + e@, true),
        CheckFailure::TcpTimeout => ("tcp connect timed out"@, true),
        CheckFailure::InvalidServerName(e) => ("invalid SNI host name: "@ + e@, true),
        CheckFailure::TlsHandshake(e) => ("tls handshake failed: "@ + e@, true),
        CheckFailure::TlsTimeout => ("tls handshake timed out"@, true),
        CheckFailure::HttpHandshake(e) => ("http handshake failed: "@ + e@, false),
        CheckFailure::HttpRequest(e) => ("http request failed: "@ + e@, false),
        CheckFailure::HttpTimeout => ("http request timed out"@, false),
    }
}

/// The outcome of a check that failed before an HTTP response arrived:
/// failures up to and including the TLS handshake count as a broken TLS
/// setup.
pub fn failure_outcome(f: &CheckFailure) -> (r: CheckOutcome)
    ensures
        !r.ok,
        r.detail@ == failure_detail(*f).0,
        r.tls_broken == failure_detail(*f).1,
        r.body@.len() == 0,
{
    let mut d = String::new();
    let tls_broken = match f {
        CheckFailure::TcpConnect(e) => {
            push_str(&mut d, "tcp connect failed: ");
            push_str(&mut d, e.as_str());
            true
        },
        CheckFailure::TcpTimeout => {
            push_str(&mut d, "tcp connect timed out");
            true
        },
        CheckFailure::InvalidServerName(e) => {
            push_str(&mut d, "invalid SNI host name: ");
            push_str(&mut d, e.as_str());
            true
        },
        CheckFailure::TlsHandshake(e) => {
            push_str(&mut d, "tls handshake failed: ");
            push_str(&mut d, e.as_str());
            true
        },
        CheckFailure::TlsTimeout => {
            push_str(&mut d, "tls handshake timed out");
            true
        },
        CheckFailure::HttpHandshake(e) => {
            push_str(&mut d, "http handshake failed: ");
            push_str(&mut d, e.as_str());
            false
        },
        CheckFailure::HttpRequest(e) => {
            push_str(&mut d, "http request failed: ");
            push_str(&mut d, e.as_str());
            false
        },
        CheckFailure::HttpTimeout => {
            push_str(&mut d, "http request timed out");
            false
        },
    };
    CheckOutcome { ok: false, detail: d, tls_broken, body: String::new() }
}

/// Whether an HTTP status means the server is alive: anything but 5xx
/// (a 4xx only says the path is missing).
pub open spec fn status_alive(status: u16) -> bool {
    !(500 <= status <= 599)
}

/// The outcome of a check that got a response with `status`, described as
/// `status_text`, and `body` (or nothing when the body could not be read).
pub fn response_outcome(status: u16, status_text: &str, body: Option<&[u8]>) -> (r: CheckOutcome)
    ensures
        r.ok == status_alive(status),
        r.detail@ == "http status "@ + status_text@,
        !r.tls_broken,
        match body {
            Some(b) => r.body@ == utf8_lossy(
                if b@.len() > MAX_BODY_BYTES {
                    b@.subrange(0, MAX_BODY_BYTES as int)
                } else {
                    b@
                },
            ),
            None => r.body@.len() == 0,
        },
{
    let ok = !(500 <= status && status <= 599);
    let mut d = String::new();
    push_str(&mut d, "http status ");
    push_str(&mut d, status_text);
    let text = match body {
        Some(b) => {
            if b.len() > MAX_BODY_BYTES {
                let (head, _) = b.split_at(MAX_BODY_BYTES);
                from_utf8_lossy(head)
            } else {
                from_utf8_lossy(b)
            }
        },
        None => String::new(),
    };
    CheckOutcome { ok, detail: d, tls_broken: false, body: text }
}

/// The expected texts that `body` lacks, in order.
pub open spec fn missing_texts(body: Seq<char>, expected: Seq<Seq<char>>) -> Seq<Seq<char>>
    decreases expected.len(),
{
    if expected.len() == 0 {
        Seq::empty()
    } else {
        let rest = missing_texts(body, expected.drop_last());
        if contains(body, expected.last()) {
            rest
        } else {
            rest.push(expected.last())
        }
    }
}

/// Texts joined with `, `.
pub open spec fn join_comma(parts: Seq<Seq<char>>) -> Seq<char>
    decreases parts.len(),
{
    if parts.len() == 0 {
        Seq::empty()
    } else if parts.len() == 1 {
        parts[0]
    } else {
        join_comma(parts.drop_last()) + ", "@ + parts.last()
    }
}

/// The outcome after the content check: a successful check whose body
/// lacks some expected text becomes a failure naming the missing texts
/// (the TLS flag is kept: missing content is not a certificate problem).
pub open spec fn content_checked(
    ok: bool,
    detail: Seq<char>,
    body: Seq<char>,
    expected: Seq<Seq<char>>,
) -> (bool, Seq<char>) {
    let missing = missing_texts(body, expected);
    if ok && expected.len() > 0 && missing.len() > 0 {
        (false, "content check failed: missing expected text(s): "@ + join_comma(missing))
    } else {
        (ok, detail)
    }
}

/// Applies the content check to an outcome.
pub fn apply_content_check(outcome: CheckOutcome, expected: &[String]) -> (r: CheckOutcome)
    ensures
        ({
            let c = content_checked(
                outcome.ok,
                outcome.detail@,
                outcome.body@,
                expected@.map_values(|s: String| s@),
            );
            r.ok == c.0 && r.detail@ == c.1
        }),
        r.tls_broken == outcome.tls_broken,
        r.body == outcome.body,
{
    let ghost ev = expected@.map_values(|s: String| s@);
    if !outcome.ok || expected.len() == 0 {
        return outcome;
    }
    let mut missing_text = String::new();
    let mut n_missing: usize = 0;
    let mut i: usize = 0;
    while i < expected.len()
        invariant
            i <= expected@.len(),
            ev == expected@.map_values(|s: String| s@),
            n_missing == missing_texts(outcome.body@, ev.take(i as int)).len(),
            n_missing <= i,
            missing_text@ == join_comma(missing_texts(outcome.body@, ev.take(i as int))),
        decreases expected.len() - i,
    {
        proof {
            assert(ev.take(i + 1).drop_last() =~= ev.take(i as int));
            assert(ev.take(i + 1).last() == expected@[i as int]@);
        }
        if !str_contains(outcome.body.as_str(), expected[i].as_str()) {
            if n_missing > 0 {
                push_str(&mut missing_text, ", ");
            }
            push_str(&mut missing_text, expected[i].as_str());
            proof {
                let m = missing_texts(outcome.body@, ev.take(i as int));
                let m2 = m.push(expected@[i as int]@);
                assert(m2.drop_last() =~= m);
                if m.len() == 0 {
                    assert(join_comma(m) == Seq::<char>::empty());
                    assert(missing_text@ =~= join_comma(m2));
                }
            }
            n_missing = n_missing + 1;
        }
        i += 1;
    }
    assert(ev.take(i as int) =~= ev);
    if n_missing == 0 {
        return outcome;
    }
    let mut detail = String::new();
    push_str(&mut detail, "content check failed: missing expected text(s): ");
    push_str(&mut detail, missing_text.as_str());
    CheckOutcome { ok: false, detail, tls_broken: outcome.tls_broken, body: outcome.body }
}

/// What the watchdog does after a failed check.
#[derive(Debug, Clone, Copy, PartialEq, Eq, Structural)]
pub struct RecoveryPlan {
    /// Ask the advisor for a diagnosis.
    pub diagnose: bool,
    /// Reissue the host's certificate.
    pub reissue: bool,
}

/// The actions after a check: none while the check passes or fewer than
/// `threshold` checks failed in a row; else a diagnosis when an advisor is
/// configured, and a certificate reissuance when TLS was broken and a
/// reissuer is configured.
pub fn plan_recovery(
    ok: bool,
    consecutive_failures: u32,
    threshold: u32,
    tls_broken: bool,
    has_advisor: bool,
    has_reissuer: bool,
) -> (r: RecoveryPlan)
    ensures
        ok || consecutive_failures < threshold ==> r == (RecoveryPlan {
            diagnose: false,
            reissue: false,
        }),
        !ok && consecutive_failures >= threshold ==> r == (RecoveryPlan {
            diagnose: has_advisor,
            reissue: tls_broken && has_reissuer,
        }),
{
    if ok || consecutive_failures < threshold {
        return RecoveryPlan { diagnose: false, reissue: false };
    }
    RecoveryPlan { diagnose: has_advisor, reissue: tls_broken && has_reissuer }
}

/// The recovery action recorded after a reissuance attempt.
pub fn reissue_action_text(result: &Result<(), String>) -> (r: String)
    ensures
        r@ == match result {
            Ok(()) => "tls_reissued"@,
            Err(e) => "tls_reissue_failed: "@ + e@,
        },
{
    let mut r = String::new();
    match result {
        Ok(()) => push_str(&mut r, "tls_reissued"),
        Err(e) => {
            push_str(&mut r, "tls_reissue_failed: ");
            push_str(&mut r, e.as_str());
        },
    }
    r
}

/// Health of every checked host and the texts each host's page must hold.
pub struct WatchdogState {
    hosts: Keyed<HostHealth>,
    expectations: Keyed<Vec<String>>,
}

/// Model of the watchdog state.
pub struct WatchdogView {
    pub hosts: Seq<(Seq<char>, HostHealth)>,
    pub expectations: Seq<(Seq<char>, Vec<String>)>,
}

impl View for WatchdogState {
    type V = WatchdogView;

    closed spec fn view(&self) -> WatchdogView {
        WatchdogView { hosts: self.hosts@, expectations: self.expectations@ }
    }
}

/// The health after recording `outcome` at `now` over `h`.
pub open spec fn recorded(h: HostHealth, ok: bool, detail: String, now: u64) -> HostHealth {
    if ok {
        HostHealth {
            consecutive_failures: 0,
            last_checked_unix: now,
            last_ok: true,
            last_detail: detail,
            last_recovery_action: None,
            last_ai_diagnosis: None,
        }
    } else {
        HostHealth {
            consecutive_failures: if h.consecutive_failures == u32::MAX {
                u32::MAX
            } else {
                (h.consecutive_failures + 1) as u32
            },
            last_checked_unix: now,
            last_ok: false,
            last_detail: detail,
            ..h
        }
    }
}

/// The texts a host's page must hold, as the expectations table has them.
pub open spec fn expected_of(expectations: Seq<(Seq<char>, Vec<String>)>, host: Seq<char>) -> Seq<Seq<char>> {
    match value_of(expectations, host) {
        Some(v) => v@.map_values(|s: String| s@),
        None => Seq::empty(),
    }
}

/// The recovery plan after a check (see `plan_recovery`).
pub open spec fn plan_for(
    ok: bool,
    consecutive_failures: u32,
    threshold: u32,
    tls_broken: bool,
    has_advisor: bool,
    has_reissuer: bool,
) -> RecoveryPlan {
    if ok || consecutive_failures < threshold {
        RecoveryPlan { diagnose: false, reissue: false }
    } else {
        RecoveryPlan { diagnose: has_advisor, reissue: tls_broken && has_reissuer }
    }
}

/// The health of a host never checked.
pub open spec fn initial_health(h: HostHealth) -> bool {
    &&& h.consecutive_failures == 0
    &&& h.last_checked_unix == 0
    &&& !h.last_ok
    &&& h.last_detail@.len() == 0
    &&& h.last_recovery_action is None
    &&& h.last_ai_diagnosis is None
}

impl WatchdogState {
    /// Whether the state is consistent.
    pub closed spec fn wf(&self) -> bool {
        self.hosts.wf() && self.expectations.wf()
    }

    /// An empty state.
    pub fn new() -> (r: Self)
        ensures
            r.wf(),
            r@.hosts.len() == 0,
            r@.expectations.len() == 0,
    {
        WatchdogState { hosts: Keyed::new(), expectations: Keyed::new() }
    }

    /// `(host, health)` at position `i` of the listing.
    pub fn health_at(&self, i: usize) -> (r: (&String, &HostHealth))
        requires
            i < self@.hosts.len(),
        ensures
            r.0@ == self@.hosts[i as int].0,
            *r.1 == self@.hosts[i as int].1,
    {
        self.hosts.entry(i)
    }

    /// Number of hosts with a recorded health.
    pub fn host_count(&self) -> (n: usize)
        ensures
            n == self@.hosts.len(),
    {
        self.hosts.len()
    }

    /// The health of `host`.
    pub fn health(&self, host: &str) -> (r: Option<&HostHealth>)
        requires
            self.wf(),
        ensures
            match r {
                Some(h) => value_of(self@.hosts, host@) == Some(*h),
                None => value_of(self@.hosts, host@) is None,
            },
    {
        self.hosts.get(host)
    }

    /// Sets the texts `host`'s page must hold; an empty list turns the
    /// content check off.
    pub fn set_expectations(&mut self, host: &str, expected: Vec<String>)
        requires
            old(self).wf(),
        ensures
            final(self).wf(),
            expected@.len() == 0 ==> value_of(final(self)@.expectations, host@) is None,
            expected@.len() > 0 ==> value_of(final(self)@.expectations, host@) == Some(expected),
            forall|h: Seq<char>|
                h != host@ ==> value_of(final(self)@.expectations, h) == value_of(
                    old(self)@.expectations,
                    h,
                ),
            final(self)@.hosts == old(self)@.hosts,
    {
        if expected.len() == 0 {
            let _ = self.expectations.remove(host);
        } else {
            self.expectations.insert(host.to_owned(), expected);
        }
    }

    /// The texts `host`'s page must hold (none when unset).
    pub fn expectations_for(&self, host: &str) -> (r: Vec<String>)
        requires
            self.wf(),
        ensures
            match value_of(self@.expectations, host@) {
                Some(v) => r@.map_values(|s: String| s@) == v@.map_values(|s: String| s@),
                None => r@.len() == 0,
            },
    {
        match self.expectations.get(host) {
            Some(v) => {
                let mut r: Vec<String> = Vec::new();
                let mut i: usize = 0;
                while i < v.len()
                    invariant
                        i <= v@.len(),
                        r@.map_values(|s: String| s@) == v@.map_values(|s: String| s@).take(i as int),
                    decreases v.len() - i,
                {
                    let ghost before = r@;
                    r.push(v[i].clone());
                    assert(r@ =~= before.push(v@[i as int]));
                    assert(r@.map_values(|s: String| s@) =~= before.map_values(|s: String| s@).push(
                        v@[i as int]@,
                    ));
                    assert(r@.map_values(|s: String| s@) =~= v@.map_values(|s: String| s@).take(i + 1));
                    i += 1;
                }
                assert(v@.map_values(|s: String| s@).take(i as int) =~= v@.map_values(|s: String| s@));
                r
            },
            None => Vec::new(),
        }
    }

    /// Number of consecutive failures of `host` (0 when never checked).
    pub fn failures_for(&self, host: &str) -> (n: u32)
        requires
            self.wf(),
        ensures
            n == match value_of(self@.hosts, host@) {
                Some(h) => h.consecutive_failures,
                None => 0,
            },
    {
        match self.hosts.get(host) {
            Some(h) => h.consecutive_failures,
            None => 0,
        }
    }

    /// Records a check of `host` made at `now`: a success resets the
    /// failure count and clears the recovery notes; a failure adds one to
    /// the count.
    pub fn record(&mut self, host: &str, outcome: &CheckOutcome, now: u64)
        requires
            old(self).wf(),
        ensures
            final(self).wf(),
            exists|before: HostHealth|
                (match value_of(old(self)@.hosts, host@) {
                    Some(h) => before == h,
                    None => initial_health(before),
                }) && value_of(final(self)@.hosts, host@) == Some(
                    #[trigger] recorded(before, outcome.ok, outcome.detail, now),
                ),
            forall|h: Seq<char>|
                h != host@ ==> value_of(final(self)@.hosts, h) == value_of(old(self)@.hosts, h),
            final(self)@.expectations == old(self)@.expectations,
    {
        let prev = match self.hosts.remove(host) {
            Some(h) => h,
            None => HostHealth::initial(),
        };
        let ghost before = prev;
        let updated = if outcome.ok {
            HostHealth {
                consecutive_failures: 0,
                last_checked_unix: now,
                last_ok: true,
                last_detail: outcome.detail.clone(),
                last_recovery_action: None,
                last_ai_diagnosis: None,
            }
        } else {
            HostHealth {
                consecutive_failures: prev.consecutive_failures.saturating_add(1),
                last_checked_unix: now,
                last_ok: false,
                last_detail: outcome.detail.clone(),
                last_recovery_action: prev.last_recovery_action,
                last_ai_diagnosis: prev.last_ai_diagnosis,
            }
        };
        assert(updated == recorded(before, outcome.ok, outcome.detail, now));
        self.hosts.insert(host.to_owned(), updated);
    }

    /// One check of `host` as the watchdog loop takes it: the content check
    /// against the host's expected texts, the record at `now`, and the
    /// recovery plan for the host's failure count. Returns the checked
    /// outcome (whose detail the advisor is shown) and the plan.
    pub fn observe(
        &mut self,
        host: &str,
        outcome: CheckOutcome,
        now: u64,
        threshold: u32,
        has_advisor: bool,
        has_reissuer: bool,
    ) -> (r: (CheckOutcome, RecoveryPlan))
        requires
            old(self).wf(),
        ensures
            final(self).wf(),
            ({
                let c = content_checked(
                    outcome.ok,
                    outcome.detail@,
                    outcome.body@,
                    expected_of(old(self)@.expectations, host@),
                );
                &&& r.0.ok == c.0
                &&& r.0.detail@ == c.1
                &&& r.0.tls_broken == outcome.tls_broken
                &&& r.0.body == outcome.body
            }),
            exists|before: HostHealth|
                (match value_of(old(self)@.hosts, host@) {
                    Some(h) => before == h,
                    None => initial_health(before),
                }) && value_of(final(self)@.hosts, host@) == Some(
                    #[trigger] recorded(before, r.0.ok, r.0.detail, now),
                ),
            value_of(final(self)@.hosts, host@) matches Some(h) && r.1 == plan_for(
                r.0.ok,
                h.consecutive_failures,
                threshold,
                r.0.tls_broken,
                has_advisor,
                has_reissuer,
            ),
            forall|h: Seq<char>|
                h != host@ ==> value_of(final(self)@.hosts, h) == value_of(old(self)@.hosts, h),
            final(self)@.expectations == old(self)@.expectations,
    {
        let expected = self.expectations_for(host);
        let checked = apply_content_check(outcome, expected.as_slice());
        self.record(host, &checked, now);
        let failures = self.failures_for(host);
        let plan = plan_recovery(
            checked.ok,
            failures,
            threshold,
            checked.tls_broken,
            has_advisor,
            has_reissuer,
        );
        (checked, plan)
    }

    /// Every host with expected texts, with those texts.
    pub fn all_expectations(&self) -> (r: Vec<(String, Vec<String>)>)
        ensures
            r@.len() == self@.expectations.len(),
            forall|i: int|
                0 <= i < r@.len() ==> (#[trigger] r@[i]).0@ == self@.expectations[i].0 && r@[i].1@
                    == self@.expectations[i].1@,
    {
        let mut r: Vec<(String, Vec<String>)> = Vec::new();
        let mut i: usize = 0;
        while i < self.expectations.len()
            invariant
                i <= self@.expectations.len(),
                r@.len() == i,
                forall|k: int|
                    0 <= k < i ==> (#[trigger] r@[k]).0@ == self@.expectations[k].0 && r@[k].1@
                        == self@.expectations[k].1@,
            decreases self@.expectations.len() - i,
        {
            let (h, texts) = self.expectations.entry(i);
            r.push((h.clone(), clone_strings(texts)));
            i += 1;
        }
        r
    }

    /// Every checked host with its health, in the order first recorded.
    pub fn snapshot(&self) -> (r: Vec<(String, HostHealth)>)
        ensures
            r@.len() == self@.hosts.len(),
            forall|i: int|
                0 <= i < r@.len() ==> (#[trigger] r@[i]).0@ == self@.hosts[i].0 && r@[i].1
                    == self@.hosts[i].1,
    {
        let mut r: Vec<(String, HostHealth)> = Vec::new();
        let mut i: usize = 0;
        while i < self.hosts.len()
            invariant
                i <= self@.hosts.len(),
                r@.len() == i,
                forall|k: int|
                    0 <= k < i ==> (#[trigger] r@[k]).0@ == self@.hosts[k].0 && r@[k].1
                        == self@.hosts[k].1,
            decreases self@.hosts.len() - i,
        {
            let (h, health) = self.hosts.entry(i);
            r.push((h.clone(), health.duplicate()));
            i += 1;
        }
        r
    }

    /// Notes the recovery action taken for a checked host.
    pub fn set_recovery_action(&mut self, host: &str, action: String)
        requires
            old(self).wf(),
        ensures
            final(self).wf(),
            match value_of(old(self)@.hosts, host@) {
                Some(h) => value_of(final(self)@.hosts, host@) == Some(
                    HostHealth { last_recovery_action: Some(action), ..h },
                ),
                None => value_of(final(self)@.hosts, host@) is None,
            },
            forall|h: Seq<char>|
                h != host@ ==> value_of(final(self)@.hosts, h) == value_of(old(self)@.hosts, h),
            final(self)@.expectations == old(self)@.expectations,
    {
        match self.hosts.remove(host) {
            Some(h) => {
                let updated = HostHealth { last_recovery_action: Some(action), ..h };
                self.hosts.insert(host.to_owned(), updated);
            },
            None => {},
        }
    }

    /// Notes the advisor's diagnosis for a checked host.
    pub fn set_ai_diagnosis(&mut self, host: &str, diagnosis: String)
        requires
            old(self).wf(),
        ensures
            final(self).wf(),
            match value_of(old(self)@.hosts, host@) {
                Some(h) => value_of(final(self)@.hosts, host@) == Some(
                    HostHealth { last_ai_diagnosis: Some(diagnosis), ..h },
                ),
                None => value_of(final(self)@.hosts, host@) is None,
            },
            forall|h: Seq<char>|
                h != host@ ==> value_of(final(self)@.hosts, h) == value_of(old(self)@.hosts, h),
            final(self)@.expectations == old(self)@.expectations,
    {
        match self.hosts.remove(host) {
            Some(h) => {
                let updated = HostHealth { last_ai_diagnosis: Some(diagnosis), ..h };
                self.hosts.insert(host.to_owned(), updated);
            },
            None => {},
        }
    }
}

/// A success after any run of failures resets the count and clears the
/// recovery notes; each failure adds one to the count.
pub proof fn law_success_resets_failures(h: HostHealth, detail: String, now: u64)
    ensures
        recorded(h, true, detail, now).consecutive_failures == 0,
        recorded(h, true, detail, now).last_recovery_action is None,
        recorded(h, true, detail, now).last_ai_diagnosis is None,
        h.consecutive_failures < u32::MAX ==> recorded(h, false, detail, now).consecutive_failures
            == h.consecutive_failures + 1,
{
}

} // verus!
