//! Writing a subdomain record to PostgreSQL and, as a secondary history,
//! to aruaru-db.
//!
//! PostgreSQL is authoritative: when it fails the write fails; when only
//! aruaru-db fails, the write stands and the failure is reported. The two
//! stores are reached by the program around the library.

use vstd::prelude::*;
use crate::text::push_str;

verus! {

/// One registered subdomain, as stored.
#[derive(Debug, Clone, PartialEq, Eq)]
pub struct SubdomainRecord {
    pub owner_account_id: String,
    pub subdomain_name: String,
    pub base_domain: String,
    pub current_ip: String,
    /// RFC 3339 time of creation.
    pub created_at: String,
}

/// Errors of the two stores.
#[derive(Debug, Clone)]
pub enum DualWriteError {
    PostgresFailed(String),
    AruaruDbFailed(String),
}

impl DualWriteError {
    /// Human-readable description of the error.
    pub fn message(&self) -> (r: String)
        ensures
            r@ == match self {
                DualWriteError::PostgresFailed(s) => "PostgreSQL write failed: "@ + s@,
                DualWriteError::AruaruDbFailed(s) => "aruaru-db write failed: "@ + s@,
            },
    {
        let mut r = String::new();
        match self {
            DualWriteError::PostgresFailed(s) => {
                push_str(&mut r, "PostgreSQL write failed: ");
                push_str(&mut r, s.as_str());
            },
            DualWriteError::AruaruDbFailed(s) => {
                push_str(&mut r, "aruaru-db write failed: ");
                push_str(&mut r, s.as_str());
            },
        }
        r
    }
}

/// What a dual write achieved.
#[derive(Debug, Clone)]
pub struct DualWriteOutcome {
    pub postgres_committed: bool,
    pub aruaru_db_commit_id: Option<String>,
    pub aruaru_db_error: Option<String>,
}

/// The two stores a record is written to.
pub struct DualWriteCoordinator<P, A> {
    pub postgres: P,
    pub aruaru_db: A,
}

impl<P, A> DualWriteCoordinator<P, A> {
    /// A coordinator over the two stores.
    pub fn new(postgres: P, aruaru_db: A) -> (r: Self)
        ensures
            r.postgres == postgres,
            r.aruaru_db == aruaru_db,
    {
        DualWriteCoordinator { postgres, aruaru_db }
    }
}

/// The result of a dual write from what each store answered: the
/// PostgreSQL failure when it failed (aruaru-db is then not written,
/// `history` is `None`); else success, with aruaru-db's commit id or the
/// text of its failure.
pub fn dual_write_result(
    primary: Result<(), DualWriteError>,
    history: Option<Result<String, DualWriteError>>,
) -> (r: Result<DualWriteOutcome, DualWriteError>)
    requires
        primary is Ok ==> history is Some,
    ensures
        match primary {
            Err(e) => r matches Err(f) && f == e,
            Ok(()) => match history {
                Some(Ok(id)) => r matches Ok(o) && o.postgres_committed && o.aruaru_db_commit_id
                    == Some(id) && o.aruaru_db_error is None,
                Some(Err(e)) => r matches Ok(o) && o.postgres_committed && o.aruaru_db_commit_id is None
                    && (o.aruaru_db_error matches Some(m) && m@ == match e {
                    DualWriteError::PostgresFailed(s) => "PostgreSQL write failed: "@ + s@,
                    DualWriteError::AruaruDbFailed(s) => "aruaru-db write failed: "@ + s@,
                }),
                None => false,
            },
        },
{
    match primary {
        Err(e) => Err(e),
        Ok(()) => match history {
            Some(Ok(id)) => Ok(
                DualWriteOutcome {
                    postgres_committed: true,
                    aruaru_db_commit_id: Some(id),
                    aruaru_db_error: None,
                },
            ),
            Some(Err(e)) => Ok(
                DualWriteOutcome {
                    postgres_committed: true,
                    aruaru_db_commit_id: None,
                    aruaru_db_error: Some(e.message()),
                },
            ),
            None => Err(DualWriteError::AruaruDbFailed(String::new())),
        },
    }
}


/// What the last store asked answered (or that a write is starting).
#[derive(Debug)]
pub enum DualWriteEvent {
    /// A record is to be written.
    Start,
    /// PostgreSQL answered the insert.
    PostgresAnswered(Result<(), DualWriteError>),
    /// aruaru-db answered the change record.
    AruaruDbAnswered(Result<String, DualWriteError>),
}

/// What the writer does next.
#[derive(Debug)]
pub enum DualWriteAction {
    /// Insert the record into PostgreSQL.
    WritePostgres,
    /// Record the change in aruaru-db.
    WriteAruaruDb,
    /// The write is over, with this result.
    Done(Result<DualWriteOutcome, DualWriteError>),
}

/// One step of a dual write: PostgreSQL is written first; its failure ends
/// the write with that failure and aruaru-db is never asked; after it
/// committed, aruaru-db is asked, and its answer, success or failure,
/// ends the write as [`dual_write_result`] says.
pub fn dual_write_next(event: DualWriteEvent) -> (r: DualWriteAction)
    ensures
        match event {
            DualWriteEvent::Start => r is WritePostgres,
            DualWriteEvent::PostgresAnswered(Err(e)) => r matches DualWriteAction::Done(Err(f)) && f == e,
            DualWriteEvent::PostgresAnswered(Ok(())) => r is WriteAruaruDb,
            DualWriteEvent::AruaruDbAnswered(h) => r matches DualWriteAction::Done(res) && match h {
                Ok(id) => res matches Ok(o) && o.postgres_committed && o.aruaru_db_commit_id == Some(id)
                    && o.aruaru_db_error is None,
                Err(e) => res matches Ok(o) && o.postgres_committed && o.aruaru_db_commit_id is None
                    && (o.aruaru_db_error matches Some(m) && m@ == match e {
                    DualWriteError::PostgresFailed(s) => "PostgreSQL write failed: "@ + s@,
                    DualWriteError::AruaruDbFailed(s) => "aruaru-db write failed: "@ + s@,
                }),
            },
        },
{
    match event {
        DualWriteEvent::Start => DualWriteAction::WritePostgres,
        DualWriteEvent::PostgresAnswered(Err(e)) => DualWriteAction::Done(Err(e)),
        DualWriteEvent::PostgresAnswered(Ok(())) => DualWriteAction::WriteAruaruDb,
        DualWriteEvent::AruaruDbAnswered(h) => DualWriteAction::Done(dual_write_result(Ok(()), Some(h))),
    }
}

} // verus!
