use open_web_server::dual_write::{
    dual_write_next, dual_write_result, DualWriteAction, DualWriteCoordinator, DualWriteError, DualWriteEvent,
    SubdomainRecord,
};

fn sample_record() -> SubdomainRecord {
    SubdomainRecord {
        owner_account_id: "github:42".to_string(),
        subdomain_name: "myapp".to_string(),
        base_domain: "aon.co.jp".to_string(),
        current_ip: "203.0.113.5".to_string(),
        created_at: "2026-07-24T00:00:00Z".to_string(),
    }
}

#[test]
fn dual_write_succeeds_on_both_backends() {
    let outcome = dual_write_result(Ok(()), Some(Ok("commit-abc123".to_string()))).unwrap();
    assert!(outcome.postgres_committed);
    assert_eq!(outcome.aruaru_db_commit_id.as_deref(), Some("commit-abc123"));
    assert!(outcome.aruaru_db_error.is_none());
}

#[test]
fn postgres_failure_aborts_the_whole_write() {
    let err = dual_write_result(Err(DualWriteError::PostgresFailed("simulated failure".to_string())), None)
        .expect_err("postgres failure must propagate");
    assert!(matches!(err, DualWriteError::PostgresFailed(_)));
}

#[test]
fn aruaru_db_failure_is_reported_honestly_without_hiding_the_committed_postgres_write() {
    let outcome =
        dual_write_result(Ok(()), Some(Err(DualWriteError::AruaruDbFailed("simulated failure".to_string())))).unwrap();
    assert!(outcome.postgres_committed, "postgres write must still be reported as committed");
    assert!(outcome.aruaru_db_commit_id.is_none());
    assert_eq!(outcome.aruaru_db_error.as_deref(), Some("aruaru-db write failed: simulated failure"));
}

#[test]
fn coordinator_holds_both_stores() {
    let coordinator = DualWriteCoordinator::new(vec![sample_record()], "history");
    assert_eq!(coordinator.postgres.len(), 1);
    assert_eq!(coordinator.aruaru_db, "history");
    assert_eq!(
        DualWriteError::PostgresFailed("down".to_string()).message(),
        "PostgreSQL write failed: down"
    );
}

/// Drives the step function with the answers the two stores give and
/// records which stores were asked, in order.
fn run_dual_write(
    postgres: Result<(), DualWriteError>,
    aruaru: Result<String, DualWriteError>,
) -> (Vec<&'static str>, Result<open_web_server::dual_write::DualWriteOutcome, DualWriteError>) {
    let mut asked = Vec::new();
    let mut postgres = Some(postgres);
    let mut aruaru = Some(aruaru);
    let mut event = DualWriteEvent::Start;
    loop {
        match dual_write_next(event) {
            DualWriteAction::WritePostgres => {
                asked.push("postgres");
                event = DualWriteEvent::PostgresAnswered(postgres.take().unwrap());
            }
            DualWriteAction::WriteAruaruDb => {
                asked.push("aruaru-db");
                event = DualWriteEvent::AruaruDbAnswered(aruaru.take().unwrap());
            }
            DualWriteAction::Done(r) => return (asked, r),
        }
    }
}

#[test]
fn dual_write_steps_write_postgres_first_and_skip_aruaru_db_after_its_failure() {
    let (asked, r) = run_dual_write(Ok(()), Ok("c1".to_string()));
    assert_eq!(asked, vec!["postgres", "aruaru-db"]);
    let o = r.unwrap();
    assert!(o.postgres_committed);
    assert_eq!(o.aruaru_db_commit_id, Some("c1".to_string()));

    let (asked, r) = run_dual_write(Ok(()), Err(DualWriteError::AruaruDbFailed("down".to_string())));
    assert_eq!(asked, vec!["postgres", "aruaru-db"]);
    let o = r.unwrap();
    assert!(o.postgres_committed);
    assert_eq!(o.aruaru_db_error, Some("aruaru-db write failed: down".to_string()));

    let (asked, r) = run_dual_write(
        Err(DualWriteError::PostgresFailed("locked".to_string())),
        Ok("unused".to_string()),
    );
    assert_eq!(asked, vec!["postgres"]);
    assert!(r.is_err());
}
