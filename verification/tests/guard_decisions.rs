use diesel::result::{DatabaseErrorKind, Error};
use socialverse::error::{DatabaseFault, DriverError, QueryErrorKind};
use socialverse::guard::{Guard, Outcome, OwnedConnection};
use socialverse::pool::{Acquire, Pool, Release};

fn discarded(done: Release) -> Option<u64> {
    match done {
        Release::Discard(id) => Some(id),
        _ => None,
    }
}

fn checked_out(pool: &mut Pool) -> Guard {
    match pool.acquire(0) {
        Acquire::Ready(conn) | Acquire::Create(conn) => Guard::new(conn),
        other => panic!("no connection granted: {:?}", other),
    }
}

#[test]
fn value_is_passed_on() {
    let mut pool = Pool::new(1, 0);
    let mut guard = checked_out(&mut pool);
    assert_eq!(guard.settle(Outcome::Done(41u32)).unwrap(), 41);
    assert!(!guard.connection().is_poisoned());
    assert!(matches!(pool.release(guard.finish()), Release::Idle(_)));
}

#[test]
fn query_error_leaves_the_connection_usable() {
    let mut pool = Pool::new(1, 0);
    let mut guard = checked_out(&mut pool);
    let told: Result<u32, _> = guard.settle(Outcome::Failed(DriverError::NotFound));
    let e = told.unwrap_err();
    assert_eq!(e.kind(), QueryErrorKind::NotFound);
    assert_eq!(e.cause(), Some(DriverError::NotFound));
    assert!(!guard.connection().is_poisoned());
    let told: Result<u32, _> =
        guard.settle(Outcome::Failed(DriverError::Database(DatabaseFault::UniqueViolation)));
    assert_eq!(told.unwrap_err().kind(), QueryErrorKind::Conflict);
    assert!(!guard.connection().is_poisoned());
    assert_eq!(guard.settle(Outcome::Done(7u32)).unwrap(), 7);
    assert!(matches!(pool.release(guard.finish()), Release::Idle(_)));
}

#[test]
fn broken_session_poisons_the_connection() {
    let mut pool = Pool::new(1, 0);
    let mut guard = checked_out(&mut pool);
    let id = guard.connection().id();
    let told: Result<u32, _> =
        guard.settle(Outcome::Failed(DriverError::Database(DatabaseFault::ClosedConnection)));
    assert_eq!(told.unwrap_err().kind(), QueryErrorKind::ConnectionFailed);
    assert!(guard.connection().is_poisoned());
    assert_eq!(guard.connection().id(), id);
    assert_eq!(guard.settle(Outcome::Done(7u32)).unwrap(), 7);
    assert!(guard.connection().is_poisoned());
    assert_eq!(discarded(pool.release(guard.finish())), Some(id));
    assert_eq!(pool.live_count(), 0);
}

#[test]
fn outcome_of_a_returned_value() {
    let outcome = Outcome::returned(Ok::<u32, Error>(5));
    assert!(matches!(outcome, Outcome::Done(5)));
}

#[test]
fn outcome_of_a_returned_driver_error() {
    let outcome = Outcome::<u32>::returned(Err(Error::NotFound));
    assert!(matches!(outcome, Outcome::Failed(DriverError::NotFound)));
    let outcome = Outcome::<u32>::returned(Err(Error::DatabaseError(
        DatabaseErrorKind::ForeignKeyViolation,
        Box::new(String::from("still referenced")),
    )));
    assert!(matches!(
        outcome,
        Outcome::Failed(DriverError::Database(DatabaseFault::ForeignKeyViolation))
    ));
}

#[test]
fn driver_error_through_the_guard() {
    let mut pool = Pool::new(1, 0);
    let mut guard = checked_out(&mut pool);
    let outcome = Outcome::<u32>::returned(Err(Error::DatabaseError(
        DatabaseErrorKind::ClosedConnection,
        Box::new(String::from("server closed the connection")),
    )));
    let e = guard.settle(outcome).unwrap_err();
    assert_eq!(e.kind(), QueryErrorKind::ConnectionFailed);
    assert_eq!(e.kind().http_status(), 500);
    assert!(guard.connection().is_poisoned());
}

#[test]
fn failed_open_is_connection_failed_and_frees_the_slot() {
    let mut pool = Pool::new(1, 0);
    let conn = match pool.acquire(0) {
        Acquire::Create(conn) => conn,
        other => panic!("expected a new connection, got {:?}", other),
    };
    let id = conn.id();
    assert_eq!(pool.live_count(), 1);
    let (conn, e) = Guard::establish(conn, false).unwrap_err();
    assert_eq!(e.kind(), QueryErrorKind::ConnectionFailed);
    assert_eq!(e.cause(), None);
    assert!(conn.is_poisoned());
    assert_eq!(conn.id(), id);
    assert_eq!(discarded(pool.release(conn)), Some(id));
    assert_eq!(pool.live_count(), 0);
    assert!(matches!(pool.acquire(0), Acquire::Create(_)));
}

#[test]
fn successful_open_gives_a_guard() {
    let mut pool = Pool::new(1, 0);
    let conn = match pool.acquire(0) {
        Acquire::Create(conn) => conn,
        other => panic!("expected a new connection, got {:?}", other),
    };
    let id = conn.id();
    let guard = Guard::establish(conn, true).unwrap();
    assert_eq!(guard.connection().id(), id);
    assert!(!guard.connection().is_poisoned());
}

#[test]
fn all_statements_succeed() {
    let mut pool = Pool::new(1, 0);
    let mut guard = checked_out(&mut pool);
    let told = guard.settle_all(vec![Outcome::Done(1u32), Outcome::Done(2), Outcome::Done(3)]);
    assert_eq!(told.unwrap(), vec![1, 2, 3]);
    assert!(!guard.connection().is_poisoned());
    let none: Vec<Outcome<u32>> = Vec::new();
    assert_eq!(guard.settle_all(none).unwrap(), Vec::<u32>::new());
}

#[test]
fn first_failed_statement_decides() {
    let mut pool = Pool::new(1, 0);
    let mut guard = checked_out(&mut pool);
    let told = guard.settle_all(vec![
        Outcome::Done(1u32),
        Outcome::Failed(DriverError::NotFound),
        Outcome::Panicked,
        Outcome::Done(4),
    ]);
    assert_eq!(told.unwrap_err().kind(), QueryErrorKind::NotFound);
    assert!(!guard.connection().is_poisoned());
    let told = guard.settle_all(vec![
        Outcome::Done(1u32),
        Outcome::Panicked,
        Outcome::Failed(DriverError::NotFound),
    ]);
    assert_eq!(told.unwrap_err().kind(), QueryErrorKind::Unknown);
    assert!(guard.connection().is_poisoned());
}

#[test]
fn standalone_connection_settles_like_a_guard() {
    let mut owned = OwnedConnection::new(7);
    assert_eq!(owned.connection().id(), 7);
    assert!(!owned.connection().is_poisoned());
    assert_eq!(owned.settle(Outcome::Done("row")).unwrap(), "row");
    let told: Result<u32, _> = owned.settle(Outcome::Failed(DriverError::Serialization));
    assert_eq!(told.unwrap_err().kind(), QueryErrorKind::Unknown);
    assert!(!owned.connection().is_poisoned());
    let told: Result<u32, _> = owned.settle(Outcome::Failed(DriverError::BrokenTransactionManager));
    assert_eq!(told.unwrap_err().kind(), QueryErrorKind::ConnectionFailed);
    assert!(owned.connection().is_poisoned());
    let told = owned.settle_all(vec![Outcome::Done(1u8), Outcome::Done(2)]);
    assert_eq!(told.unwrap(), vec![1, 2]);
    assert!(owned.connection().is_poisoned());
}

#[test]
fn only_a_failure_ends_a_unit_of_statements() {
    assert!(!Outcome::Done(1u32).ends_unit());
    assert!(Outcome::<u32>::Failed(DriverError::NotFound).ends_unit());
    assert!(Outcome::<u32>::Panicked.ends_unit());
    assert!(Outcome::<u32>::returned(Err(Error::RollbackTransaction)).ends_unit());
    assert!(!Outcome::returned(Ok::<u32, Error>(1)).ends_unit());
}
