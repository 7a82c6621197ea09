use diesel::result::{ConnectionError, DatabaseErrorKind, Error};
use diesel::{Connection, PgConnection};
use socialverse::error::{
    classify, classify_driver, DatabaseFault, DriverError, Failure, QueryErrorKind,
};

fn database_error(kind: DatabaseErrorKind) -> Error {
    Error::DatabaseError(kind, Box::new(String::from("reported by the database")))
}

#[test]
fn absent_row_is_not_found() {
    let e = classify(Failure::Driver(DriverError::NotFound));
    assert_eq!(e.kind(), QueryErrorKind::NotFound);
    assert_eq!(e.cause(), Some(DriverError::NotFound));
}

#[test]
fn unique_and_foreign_key_violations_are_conflicts() {
    for fault in [DatabaseFault::UniqueViolation, DatabaseFault::ForeignKeyViolation] {
        let e = classify(Failure::Driver(DriverError::Database(fault)));
        assert_eq!(e.kind(), QueryErrorKind::Conflict);
        assert_eq!(e.cause(), Some(DriverError::Database(fault)));
    }
}

#[test]
fn broken_sessions_are_connection_failures() {
    for failure in [
        Failure::Driver(DriverError::Database(DatabaseFault::ClosedConnection)),
        Failure::Driver(DriverError::Database(DatabaseFault::UnableToSendCommand)),
        Failure::Driver(DriverError::BrokenTransactionManager),
        Failure::ConnectFailed,
    ] {
        assert_eq!(classify(failure).kind(), QueryErrorKind::ConnectionFailed);
        assert!(failure.is_poisoning());
    }
}

#[test]
fn pool_failures_have_their_own_kinds_and_no_cause() {
    let expired = classify(Failure::WaitExpired);
    assert_eq!(expired.kind(), QueryErrorKind::Timeout);
    assert_eq!(expired.cause(), None);
    let full = classify(Failure::NoWaitPermitted);
    assert_eq!(full.kind(), QueryErrorKind::PoolExhausted);
    assert_eq!(full.cause(), None);
    let closed = classify(Failure::PoolClosed);
    assert_eq!(closed.kind(), QueryErrorKind::PoolExhausted);
    assert_eq!(closed.cause(), None);
    assert!(!Failure::WaitExpired.is_poisoning());
    assert!(!Failure::NoWaitPermitted.is_poisoning());
    assert!(!Failure::PoolClosed.is_poisoning());
}

#[test]
fn worker_panic_is_unknown_and_poisons() {
    let e = classify(Failure::WorkerPanicked);
    assert_eq!(e.kind(), QueryErrorKind::Unknown);
    assert_eq!(e.cause(), None);
    assert!(Failure::WorkerPanicked.is_poisoning());
}

#[test]
fn everything_else_is_unknown_and_leaves_the_connection_alone() {
    let others = [
        DriverError::InvalidCString,
        DriverError::QueryBuilder,
        DriverError::Deserialization,
        DriverError::Serialization,
        DriverError::RollbackOnCommit,
        DriverError::RollbackTransaction,
        DriverError::AlreadyInTransaction,
        DriverError::NotInTransaction,
        DriverError::IntegerConversion,
        DriverError::Unrecognized,
        DriverError::Database(DatabaseFault::SerializationFailure),
        DriverError::Database(DatabaseFault::ReadOnlyTransaction),
        DriverError::Database(DatabaseFault::RestrictViolation),
        DriverError::Database(DatabaseFault::NotNullViolation),
        DriverError::Database(DatabaseFault::CheckViolation),
        DriverError::Database(DatabaseFault::ExclusionViolation),
        DriverError::Database(DatabaseFault::Unknown),
    ];
    for e in others {
        let classified = classify(Failure::Driver(e));
        assert_eq!(classified.kind(), QueryErrorKind::Unknown);
        assert_eq!(classified.cause(), Some(e));
        assert!(!Failure::Driver(e).is_poisoning());
    }
}

#[test]
fn classification_is_the_same_every_time() {
    let failures = [
        Failure::Driver(DriverError::NotFound),
        Failure::Driver(DriverError::Database(DatabaseFault::UniqueViolation)),
        Failure::Driver(DriverError::Database(DatabaseFault::ClosedConnection)),
        Failure::Driver(DriverError::Serialization),
        Failure::ConnectFailed,
        Failure::WaitExpired,
        Failure::NoWaitPermitted,
        Failure::PoolClosed,
        Failure::WorkerPanicked,
    ];
    for f in failures {
        assert_eq!(classify(f), classify(f));
        assert_eq!(classify(f).kind(), classify(f).kind());
    }
}

#[test]
fn http_status_of_each_kind() {
    assert_eq!(QueryErrorKind::NotFound.http_status(), 404);
    assert_eq!(QueryErrorKind::Conflict.http_status(), 409);
    assert_eq!(QueryErrorKind::Timeout.http_status(), 503);
    assert_eq!(QueryErrorKind::PoolExhausted.http_status(), 503);
    assert_eq!(QueryErrorKind::ConnectionFailed.http_status(), 500);
    assert_eq!(QueryErrorKind::Unknown.http_status(), 500);
}

#[test]
fn driver_not_found_is_read_as_not_found() {
    let e = classify_driver(&Error::NotFound);
    assert_eq!(e.kind(), QueryErrorKind::NotFound);
    assert_eq!(e.cause(), Some(DriverError::NotFound));
}

#[test]
fn driver_database_errors_keep_their_kind() {
    let cases = [
        (DatabaseErrorKind::UniqueViolation, DatabaseFault::UniqueViolation, QueryErrorKind::Conflict),
        (
            DatabaseErrorKind::ForeignKeyViolation,
            DatabaseFault::ForeignKeyViolation,
            QueryErrorKind::Conflict,
        ),
        (
            DatabaseErrorKind::UnableToSendCommand,
            DatabaseFault::UnableToSendCommand,
            QueryErrorKind::ConnectionFailed,
        ),
        (
            DatabaseErrorKind::ClosedConnection,
            DatabaseFault::ClosedConnection,
            QueryErrorKind::ConnectionFailed,
        ),
        (
            DatabaseErrorKind::SerializationFailure,
            DatabaseFault::SerializationFailure,
            QueryErrorKind::Unknown,
        ),
        (
            DatabaseErrorKind::ReadOnlyTransaction,
            DatabaseFault::ReadOnlyTransaction,
            QueryErrorKind::Unknown,
        ),
        (DatabaseErrorKind::RestrictViolation, DatabaseFault::RestrictViolation, QueryErrorKind::Unknown),
        (DatabaseErrorKind::NotNullViolation, DatabaseFault::NotNullViolation, QueryErrorKind::Unknown),
        (DatabaseErrorKind::CheckViolation, DatabaseFault::CheckViolation, QueryErrorKind::Unknown),
        (
            DatabaseErrorKind::ExclusionViolation,
            DatabaseFault::ExclusionViolation,
            QueryErrorKind::Unknown,
        ),
        (DatabaseErrorKind::Unknown, DatabaseFault::Unknown, QueryErrorKind::Unknown),
    ];
    for (kind, fault, expected) in cases {
        let e = classify_driver(&database_error(kind));
        assert_eq!(e.kind(), expected);
        assert_eq!(e.cause(), Some(DriverError::Database(fault)));
    }
}

#[test]
fn driver_transaction_errors_are_told_apart() {
    let cases = [
        (Error::RollbackTransaction, DriverError::RollbackTransaction, QueryErrorKind::Unknown),
        (Error::AlreadyInTransaction, DriverError::AlreadyInTransaction, QueryErrorKind::Unknown),
        (Error::NotInTransaction, DriverError::NotInTransaction, QueryErrorKind::Unknown),
        (
            Error::BrokenTransactionManager,
            DriverError::BrokenTransactionManager,
            QueryErrorKind::ConnectionFailed,
        ),
        (
            Error::RollbackErrorOnCommit {
                rollback_error: Box::new(Error::NotFound),
                commit_error: Box::new(Error::NotFound),
            },
            DriverError::RollbackOnCommit,
            QueryErrorKind::Unknown,
        ),
    ];
    for (error, code, expected) in cases {
        let e = classify_driver(&error);
        assert_eq!(e.kind(), expected);
        assert_eq!(e.cause(), Some(code));
    }
}

#[test]
fn driver_errors_with_a_boxed_cause_are_told_apart() {
    let boxed = || -> Box<dyn std::error::Error + Send + Sync> { "broken".into() };
    let e = classify_driver(&Error::QueryBuilderError(boxed()));
    assert_eq!(e.cause(), Some(DriverError::QueryBuilder));
    let e = classify_driver(&Error::DeserializationError(boxed()));
    assert_eq!(e.cause(), Some(DriverError::Deserialization));
    let e = classify_driver(&Error::SerializationError(boxed()));
    assert_eq!(e.cause(), Some(DriverError::Serialization));
    assert_eq!(e.kind(), QueryErrorKind::Unknown);
}

#[test]
fn driver_integer_conversion_error_is_told_apart() {
    let too_large = u8::try_from(300u32).unwrap_err();
    let e = classify_driver(&Error::IntegerConversion(too_large));
    assert_eq!(e.cause(), Some(DriverError::IntegerConversion));
    assert_eq!(e.kind(), QueryErrorKind::Unknown);
}

#[test]
fn driver_nul_byte_error_is_told_apart() {
    let nul_inside = match PgConnection::establish("postgres://test@local\0host/test") {
        Err(ConnectionError::InvalidCString(nul_inside)) => nul_inside,
        Err(other) => panic!("expected the NUL byte to be refused, got {:?}", other),
        Ok(_) => panic!("expected the NUL byte to be refused"),
    };
    let e = classify_driver(&Error::InvalidCString(nul_inside));
    assert_eq!(e.cause(), Some(DriverError::InvalidCString));
    assert_eq!(e.kind(), QueryErrorKind::Unknown);
}

#[test]
fn same_driver_error_classifies_the_same_every_time() {
    let errors = [
        Error::NotFound,
        database_error(DatabaseErrorKind::UniqueViolation),
        database_error(DatabaseErrorKind::ClosedConnection),
        Error::BrokenTransactionManager,
        Error::RollbackTransaction,
    ];
    for error in &errors {
        assert_eq!(classify_driver(error), classify_driver(error));
        assert_eq!(classify_driver(error).kind(), classify_driver(error).kind());
    }
}
