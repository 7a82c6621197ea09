//! The error taxonomy: every failure of the driver or of the pool is mapped
//! to one of six kinds that callers can match on.

use diesel::result;
use vstd::prelude::*;

verus! {

/// `diesel::result::Error`, the driver's error: carried along as it is,
/// nothing inside it is visible to the proofs.
#[verifier::external_type_specification]
#[verifier::external_body]
pub struct ExDieselError(diesel::result::Error);

/// `diesel::result::DatabaseErrorKind`, the driver's name for what the
/// database complained about: carried along as it is.
#[verifier::external_type_specification]
#[verifier::external_body]
pub struct ExDieselErrorKind(diesel::result::DatabaseErrorKind);

/// What the database itself complained about, as the driver names it.
#[derive(Clone, Copy, Debug, PartialEq, Eq, Structural)]
pub enum DatabaseFault {
    UniqueViolation,
    ForeignKeyViolation,
    UnableToSendCommand,
    SerializationFailure,
    ReadOnlyTransaction,
    RestrictViolation,
    NotNullViolation,
    CheckViolation,
    ExclusionViolation,
    ClosedConnection,
    Unknown,
}

/// A failure reported by the driver while it ran a unit of work.
#[derive(Clone, Copy, Debug, PartialEq, Eq, Structural)]
pub enum DriverError {
    InvalidCString,
    Database(DatabaseFault),
    NotFound,
    QueryBuilder,
    Deserialization,
    Serialization,
    RollbackOnCommit,
    RollbackTransaction,
    AlreadyInTransaction,
    NotInTransaction,
    BrokenTransactionManager,
    IntegerConversion,
    Unrecognized,
}

/// Everything that can go wrong between asking for a connection and getting
/// the result of a unit of work.
#[derive(Clone, Copy, Debug, PartialEq, Eq, Structural)]
pub enum Failure {
    /// The driver reported an error while running the work.
    Driver(DriverError),
    /// The driver could not open a new session.
    ConnectFailed,
    /// The deadline passed while waiting for a connection.
    WaitExpired,
    /// The pool is at capacity and the caller may not queue.
    NoWaitPermitted,
    /// The pool was shut down.
    PoolClosed,
    /// The worker running the work panicked or was lost.
    WorkerPanicked,
}

/// The closed set of kinds that callers see.
#[derive(Clone, Copy, Debug, PartialEq, Eq, Structural)]
pub enum QueryErrorKind {
    NotFound,
    Conflict,
    ConnectionFailed,
    PoolExhausted,
    Timeout,
    Unknown,
}

/// A classified failure: its kind, and the driver error behind it if the
/// driver was the origin. Built only by [`classify`], never changed afterwards.
#[derive(Clone, Copy, Debug, PartialEq, Eq, Structural)]
pub struct QueryError {
    kind: QueryErrorKind,
    cause: Option<DriverError>,
}

impl DatabaseFault {
    /// The kind a database fault is reported as.
    pub open spec fn kind(self) -> QueryErrorKind {
        match self {
            DatabaseFault::UniqueViolation | DatabaseFault::ForeignKeyViolation => {
                QueryErrorKind::Conflict
            },
            DatabaseFault::UnableToSendCommand | DatabaseFault::ClosedConnection => {
                QueryErrorKind::ConnectionFailed
            },
            _ => QueryErrorKind::Unknown,
        }
    }
}

impl DriverError {
    /// The kind a driver error is reported as.
    pub open spec fn kind(self) -> QueryErrorKind {
        match self {
            DriverError::NotFound => QueryErrorKind::NotFound,
            DriverError::Database(fault) => fault.kind(),
            DriverError::BrokenTransactionManager => QueryErrorKind::ConnectionFailed,
            _ => QueryErrorKind::Unknown,
        }
    }
}

impl Failure {
    /// The one kind this failure is reported as.
    pub open spec fn kind(self) -> QueryErrorKind {
        match self {
            Failure::Driver(e) => e.kind(),
            Failure::ConnectFailed => QueryErrorKind::ConnectionFailed,
            Failure::WaitExpired => QueryErrorKind::Timeout,
            Failure::NoWaitPermitted => QueryErrorKind::PoolExhausted,
            Failure::PoolClosed => QueryErrorKind::PoolExhausted,
            Failure::WorkerPanicked => QueryErrorKind::Unknown,
        }
    }

    /// The driver error kept for diagnostics; only driver failures have one.
    pub open spec fn cause(self) -> Option<DriverError> {
        match self {
            Failure::Driver(e) => Some(e),
            _ => None,
        }
    }

    /// Whether the connection the failure happened on can no longer be
    /// trusted: its session broke, or the work died half way.
    pub open spec fn poisons(self) -> bool {
        self.kind() == QueryErrorKind::ConnectionFailed || self == Failure::WorkerPanicked
    }

    /// Executable form of [`Failure::poisons`].
    pub fn is_poisoning(self) -> (b: bool)
        ensures
            b == self.poisons(),
    {
        match self {
            Failure::WorkerPanicked => true,
            _ => classify(self).kind() == QueryErrorKind::ConnectionFailed,
        }
    }
}

impl QueryErrorKind {
    /// The HTTP status a handler answers with for this kind.
    pub fn http_status(self) -> (status: u16)
        ensures
            status == match self {
                QueryErrorKind::NotFound => 404u16,
                QueryErrorKind::Conflict => 409u16,
                QueryErrorKind::Timeout | QueryErrorKind::PoolExhausted => 503u16,
                QueryErrorKind::ConnectionFailed | QueryErrorKind::Unknown => 500u16,
            },
    {
        match self {
            QueryErrorKind::NotFound => 404,
            QueryErrorKind::Conflict => 409,
            QueryErrorKind::Timeout => 503,
            QueryErrorKind::PoolExhausted => 503,
            QueryErrorKind::ConnectionFailed => 500,
            QueryErrorKind::Unknown => 500,
        }
    }
}

impl QueryError {
    /// The error that `failure` classifies to.
    pub closed spec fn from_failure(failure: Failure) -> QueryError {
        QueryError { kind: failure.kind(), cause: failure.cause() }
    }

    pub closed spec fn spec_kind(self) -> QueryErrorKind {
        self.kind
    }

    pub closed spec fn spec_cause(self) -> Option<DriverError> {
        self.cause
    }

    /// Whether this error is the classification of some failure.
    pub open spec fn classified(self) -> bool {
        exists|failure: Failure| self == QueryError::from_failure(failure)
    }

    /// The kind to match on.
    #[verifier::when_used_as_spec(spec_kind)]
    pub fn kind(self) -> (kind: QueryErrorKind)
        ensures
            kind == self.spec_kind(),
    {
        self.kind
    }

    /// The driver error behind this failure, if the driver was its origin.
    #[verifier::when_used_as_spec(spec_cause)]
    pub fn cause(self) -> (cause: Option<DriverError>)
        ensures
            cause == self.spec_cause(),
    {
        self.cause
    }

    /// A classified error has the kind and the cause of the failure it came
    /// from.
    pub broadcast proof fn lemma_from_failure(failure: Failure)
        ensures
            (#[trigger] QueryError::from_failure(failure)).spec_kind() == failure.kind(),
            QueryError::from_failure(failure).spec_cause() == failure.cause(),
    {
    }
}

/// Maps a failure to the error that callers see. Total: every failure has
/// exactly one kind. The driver error, if any, is kept as the cause.
pub fn classify(failure: Failure) -> (error: QueryError)
    ensures
        error == QueryError::from_failure(failure),
        error.classified(),
        error.kind() == failure.kind(),
        error.cause() == failure.cause(),
{
    let kind = match failure {
        Failure::Driver(DriverError::NotFound) => QueryErrorKind::NotFound,
        Failure::Driver(DriverError::Database(fault)) => match fault {
            DatabaseFault::UniqueViolation => QueryErrorKind::Conflict,
            DatabaseFault::ForeignKeyViolation => QueryErrorKind::Conflict,
            DatabaseFault::UnableToSendCommand => QueryErrorKind::ConnectionFailed,
            DatabaseFault::ClosedConnection => QueryErrorKind::ConnectionFailed,
            _ => QueryErrorKind::Unknown,
        },
        Failure::Driver(DriverError::BrokenTransactionManager) => QueryErrorKind::ConnectionFailed,
        Failure::Driver(_) => QueryErrorKind::Unknown,
        Failure::ConnectFailed => QueryErrorKind::ConnectionFailed,
        Failure::WaitExpired => QueryErrorKind::Timeout,
        Failure::NoWaitPermitted => QueryErrorKind::PoolExhausted,
        Failure::PoolClosed => QueryErrorKind::PoolExhausted,
        Failure::WorkerPanicked => QueryErrorKind::Unknown,
    };
    let cause = match failure {
        Failure::Driver(e) => Some(e),
        _ => None,
    };
    QueryError { kind, cause }
}

/// Classification depends on the failure alone: two calls of `classify` on
/// the same failure give the same error, and so the same kind.
pub proof fn lemma_classify_is_stable(a: Failure, b: Failure, first: QueryError, second: QueryError)
    requires
        a == b,
        call_ensures(classify, (a,), first),
        call_ensures(classify, (b,), second),
    ensures
        first == second,
        first.kind() == second.kind(),
        first.cause() == second.cause(),
{
}

/// Pool-level kinds never come from the driver, and only driver failures
/// carry a cause.
pub proof fn lemma_driver_kinds(e: DriverError)
    ensures
        e.kind() != QueryErrorKind::Timeout,
        e.kind() != QueryErrorKind::PoolExhausted,
        Failure::Driver(e).cause() == Some(e),
{
}

/// Tells the variants of `diesel::result::DatabaseErrorKind` apart, one
/// library variant for each; a variant this library does not know reads as
/// `Unknown`. Nothing is claimed about which variant comes out.
#[verifier::external_body]
fn database_fault_of(kind: &diesel::result::DatabaseErrorKind) -> (fault: DatabaseFault) {
    match kind {
        result::DatabaseErrorKind::UniqueViolation => DatabaseFault::UniqueViolation,
        result::DatabaseErrorKind::ForeignKeyViolation => DatabaseFault::ForeignKeyViolation,
        result::DatabaseErrorKind::UnableToSendCommand => DatabaseFault::UnableToSendCommand,
        result::DatabaseErrorKind::SerializationFailure => DatabaseFault::SerializationFailure,
        result::DatabaseErrorKind::ReadOnlyTransaction => DatabaseFault::ReadOnlyTransaction,
        result::DatabaseErrorKind::RestrictViolation => DatabaseFault::RestrictViolation,
        result::DatabaseErrorKind::NotNullViolation => DatabaseFault::NotNullViolation,
        result::DatabaseErrorKind::CheckViolation => DatabaseFault::CheckViolation,
        result::DatabaseErrorKind::ExclusionViolation => DatabaseFault::ExclusionViolation,
        result::DatabaseErrorKind::ClosedConnection => DatabaseFault::ClosedConnection,
        _ => DatabaseFault::Unknown,
    }
}

/// The library's reading of a driver error: which variant of
/// `diesel::result::Error` it is and, for a database error, which kind. What
/// it is on each variant is not stated here; it depends on the error alone.
pub uninterp spec fn driver_code(e: diesel::result::Error) -> DriverError;

/// Tells the variants of `diesel::result::Error` apart, one library variant
/// for each, keeping the database's error kind; a variant this library does
/// not know reads as `Unrecognized`. The contract claims only that the result
/// is the reading of that error, the same for the same error.
#[verifier::external_body]
pub(crate) fn driver_error_of(e: &diesel::result::Error) -> (code: DriverError)
    ensures
        code == driver_code(*e),
{
    match e {
        result::Error::InvalidCString(_) => DriverError::InvalidCString,
        result::Error::DatabaseError(k, _) => DriverError::Database(database_fault_of(k)),
        result::Error::NotFound => DriverError::NotFound,
        result::Error::QueryBuilderError(_) => DriverError::QueryBuilder,
        result::Error::DeserializationError(_) => DriverError::Deserialization,
        result::Error::SerializationError(_) => DriverError::Serialization,
        result::Error::RollbackErrorOnCommit { .. } => DriverError::RollbackOnCommit,
        result::Error::RollbackTransaction => DriverError::RollbackTransaction,
        result::Error::AlreadyInTransaction => DriverError::AlreadyInTransaction,
        result::Error::NotInTransaction => DriverError::NotInTransaction,
        result::Error::BrokenTransactionManager => DriverError::BrokenTransactionManager,
        result::Error::IntegerConversion(_) => DriverError::IntegerConversion,
        _ => DriverError::Unrecognized,
    }
}

/// Classifies an error as the driver handed it over: the result is the
/// classification of the driver failure that the error reads as. So it has
/// that reading as its cause, the kind of that cause, and never a pool-level
/// kind.
pub fn classify_driver(e: &diesel::result::Error) -> (error: QueryError)
    ensures
        error == QueryError::from_failure(Failure::Driver(driver_code(*e))),
        error.classified(),
        error.cause() == Some(driver_code(*e)),
        error.kind() == driver_code(*e).kind(),
        error.kind() != QueryErrorKind::Timeout,
        error.kind() != QueryErrorKind::PoolExhausted,
{
    classify(Failure::Driver(driver_error_of(e)))
}

/// The same driver error always classifies to the same error, and so to the
/// same kind: two calls of `classify_driver` on it agree.
pub proof fn lemma_classify_driver_is_stable(
    e: diesel::result::Error,
    first: QueryError,
    second: QueryError,
)
    requires
        call_ensures(classify_driver, (&e,), first),
        call_ensures(classify_driver, (&e,), second),
    ensures
        first == second,
        first.kind() == second.kind(),
{
}

} // verus!
