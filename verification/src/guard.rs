//! What a checked-out connection decides once a unit of work has run: what
//! the caller is told, and whether the connection may still be used.
//!
//! The runtime dispatches the work to a worker and reports the outcome here.
//! A unit of several statements runs on the one connection of its guard and
//! stops at the first statement that fails.

use crate::connection::Connection;
use crate::error::{
    classify, driver_code, driver_error_of, DriverError, Failure, QueryError, QueryErrorKind,
};
use vstd::prelude::*;

verus! {

/// How a unit of work ended on its worker.
#[derive(Debug)]
pub enum Outcome<T> {
    /// The work returned this value.
    Done(T),
    /// The driver reported this error.
    Failed(DriverError),
    /// The worker panicked or was lost before the work returned.
    Panicked,
}

impl<T> Outcome<T> {
    /// The failure behind this outcome, if it is one.
    pub open spec fn failure(self) -> Option<Failure> {
        match self {
            Outcome::Done(_) => None,
            Outcome::Failed(e) => Some(Failure::Driver(e)),
            Outcome::Panicked => Some(Failure::WorkerPanicked),
        }
    }

    /// What the caller is told.
    pub open spec fn settled(self) -> Result<T, QueryError> {
        match self {
            Outcome::Done(value) => Ok(value),
            Outcome::Failed(e) => Err(QueryError::from_failure(Failure::Driver(e))),
            Outcome::Panicked => Err(QueryError::from_failure(Failure::WorkerPanicked)),
        }
    }

    /// Whether the connection the work ran on is poisoned by this outcome.
    pub open spec fn poisons(self) -> bool {
        match self.failure() {
            Some(failure) => failure.poisons(),
            None => false,
        }
    }

    /// The connection after this outcome: poisoned if the outcome poisons it,
    /// else as it was.
    pub open spec fn leaves(self, conn: Connection) -> Connection {
        if self.poisons() {
            Connection::with(conn.id(), true)
        } else {
            conn
        }
    }

    /// Whether this outcome ends a unit of several statements: a failure
    /// does, a value does not.
    pub fn ends_unit(&self) -> (ends: bool)
        ensures
            ends == (*self !is Done),
    {
        match self {
            Outcome::Done(_) => false,
            _ => true,
        }
    }

    /// The outcome of work that returned with the driver's own result. A value
    /// is `Done` with that value; an error is `Failed` with what the error
    /// reads as.
    pub fn returned(result: Result<T, diesel::result::Error>) -> (outcome: Outcome<T>)
        ensures
            match result {
                Ok(value) => outcome == Outcome::Done(value),
                Err(e) => outcome == Outcome::<T>::Failed(driver_code(e)),
            },
    {
        match result {
            Ok(value) => Outcome::Done(value),
            Err(e) => Outcome::Failed(driver_error_of(&e)),
        }
    }
}

/// Whether every outcome before place `k` is a value and the one at `k` is
/// the first that is not.
pub open spec fn first_failure_at<T>(outcomes: Seq<Outcome<T>>, k: int) -> bool {
    &&& 0 <= k < outcomes.len()
    &&& outcomes[k] !is Done
    &&& forall|j: int| 0 <= j < k ==> outcomes[j] is Done
}

/// Settles one outcome on `conn`.
fn settle_on<T>(conn: &mut Connection, outcome: Outcome<T>) -> (told: Result<T, QueryError>)
    ensures
        told == outcome.settled(),
        *final(conn) == outcome.leaves(*old(conn)),
{
    broadcast use Connection::lemma_parts;

    match outcome {
        Outcome::Done(value) => Ok(value),
        Outcome::Failed(e) => {
            let failure = Failure::Driver(e);
            if failure.is_poisoning() {
                conn.poison();
            }
            Err(classify(failure))
        },
        Outcome::Panicked => {
            conn.poison();
            Err(classify(Failure::WorkerPanicked))
        },
    }
}

/// Settles the outcomes of the statements of one unit, in order.
fn settle_all_on<T>(conn: &mut Connection, outcomes: Vec<Outcome<T>>) -> (told: Result<
    Vec<T>,
    QueryError,
>)
    ensures
        match told {
            Ok(values) => {
                &&& values@.len() == outcomes@.len()
                &&& forall|i: int|
                    0 <= i < outcomes@.len() ==> outcomes@[i] == Outcome::Done(values@[i])
                &&& *final(conn) == *old(conn)
            },
            Err(e) => exists|k: int|
                {
                    &&& first_failure_at(outcomes@, k)
                    &&& Err::<T, QueryError>(e) == (#[trigger] outcomes@[k]).settled()
                    &&& *final(conn) == outcomes@[k].leaves(*old(conn))
                },
        },
{
    let ghost all = outcomes@;
    let mut values: Vec<T> = Vec::new();
    for outcome in it: outcomes
        invariant
            it.seq() == all,
            values@.len() == it.index(),
            forall|i: int| 0 <= i < it.index() ==> all[i] == Outcome::Done(values@[i]),
            *conn == *old(conn),
    {
        let ghost k = it.index() as int;
        match settle_on(conn, outcome) {
            Ok(value) => {
                values.push(value);
            },
            Err(e) => {
                proof {
                    assert(first_failure_at(all, k));
                    assert(Err::<T, QueryError>(e) == all[k].settled());
                }
                return Err(e);
            },
        }
    }
    Ok(values)
}

/// A connection checked out of a pool, for one unit of work or several. When
/// its holder is done, for whatever reason, the connection inside goes back
/// to the pool it came from.
#[derive(Debug)]
pub struct Guard {
    conn: Connection,
}

impl Guard {
    /// The connection inside, as a value.
    pub closed spec fn holding(&self) -> Connection {
        self.conn
    }

    /// Wraps a connection that `acquire` handed out ready for use.
    pub fn new(conn: Connection) -> (guard: Guard)
        ensures
            guard.holding() == conn,
    {
        Guard { conn }
    }

    /// Wraps a connection whose session the runtime was to open. If the
    /// session is open the guard is ready. If it could not be opened, the
    /// caller is told `ConnectionFailed` and gets the handle back poisoned, to
    /// release it; nothing is tried again.
    pub fn establish(conn: Connection, opened: bool) -> (made: Result<
        Guard,
        (Connection, QueryError),
    >)
        ensures
            opened ==> (made matches Ok(guard) && guard.holding() == conn),
            !opened ==> made == Err::<Guard, (Connection, QueryError)>(
                (
                    Connection::with(conn.id(), true),
                    QueryError::from_failure(Failure::ConnectFailed),
                ),
            ),
    {
        if opened {
            Ok(Guard { conn })
        } else {
            let mut conn = conn;
            conn.poison();
            Err((conn, classify(Failure::ConnectFailed)))
        }
    }

    /// The connection inside.
    pub fn connection(&self) -> (conn: &Connection)
        ensures
            *conn == self.holding(),
    {
        &self.conn
    }

    /// Settles one unit of work: a value is passed on; a failure is
    /// classified, and poisons the connection if the session broke or the
    /// worker panicked.
    pub fn settle<T>(&mut self, outcome: Outcome<T>) -> (told: Result<T, QueryError>)
        ensures
            told == outcome.settled(),
            final(self).holding() == outcome.leaves(old(self).holding()),
    {
        settle_on(&mut self.conn, outcome)
    }

    /// Settles a unit of several statements that ran in order on this
    /// connection. If all returned, their values come back in order and the
    /// connection is as before. Else the caller is told of the first failure,
    /// which alone decides whether the connection is poisoned; what follows
    /// it is ignored.
    pub fn settle_all<T>(&mut self, outcomes: Vec<Outcome<T>>) -> (told: Result<
        Vec<T>,
        QueryError,
    >)
        ensures
            match told {
                Ok(values) => {
                    &&& values@.len() == outcomes@.len()
                    &&& forall|i: int|
                        0 <= i < outcomes@.len() ==> outcomes@[i] == Outcome::Done(values@[i])
                    &&& final(self).holding() == old(self).holding()
                },
                Err(e) => exists|k: int|
                    {
                        &&& first_failure_at(outcomes@, k)
                        &&& Err::<T, QueryError>(e) == (#[trigger] outcomes@[k]).settled()
                        &&& final(self).holding() == outcomes@[k].leaves(
                            old(self).holding(),
                        )
                    },
            },
    {
        settle_all_on(&mut self.conn, outcomes)
    }

    /// The end of the checkout: the connection, to be released to its pool.
    pub fn finish(self) -> (conn: Connection)
        ensures
            conn == self.holding(),
    {
        self.conn
    }
}

/// A connection of its own, outside any pool: it settles work as a guard
/// does, and at its end the session is simply closed.
#[derive(Debug)]
pub struct OwnedConnection {
    conn: Connection,
}

impl OwnedConnection {
    /// The connection inside, as a value.
    pub closed spec fn holding(&self) -> Connection {
        self.conn
    }

    /// A healthy connection under the number the caller gives it.
    pub fn new(id: u64) -> (owned: OwnedConnection)
        ensures
            owned.holding() == Connection::healthy(id),
    {
        OwnedConnection { conn: Connection::issue(id) }
    }

    /// The connection inside.
    pub fn connection(&self) -> (conn: &Connection)
        ensures
            *conn == self.holding(),
    {
        &self.conn
    }

    /// Settles one unit of work, as [`Guard::settle`] does.
    pub fn settle<T>(&mut self, outcome: Outcome<T>) -> (told: Result<T, QueryError>)
        ensures
            told == outcome.settled(),
            final(self).holding() == outcome.leaves(old(self).holding()),
    {
        settle_on(&mut self.conn, outcome)
    }

    /// Settles a unit of several statements, as [`Guard::settle_all`] does.
    pub fn settle_all<T>(&mut self, outcomes: Vec<Outcome<T>>) -> (told: Result<
        Vec<T>,
        QueryError,
    >)
        ensures
            match told {
                Ok(values) => {
                    &&& values@.len() == outcomes@.len()
                    &&& forall|i: int|
                        0 <= i < outcomes@.len() ==> outcomes@[i] == Outcome::Done(values@[i])
                    &&& final(self).holding() == old(self).holding()
                },
                Err(e) => exists|k: int|
                    {
                        &&& first_failure_at(outcomes@, k)
                        &&& Err::<T, QueryError>(e) == (#[trigger] outcomes@[k]).settled()
                        &&& final(self).holding() == outcomes@[k].leaves(
                            old(self).holding(),
                        )
                    },
            },
    {
        settle_all_on(&mut self.conn, outcomes)
    }
}

/// What a failed unit of work means for its connection: the caller is told
/// `ConnectionFailed` only with the connection poisoned; a panic is told as
/// `Unknown` and poisons too; a value or any other error leaves the
/// connection as it was.
pub proof fn lemma_poisoning<T>(outcome: Outcome<T>, conn: Connection)
    ensures
        outcome is Done ==> outcome.leaves(conn) == conn,
        outcome is Panicked ==> (outcome.settled() matches Err(e) && e.kind()
            == QueryErrorKind::Unknown) && outcome.leaves(conn).is_poisoned(),
        (outcome.settled() matches Err(e) && e.kind()
            == QueryErrorKind::ConnectionFailed) ==> outcome.leaves(
            conn,
        ).is_poisoned(),
        outcome.leaves(conn).id() == conn.id(),
        conn.is_poisoned() ==> outcome.leaves(conn).is_poisoned(),
        !outcome.poisons() ==> outcome.leaves(conn) == conn,
{
    broadcast use Connection::lemma_with, QueryError::lemma_from_failure;

}

} // verus!
