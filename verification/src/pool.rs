//! The connection pool as a state machine. The runtime holds one `Pool`
//! behind its lock and calls a transition for every request, release, expired
//! deadline and shutdown; the pool answers with what the runtime has to do.

use crate::connection::Connection;
use crate::error::{classify, Failure, QueryError};
use std::collections::VecDeque;
use vstd::prelude::*;

verus! {

/// What `acquire` decided.
#[derive(Debug)]
pub enum Acquire {
    /// An idle connection was taken; the caller has it without waiting.
    Ready(Connection),
    /// A slot was reserved; the caller opens a new session under this handle.
    Create(Connection),
    /// The caller is queued under this ticket.
    Wait(u64),
    /// No connection, and no place in the queue.
    Refused(QueryError),
}

/// What `release` did with the connection.
#[derive(Debug)]
pub enum Release {
    /// The connection with this number is idle again.
    Idle(u64),
    /// The connection goes straight to the ticket that waited longest.
    Handoff(u64, Connection),
    /// The connection with this number is destroyed and its slot is free.
    Discard(u64),
    /// No connection with this number is checked out of this pool; the handle
    /// comes back untouched. A pool knows a handle by its number alone, so a
    /// handle of another pool is told apart only while its number is not
    /// checked out here: one connection, one holder holds as long as every
    /// handle goes back to the pool that granted it.
    Foreign(Connection),
}

/// What `close` leaves for the runtime to clean up.
#[derive(Debug)]
pub struct Shutdown {
    /// Idle connections to destroy, oldest first.
    pub connections: Vec<u64>,
    /// Tickets to wake with `error`, longest waiting first.
    pub waiters: Vec<u64>,
    /// What every woken waiter is told.
    pub error: QueryError,
}

/// The pool's bookkeeping as mathematics.
#[verifier::ext_equal]
pub struct PoolState {
    /// The most connections that may live at once.
    pub capacity: nat,
    /// The most callers that may queue at once.
    pub max_waiters: nat,
    /// Healthy connections nobody uses, longest idle first.
    pub idle: Seq<u64>,
    /// Connections checked out, in the order they were granted.
    pub in_use: Seq<u64>,
    /// Tickets of the callers that wait, longest waiting first.
    pub waiters: Seq<u64>,
    /// The number the next new connection gets.
    pub next_connection: u64,
    /// The number the next waiter gets.
    pub next_ticket: u64,
    /// Whether the pool was shut down.
    pub closed: bool,
}

impl PoolState {
    /// A new pool: nothing lives, nobody waits.
    pub open spec fn new(capacity: nat, max_waiters: nat) -> PoolState {
        PoolState {
            capacity,
            max_waiters,
            idle: Seq::empty(),
            in_use: Seq::empty(),
            waiters: Seq::empty(),
            next_connection: 0,
            next_ticket: 0,
            closed: false,
        }
    }

    /// How many connections live: the idle ones and the checked-out ones.
    pub open spec fn live(self) -> nat {
        self.idle.len() + self.in_use.len()
    }

    /// Whether the connection with this number lives in the pool.
    pub open spec fn holds(self, id: u64) -> bool {
        self.idle.contains(id) || self.in_use.contains(id)
    }

    /// What holds of every pool at every moment.
    pub open spec fn wf(self) -> bool {
        &&& self.live() <= self.capacity
        &&& self.idle.no_duplicates()
        &&& self.in_use.no_duplicates()
        &&& forall|i: int, j: int|
            0 <= i < self.idle.len() && 0 <= j < self.in_use.len() ==> self.idle[i]
                != self.in_use[j]
        &&& forall|i: int| 0 <= i < self.idle.len() ==> self.idle[i] < self.next_connection
        &&& forall|i: int| 0 <= i < self.in_use.len() ==> self.in_use[i] < self.next_connection
        &&& self.waiters.no_duplicates()
        &&& forall|i: int| 0 <= i < self.waiters.len() ==> self.waiters[i] < self.next_ticket
        &&& self.waiters.len() <= self.max_waiters
        &&& (self.waiters.len() > 0 ==> self.idle.len() == 0)
        &&& (self.closed ==> self.idle.len() == 0 && self.waiters.len() == 0)
    }

    /// Whether no connection can be had right now: none is idle and no new
    /// one may be started.
    pub open spec fn exhausted(self) -> bool {
        self.idle.len() == 0 && self.in_use.len() >= self.capacity
    }

    /// Whether one more caller may queue.
    pub open spec fn may_queue(self) -> bool {
        self.waiters.len() < self.max_waiters && self.next_ticket < u64::MAX
    }

    /// A request for a connection by a caller willing to wait `timeout_ms`.
    pub open spec fn acquire(self, timeout_ms: u64) -> (PoolState, Acquire) {
        if self.closed {
            (self, Acquire::Refused(QueryError::from_failure(Failure::PoolClosed)))
        } else if self.idle.len() > 0 {
            (
                PoolState {
                    idle: self.idle.drop_first(),
                    in_use: self.in_use.push(self.idle[0]),
                    ..self
                },
                Acquire::Ready(Connection::healthy(self.idle[0])),
            )
        } else if !self.exhausted() {
            if self.next_connection == u64::MAX {
                (self, Acquire::Refused(QueryError::from_failure(Failure::ConnectFailed)))
            } else {
                (
                    PoolState {
                        in_use: self.in_use.push(self.next_connection),
                        next_connection: (self.next_connection + 1) as u64,
                        ..self
                    },
                    Acquire::Create(Connection::healthy(self.next_connection)),
                )
            }
        } else if !self.may_queue() {
            (self, Acquire::Refused(QueryError::from_failure(Failure::NoWaitPermitted)))
        } else if timeout_ms == 0 {
            (self, Acquire::Refused(QueryError::from_failure(Failure::WaitExpired)))
        } else {
            (
                PoolState {
                    waiters: self.waiters.push(self.next_ticket),
                    next_ticket: (self.next_ticket + 1) as u64,
                    ..self
                },
                Acquire::Wait(self.next_ticket),
            )
        }
    }

    /// The end of a checkout: the holder gives the connection back.
    pub open spec fn release(self, conn: Connection) -> (PoolState, Release) {
        if !self.in_use.contains(conn.id()) {
            (self, Release::Foreign(conn))
        } else if conn.is_poisoned() || self.closed {
            (
                PoolState { in_use: self.in_use.remove_value(conn.id()), ..self },
                Release::Discard(conn.id()),
            )
        } else if self.waiters.len() > 0 {
            (
                PoolState { waiters: self.waiters.drop_first(), ..self },
                Release::Handoff(self.waiters[0], conn),
            )
        } else {
            (
                PoolState {
                    idle: self.idle.push(conn.id()),
                    in_use: self.in_use.remove_value(conn.id()),
                    ..self
                },
                Release::Idle(conn.id()),
            )
        }
    }

    /// The deadline of a waiter passed, or the waiter gave up.
    pub open spec fn expire(self, ticket: u64) -> (PoolState, Option<QueryError>) {
        if self.waiters.contains(ticket) {
            (
                PoolState { waiters: self.waiters.remove_value(ticket), ..self },
                Some(QueryError::from_failure(Failure::WaitExpired)),
            )
        } else {
            (self, None)
        }
    }

    /// Shutdown: idle connections go, waiters are sent away, nothing new starts.
    pub open spec fn close(self) -> PoolState {
        PoolState { idle: Seq::empty(), waiters: Seq::empty(), closed: true, ..self }
    }
}

/// A deadline in whole milliseconds, as far as they fit, for a wait of so
/// many seconds and nanoseconds.
pub open spec fn millis_of(seconds: u64, nanos: u32) -> int {
    if seconds == 0 && nanos == 0 {
        0
    } else if seconds * 1000 + nanos / 1_000_000 == 0 {
        1
    } else if seconds * 1000 + nanos / 1_000_000 > u64::MAX {
        u64::MAX as int
    } else {
        seconds * 1000 + nanos / 1_000_000
    }
}

/// The timeout to hand to `acquire` for a wait of `seconds` and `nanos`:
/// zero only for no wait at all, at least one millisecond for any other
/// wait, the whole milliseconds where they fit and the largest number where
/// they do not.
pub fn timeout_millis(seconds: u64, nanos: u32) -> (timeout_ms: u64)
    ensures
        timeout_ms == millis_of(seconds, nanos),
        timeout_ms == 0 <==> seconds == 0 && nanos == 0,
{
    if seconds == 0 && nanos == 0 {
        return 0;
    }
    let fraction: u64 = (nanos / 1_000_000) as u64;
    if seconds > (u64::MAX - fraction) / 1000 {
        return u64::MAX;
    }
    let whole: u64 = seconds * 1000 + fraction;
    if whole == 0 {
        1
    } else {
        whole
    }
}

/// The first place of `x` in `s`, as `remove_value` looks for it.
proof fn lemma_first_place(s: Seq<u64>, x: u64, at: int)
    requires
        0 <= at < s.len(),
        s[at] == x,
        forall|j: int| 0 <= j < at ==> s[j] != x,
    ensures
        s.contains(x),
        s.remove_value(x) == s.remove(at),
{
    s.index_of_first_ensures(x);
}

/// Nothing changes when a value that is not there is removed.
proof fn lemma_absent(s: Seq<u64>, x: u64)
    requires
        forall|j: int| 0 <= j < s.len() ==> s[j] != x,
    ensures
        !s.contains(x),
        s.remove_value(x) == s,
{
    s.index_of_first_ensures(x);
}

/// Where `x` first stands in `v`, if it is there.
fn place_in_vec(v: &Vec<u64>, x: u64) -> (at: Option<usize>)
    ensures
        match at {
            Some(i) => i < v.len() && v@[i as int] == x && v@.remove_value(x) == v@.remove(
                i as int,
            ),
            None => v@.remove_value(x) == v@,
        },
        at is Some <==> v@.contains(x),
{
    let mut i: usize = 0;
    while i < v.len()
        invariant
            i <= v.len(),
            forall|j: int| 0 <= j < i ==> v@[j] != x,
        decreases v.len() - i,
    {
        if v[i] == x {
            proof {
                lemma_first_place(v@, x, i as int);
            }
            return Some(i);
        }
        i += 1;
    }
    proof {
        lemma_absent(v@, x);
    }
    None
}

/// Where `x` first stands in `v`, if it is there.
fn place_in_queue(v: &VecDeque<u64>, x: u64) -> (at: Option<usize>)
    ensures
        match at {
            Some(i) => i < v.len() && v@[i as int] == x && v@.remove_value(x) == v@.remove(
                i as int,
            ),
            None => v@.remove_value(x) == v@,
        },
        at is Some <==> v@.contains(x),
{
    let mut i: usize = 0;
    while i < v.len()
        invariant
            i <= v.len(),
            forall|j: int| 0 <= j < i ==> v@[j] != x,
        decreases v.len() - i,
    {
        if v[i] == x {
            proof {
                lemma_first_place(v@, x, i as int);
            }
            return Some(i);
        }
        i += 1;
    }
    proof {
        lemma_absent(v@, x);
    }
    None
}

/// A bounded set of connections and the queue of callers that wait for one.
#[derive(Debug)]
pub struct Pool {
    capacity: usize,
    max_waiters: usize,
    idle: VecDeque<u64>,
    in_use: Vec<u64>,
    waiters: VecDeque<u64>,
    next_connection: u64,
    next_ticket: u64,
    closed: bool,
}

impl View for Pool {
    type V = PoolState;

    closed spec fn view(&self) -> PoolState {
        PoolState {
            capacity: self.capacity as nat,
            max_waiters: self.max_waiters as nat,
            idle: self.idle@,
            in_use: self.in_use@,
            waiters: self.waiters@,
            next_connection: self.next_connection,
            next_ticket: self.next_ticket,
            closed: self.closed,
        }
    }
}

impl Pool {
    /// A pool for at most `capacity` connections and `max_waiters` queued
    /// callers. With `max_waiters` 0 nobody may wait.
    pub fn new(capacity: usize, max_waiters: usize) -> (pool: Pool)
        ensures
            pool@ == PoolState::new(capacity as nat, max_waiters as nat),
            pool@.wf(),
    {
        Pool {
            capacity,
            max_waiters,
            idle: VecDeque::new(),
            in_use: Vec::new(),
            waiters: VecDeque::new(),
            next_connection: 0,
            next_ticket: 0,
            closed: false,
        }
    }

    /// The most connections that may live at once.
    pub fn capacity(&self) -> (n: usize)
        ensures
            n == self@.capacity,
    {
        self.capacity
    }

    /// How many connections live: idle ones and checked-out ones.
    pub fn live_count(&self) -> (n: usize)
        requires
            self@.wf(),
        ensures
            n == self@.live(),
            n <= self@.capacity,
    {
        self.idle.len() + self.in_use.len()
    }

    /// How many connections are idle.
    pub fn idle_count(&self) -> (n: usize)
        ensures
            n == self@.idle.len(),
    {
        self.idle.len()
    }

    /// How many callers wait.
    pub fn waiting_count(&self) -> (n: usize)
        ensures
            n == self@.waiters.len(),
    {
        self.waiters.len()
    }

    /// Whether the pool was shut down.
    pub fn is_closed(&self) -> (closed: bool)
        ensures
            closed == self@.closed,
    {
        self.closed
    }

    /// Asks for a connection. An idle one is handed out at once; failing that
    /// a new one is started while the pool is under capacity; failing that the
    /// caller is queued, unless the queue is full (`PoolExhausted`) or the
    /// caller would not wait at all (`Timeout`). A closed pool refuses with
    /// `PoolExhausted`.
    pub fn acquire(&mut self, timeout_ms: u64) -> (granted: Acquire)
        requires
            old(self)@.wf(),
        ensures
            (final(self)@, granted) == old(self)@.acquire(timeout_ms),
            final(self)@.wf(),
    {
        if self.closed {
            return Acquire::Refused(classify(Failure::PoolClosed));
        }
        if self.idle.len() > 0 {
            let id = self.idle[0];
            self.idle.pop_front();
            self.in_use.push(id);
            return Acquire::Ready(Connection::issue(id));
        }
        if self.in_use.len() < self.capacity {
            if self.next_connection == u64::MAX {
                return Acquire::Refused(classify(Failure::ConnectFailed));
            }
            let id = self.next_connection;
            self.next_connection = id + 1;
            self.in_use.push(id);
            return Acquire::Create(Connection::issue(id));
        }
        if self.waiters.len() >= self.max_waiters || self.next_ticket == u64::MAX {
            return Acquire::Refused(classify(Failure::NoWaitPermitted));
        }
        if timeout_ms == 0 {
            return Acquire::Refused(classify(Failure::WaitExpired));
        }
        let ticket = self.next_ticket;
        self.next_ticket = ticket + 1;
        self.waiters.push_back(ticket);
        Acquire::Wait(ticket)
    }

    /// Takes a connection back. A poisoned one is destroyed and frees its
    /// slot, and so is any connection once the pool is closed. A healthy one
    /// goes to the caller that waited longest, or to the idle connections if
    /// nobody waits. The handle must be one that this pool granted: it is
    /// known by its number alone.
    pub fn release(&mut self, conn: Connection) -> (done: Release)
        requires
            old(self)@.wf(),
        ensures
            (final(self)@, done) == old(self)@.release(conn),
            final(self)@.wf(),
    {
        let id = conn.id();
        let at = match place_in_vec(&self.in_use, id) {
            Some(at) => at,
            None => {
                return Release::Foreign(conn);
            },
        };
        if conn.is_poisoned() || self.closed {
            self.in_use.remove(at);
            return Release::Discard(id);
        }
        if self.waiters.len() > 0 {
            let ticket = self.waiters[0];
            self.waiters.pop_front();
            return Release::Handoff(ticket, conn);
        }
        self.in_use.remove(at);
        self.idle.push_back(id);
        Release::Idle(id)
    }

    /// Takes a waiter out of the queue because its deadline passed or it gave
    /// up. Answers `Timeout` if the ticket was still queued; `None` means the
    /// ticket no longer waits: it was served, or sent away by a shutdown.
    pub fn expire(&mut self, ticket: u64) -> (expired: Option<QueryError>)
        requires
            old(self)@.wf(),
        ensures
            (final(self)@, expired) == old(self)@.expire(ticket),
            final(self)@.wf(),
    {
        match place_in_queue(&self.waiters, ticket) {
            Some(at) => {
                self.waiters.remove(at);
                Some(classify(Failure::WaitExpired))
            },
            None => None,
        }
    }

    /// Shuts the pool down. The idle connections are to be destroyed and the
    /// waiters woken with `PoolExhausted`; from now on `acquire` refuses and
    /// every released connection is destroyed.
    pub fn close(&mut self) -> (left: Shutdown)
        requires
            old(self)@.wf(),
        ensures
            final(self)@ == old(self)@.close(),
            left.connections@ == old(self)@.idle,
            left.waiters@ == old(self)@.waiters,
            left.error == QueryError::from_failure(Failure::PoolClosed),
            final(self)@.wf(),
    {
        let mut connections: Vec<u64> = Vec::new();
        let mut waiters: Vec<u64> = Vec::new();
        while self.waiters.len() > 0
            invariant
                self@.wf(),
                connections@ + self@.idle == old(self)@.idle,
                connections@.len() == 0,
                waiters@ + self@.waiters == old(self)@.waiters,
                self@ == (PoolState { waiters: self@.waiters, ..old(self)@ }),
            decreases self.waiters.len(),
        {
            let ticket = self.waiters[0];
            self.waiters.pop_front();
            waiters.push(ticket);
        }
        while self.idle.len() > 0
            invariant
                self@.wf(),
                connections@ + self@.idle == old(self)@.idle,
                waiters@ == old(self)@.waiters,
                self@ == (PoolState { waiters: Seq::empty(), idle: self@.idle, ..old(self)@ }),
            decreases self.idle.len(),
        {
            let id = self.idle[0];
            self.idle.pop_front();
            connections.push(id);
        }
        self.closed = true;
        Shutdown { connections, waiters, error: classify(Failure::PoolClosed) }
    }
}

} // verus!
