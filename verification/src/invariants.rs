//! What holds of the pool whatever its callers do, proved over the pool's
//! mathematical state.

use crate::connection::Connection;
use crate::error::{QueryError, QueryErrorKind};
use crate::guard::Outcome;
use crate::pool::{Acquire, PoolState, Release};
use vstd::prelude::*;

verus! {

/// One thing that can happen to a pool.
pub enum Event {
    /// A caller asks for a connection and would wait this many milliseconds.
    Acquire(u64),
    /// A holder gives this connection back.
    Release(Connection),
    /// The deadline of this ticket passes.
    Expire(u64),
    /// The pool is shut down.
    Close,
}

/// The pool after one event.
pub open spec fn step(s: PoolState, e: Event) -> PoolState {
    match e {
        Event::Acquire(timeout_ms) => s.acquire(timeout_ms).0,
        Event::Release(conn) => s.release(conn).0,
        Event::Expire(ticket) => s.expire(ticket).0,
        Event::Close => s.close(),
    }
}

/// The pool after a sequence of events, first to last.
pub open spec fn run(s: PoolState, events: Seq<Event>) -> PoolState
    decreases events.len(),
{
    if events.len() == 0 {
        s
    } else {
        step(run(s, events.drop_last()), events.last())
    }
}

/// Whether `x` stands before `y` in `s`.
pub open spec fn before(s: Seq<u64>, x: u64, y: u64) -> bool {
    exists|i: int, j: int| 0 <= i < j < s.len() && s[i] == x && s[j] == y
}

/// Taking a value out of a sequence without repeats takes out exactly that
/// value and leaves the rest in order.
pub proof fn lemma_remove_value(s: Seq<u64>, x: u64)
    requires
        s.no_duplicates(),
        s.contains(x),
    ensures
        s.remove_value(x).len() == s.len() - 1,
        s.remove_value(x).no_duplicates(),
        !s.remove_value(x).contains(x),
        forall|y: u64| y != x ==> (s.remove_value(x).contains(y) <==> s.contains(y)),
        forall|j: int|
            0 <= j < s.remove_value(x).len() ==> s.contains(#[trigger] s.remove_value(x)[j]),
        forall|y: u64, z: u64| before(s.remove_value(x), y, z) ==> before(s, y, z),
{
    s.index_of_first_ensures(x);
    let k = s.index_of_first(x)->0;
    let r = s.remove(k);
    assert(r == s.remove_value(x));
    assert forall|j: int| 0 <= j < r.len() implies r[j] == (if j < k {
        s[j]
    } else {
        s[j + 1]
    }) by {}
    assert forall|y: u64| y != x implies (r.contains(y) <==> s.contains(y)) by {
        if s.contains(y) {
            let i = choose|i: int| 0 <= i < s.len() && s[i] == y;
            if i < k {
                assert(r[i] == y);
            } else {
                assert(r[i - 1] == y);
            }
        }
    }
    assert forall|y: u64, z: u64| before(r, y, z) implies before(s, y, z) by {
        let (i, j) = choose|i: int, j: int| 0 <= i < j < r.len() && r[i] == y && r[j] == z;
        let i2 = if i < k {
            i
        } else {
            i + 1
        };
        let j2 = if j < k {
            j
        } else {
            j + 1
        };
        assert(0 <= i2 < j2 < s.len() && s[i2] == y && s[j2] == z);
    }
}

/// Every transition keeps the pool well formed; in particular no more
/// connections live than the capacity allows, and no connection is idle and
/// checked out at once, or checked out twice.
pub proof fn lemma_step_keeps_wf(s: PoolState, e: Event)
    requires
        s.wf(),
    ensures
        step(s, e).wf(),
        step(s, e).capacity == s.capacity,
        step(s, e).max_waiters == s.max_waiters,
        step(s, e).live() <= s.capacity,
{
    match e {
        Event::Acquire(timeout_ms) => {},
        Event::Release(conn) => {
            if s.in_use.contains(conn.id()) {
                lemma_remove_value(s.in_use, conn.id());
            }
        },
        Event::Expire(ticket) => {
            if s.waiters.contains(ticket) {
                lemma_remove_value(s.waiters, ticket);
            }
        },
        Event::Close => {},
    }
}

/// Capacity invariant: whatever the callers do, from a new pool on, the pool
/// stays well formed and never has more live connections than its capacity.
pub proof fn lemma_capacity_is_never_exceeded(
    capacity: nat,
    max_waiters: nat,
    events: Seq<Event>,
)
    ensures
        run(PoolState::new(capacity, max_waiters), events).wf(),
        run(PoolState::new(capacity, max_waiters), events).capacity == capacity,
        run(PoolState::new(capacity, max_waiters), events).live() <= capacity,
    decreases events.len(),
{
    if events.len() > 0 {
        lemma_capacity_is_never_exceeded(capacity, max_waiters, events.drop_last());
        lemma_step_keeps_wf(
            run(PoolState::new(capacity, max_waiters), events.drop_last()),
            events.last(),
        );
    }
}

/// Exclusivity: a connection that `acquire` grants was held by nobody, is
/// checked out exactly once afterwards, and is not idle.
pub proof fn lemma_grant_is_exclusive(s: PoolState, timeout_ms: u64)
    requires
        s.wf(),
    ensures
        match s.acquire(timeout_ms).1 {
            Acquire::Ready(c) | Acquire::Create(c) => {
                &&& !c.is_poisoned()
                &&& !s.in_use.contains(c.id())
                &&& s.acquire(timeout_ms).0.in_use.contains(c.id())
                &&& s.acquire(timeout_ms).0.in_use.no_duplicates()
                &&& !s.acquire(timeout_ms).0.idle.contains(c.id())
            },
            _ => s.acquire(timeout_ms).0.in_use == s.in_use,
        },
{
    broadcast use Connection::lemma_with;

    let t = s.acquire(timeout_ms).0;
    match s.acquire(timeout_ms).1 {
        Acquire::Ready(c) => {
            assert(t.in_use.last() == c.id());
        },
        Acquire::Create(c) => {
            assert(t.in_use.last() == c.id());
        },
        _ => {},
    }
    lemma_step_keeps_wf(s, Event::Acquire(timeout_ms));
}

/// Exclusivity at a handoff: the connection passes from the holder that
/// released it to the waiter, and stays checked out exactly once.
pub proof fn lemma_handoff_is_exclusive(s: PoolState, conn: Connection)
    requires
        s.wf(),
    ensures
        s.release(conn).1 matches Release::Handoff(ticket, passed) ==> {
            &&& passed == conn
            &&& s.release(conn).0.in_use == s.in_use
            &&& s.in_use.no_duplicates()
            &&& s.in_use.contains(conn.id())
            &&& !s.release(conn).0.idle.contains(conn.id())
        },
{
}

/// Return guarantee: when a holder gives a connection back, a poisoned one
/// is gone and its slot is free; a healthy one is idle again, or in the hands
/// of the longest waiter. Either way the next `acquire` finds it or finds
/// room for a new one.
pub proof fn lemma_release_returns(s: PoolState, conn: Connection)
    requires
        s.wf(),
        s.in_use.contains(conn.id()),
    ensures
        ({
            let (t, done) = s.release(conn);
            if conn.is_poisoned() || s.closed {
                &&& done == Release::Discard(conn.id())
                &&& !t.holds(conn.id())
                &&& t.live() == s.live() - 1
                &&& t.idle == s.idle
                &&& t.waiters == s.waiters
            } else if s.waiters.len() > 0 {
                &&& done == Release::Handoff(s.waiters[0], conn)
                &&& t.in_use.contains(conn.id())
                &&& t.live() == s.live()
                &&& t.idle == s.idle
                &&& t.waiters == s.waiters.drop_first()
            } else {
                &&& done == Release::Idle(conn.id())
                &&& t.idle == s.idle.push(conn.id())
                &&& !t.in_use.contains(conn.id())
                &&& t.live() == s.live()
                &&& !t.exhausted()
            }
        }),
{
    lemma_remove_value(s.in_use, conn.id());
    let (t, done) = s.release(conn);
    if !(conn.is_poisoned() || s.closed) && s.waiters.len() == 0 {
        assert(t.idle.last() == conn.id());
    }
    if conn.is_poisoned() || s.closed {
        assert(!t.idle.contains(conn.id())) by {
            if t.idle.contains(conn.id()) {
                let i = choose|i: int| 0 <= i < s.idle.len() && s.idle[i] == conn.id();
                let j = choose|j: int| 0 <= j < s.in_use.len() && s.in_use[j] == conn.id();
                assert(s.idle[i] != s.in_use[j]);
            }
        }
    }
}

/// Return guarantee, seen from the next caller. While the pool is in
/// service, with nothing idle and nobody waiting, a connection given back
/// healthy is the one the next `acquire` hands out, and no new one is
/// started; a connection given back poisoned is destroyed, and the next
/// `acquire` starts a new one under a number never used before. Either way
/// as many connections live afterwards as before, never more than the
/// capacity. (A new connection needs an unused number.)
pub proof fn lemma_release_then_acquire(s: PoolState, conn: Connection, timeout_ms: u64)
    requires
        s.wf(),
        !s.closed,
        s.in_use.contains(conn.id()),
        s.idle.len() == 0,
        s.waiters.len() == 0,
        conn.is_poisoned() ==> s.next_connection < u64::MAX,
    ensures
        ({
            let (t, done) = s.release(conn);
            let (u, granted) = t.acquire(timeout_ms);
            &&& u.wf()
            &&& u.live() == s.live()
            &&& u.live() <= u.capacity
            &&& if conn.is_poisoned() {
                &&& done == Release::Discard(conn.id())
                &&& t.live() == s.live() - 1
                &&& granted == Acquire::Create(Connection::healthy(s.next_connection))
                &&& s.next_connection != conn.id()
                &&& !u.holds(conn.id())
            } else {
                &&& done == Release::Idle(conn.id())
                &&& granted == Acquire::Ready(conn)
                &&& u.next_connection == s.next_connection
                &&& u.in_use.contains(conn.id())
                &&& u.idle.len() == 0
            }
        }),
{
    broadcast use Connection::lemma_with, Connection::lemma_parts;

    lemma_release_returns(s, conn);
    lemma_step_keeps_wf(s, Event::Release(conn));
    let t = s.release(conn).0;
    lemma_step_keeps_wf(t, Event::Acquire(timeout_ms));
    let u = t.acquire(timeout_ms).0;
    let j = choose|j: int| 0 <= j < s.in_use.len() && s.in_use[j] == conn.id();
    assert(s.in_use[j] < s.next_connection);
    if conn.is_poisoned() {
        lemma_gone_stays_gone(t, conn.id(), Event::Acquire(timeout_ms));
    } else {
        assert(t.idle =~= seq![conn.id()]);
        assert(u.in_use.last() == conn.id());
    }
}

/// Return guarantee for every way a unit of work can end. Whether the work
/// returned a value, failed or panicked, the guard's connection is given
/// back as that outcome left it, and the next `acquire` gets it again if it
/// is still healthy, or a new one if it is not.
pub proof fn lemma_scope_end<T>(
    s: PoolState,
    conn: Connection,
    outcome: Outcome<T>,
    timeout_ms: u64,
)
    requires
        s.wf(),
        !s.closed,
        s.in_use.contains(conn.id()),
        s.idle.len() == 0,
        s.waiters.len() == 0,
        s.next_connection < u64::MAX,
    ensures
        ({
            let left = outcome.leaves(conn);
            let (t, done) = s.release(left);
            let (u, granted) = t.acquire(timeout_ms);
            &&& left.id() == conn.id()
            &&& left.is_poisoned() == (conn.is_poisoned() || outcome.poisons())
            &&& u.live() == s.live()
            &&& u.live() <= u.capacity
            &&& if left.is_poisoned() {
                granted == Acquire::Create(Connection::healthy(s.next_connection))
            } else {
                granted == Acquire::Ready(conn)
            }
        }),
{
    broadcast use Connection::lemma_with, Connection::lemma_parts;

    lemma_release_then_acquire(s, outcome.leaves(conn), timeout_ms);
}

/// Round trip: taking an idle connection and giving it straight back leaves
/// as many idle and as many live connections as before, the same connections
/// checked out and the same callers waiting.
pub proof fn lemma_round_trip(s: PoolState, timeout_ms: u64)
    requires
        s.wf(),
        !s.closed,
        s.idle.len() > 0,
    ensures
        s.acquire(timeout_ms).1 == Acquire::Ready(Connection::healthy(s.idle[0])),
        ({
            let (t, granted) = s.acquire(timeout_ms);
            let (u, done) = t.release(Connection::healthy(s.idle[0]));
            &&& done == Release::Idle(s.idle[0])
            &&& u.idle.len() == s.idle.len()
            &&& u.live() == s.live()
            &&& u.in_use == s.in_use
            &&& u.waiters == s.waiters
            &&& u.idle == s.idle.drop_first().push(s.idle[0])
        }),
{
    broadcast use Connection::lemma_with;

    let id = s.idle[0];
    let t = s.acquire(timeout_ms).0;
    lemma_step_keeps_wf(s, Event::Acquire(timeout_ms));
    assert(t.in_use.last() == id);
    assert(t.in_use.contains(id));
    assert(!s.in_use.contains(id)) by {
        if s.in_use.contains(id) {
            let j = choose|j: int| 0 <= j < s.in_use.len() && s.in_use[j] == id;
            assert(s.idle[0] != s.in_use[j]);
        }
    }
    lemma_last_out(s.in_use, id);
}

/// Pushing a new value and taking it out again gives the sequence back.
proof fn lemma_last_out(s: Seq<u64>, x: u64)
    requires
        !s.contains(x),
    ensures
        s.push(x).remove_value(x) == s,
{
    let p = s.push(x);
    assert(p[s.len() as int] == x);
    p.index_of_first_ensures(x);
    let k = p.index_of_first(x)->0;
    if k < s.len() {
        assert(s[k] == x);
        assert(s.contains(x));
    }
    assert(p.remove(k) =~= s);
}

/// Round trip through a new connection: a pool under capacity with nothing
/// idle starts a connection, and once that is given back healthy it is kept,
/// so one more connection lives and one more is idle than before.
pub proof fn lemma_round_trip_through_create(s: PoolState, timeout_ms: u64)
    requires
        s.wf(),
        !s.closed,
        s.idle.len() == 0,
        s.in_use.len() < s.capacity,
        s.next_connection < u64::MAX,
    ensures
        s.acquire(timeout_ms).1 == Acquire::Create(Connection::healthy(s.next_connection)),
        ({
            let (t, granted) = s.acquire(timeout_ms);
            let (u, done) = t.release(Connection::healthy(s.next_connection));
            if s.waiters.len() == 0 {
                &&& done == Release::Idle(s.next_connection)
                &&& u.idle == seq![s.next_connection]
                &&& u.live() == s.live() + 1
                &&& u.in_use == s.in_use
            } else {
                &&& done == Release::Handoff(
                    s.waiters[0],
                    Connection::healthy(s.next_connection),
                )
                &&& u.live() == s.live() + 1
            }
        }),
{
    broadcast use Connection::lemma_with;

    let id = s.next_connection;
    let t = s.acquire(timeout_ms).0;
    assert(t.in_use.last() == id);
    assert(t.in_use.contains(id));
    assert(!s.in_use.contains(id)) by {
        if s.in_use.contains(id) {
            let j = choose|j: int| 0 <= j < s.in_use.len() && s.in_use[j] == id;
            assert(s.in_use[j] < s.next_connection);
        }
    }
    lemma_last_out(s.in_use, id);
    if s.waiters.len() == 0 {
        assert(t.release(Connection::healthy(id)).0.idle =~= seq![id]);
    }
}

/// First in, first out: a released healthy connection goes to the ticket at
/// the head of the queue, ahead of the idle connections, and the tickets
/// behind it move up in order.
pub proof fn lemma_longest_waiter_is_served(s: PoolState, conn: Connection)
    requires
        s.wf(),
        s.in_use.contains(conn.id()),
        !conn.is_poisoned(),
        !s.closed,
        s.waiters.len() > 0,
    ensures
        s.release(conn).1 == Release::Handoff(s.waiters[0], conn),
        s.release(conn).0.waiters == s.waiters.drop_first(),
        s.release(conn).0.idle == s.idle,
        s.idle.len() == 0,
{
}

/// First in, first out: a caller that queues stands behind everybody who
/// queued before.
pub proof fn lemma_newcomer_queues_last(s: PoolState, timeout_ms: u64)
    requires
        s.wf(),
    ensures
        s.acquire(timeout_ms).1 matches Acquire::Wait(ticket) ==> {
            &&& s.acquire(timeout_ms).0.waiters == s.waiters.push(ticket)
            &&& !s.waiters.contains(ticket)
            &&& timeout_ms > 0
            &&& s.exhausted()
        },
{
    if s.acquire(timeout_ms).1 is Wait {
        if s.waiters.contains(s.next_ticket) {
            let i = choose|i: int| 0 <= i < s.waiters.len() && s.waiters[i] == s.next_ticket;
            assert(s.waiters[i] < s.next_ticket);
        }
    }
}

/// First in, first out: no event lets a waiter overtake another. Two
/// tickets that both still wait after the event stand in the order in which
/// they stood before, and a ticket is only ever served from the head.
pub proof fn lemma_nobody_overtakes(s: PoolState, e: Event, x: u64, y: u64)
    requires
        s.wf(),
        s.waiters.contains(x),
        s.waiters.contains(y),
        before(step(s, e).waiters, x, y),
    ensures
        before(s.waiters, x, y),
{
    let t = step(s, e);
    let (i, j) = choose|i: int, j: int|
        0 <= i < j < t.waiters.len() && t.waiters[i] == x && t.waiters[j] == y;
    match e {
        Event::Acquire(timeout_ms) => {
            if s.acquire(timeout_ms).1 is Wait {
                lemma_newcomer_queues_last(s, timeout_ms);
                assert(j < s.waiters.len()) by {
                    if j == s.waiters.len() {
                        assert(t.waiters[j] == s.next_ticket);
                    }
                }
                assert(s.waiters[i] == x && s.waiters[j] == y);
            } else {
                assert(t.waiters == s.waiters);
            }
        },
        Event::Release(conn) => {
            if s.release(conn).1 is Handoff {
                assert(s.waiters[i + 1] == x && s.waiters[j + 1] == y);
            } else {
                assert(t.waiters == s.waiters);
            }
        },
        Event::Expire(ticket) => {
            if s.waiters.contains(ticket) {
                lemma_remove_value(s.waiters, ticket);
            }
        },
        Event::Close => {},
    }
}

/// No waiting without a deadline to wait for: with a timeout of zero an
/// exhausted pool answers at once and changes nothing: `Timeout` where the
/// caller could have queued, `PoolExhausted` where it could not.
pub proof fn lemma_zero_timeout_never_waits(s: PoolState)
    requires
        s.wf(),
        !s.closed,
        s.exhausted(),
    ensures
        s.acquire(0).0 == s,
        (s.acquire(0).1 matches Acquire::Refused(e) && e.kind() == (if s.may_queue() {
            QueryErrorKind::Timeout
        } else {
            QueryErrorKind::PoolExhausted
        }) && e.cause() is None),
{
    broadcast use QueryError::lemma_from_failure;

}

/// An exhausted pool never makes a caller wait who may not queue, and a
/// closed pool refuses everybody with `PoolExhausted`.
pub proof fn lemma_refusals(s: PoolState, timeout_ms: u64)
    requires
        s.wf(),
    ensures
        s.closed ==> (s.acquire(timeout_ms).1 matches Acquire::Refused(e) && e.kind()
            == QueryErrorKind::PoolExhausted),
        !s.closed && s.exhausted() && !s.may_queue() ==> (s.acquire(timeout_ms).1 matches Acquire::Refused(
            e,
        ) && e.kind() == QueryErrorKind::PoolExhausted),
        s.acquire(timeout_ms).1 is Refused ==> s.acquire(timeout_ms).0 == s,
        s.acquire(0).1 !is Wait,
{
    broadcast use QueryError::lemma_from_failure;

}

/// An expired deadline is reported as `Timeout` exactly when the ticket was
/// still queued, and then only that ticket leaves the queue.
pub proof fn lemma_expiry(s: PoolState, ticket: u64)
    requires
        s.wf(),
    ensures
        s.waiters.contains(ticket) ==> {
            &&& (s.expire(ticket).1 matches Some(e) && e.kind() == QueryErrorKind::Timeout)
            &&& !s.expire(ticket).0.waiters.contains(ticket)
            &&& s.expire(ticket).0.waiters.len() == s.waiters.len() - 1
        },
        !s.waiters.contains(ticket) ==> s.expire(ticket) == (s, None::<QueryError>),
        s.expire(ticket).0.idle == s.idle,
        s.expire(ticket).0.in_use == s.in_use,
{
    broadcast use QueryError::lemma_from_failure;

    if s.waiters.contains(ticket) {
        lemma_remove_value(s.waiters, ticket);
    }
}

/// A connection that left the pool does not come back: once a number is
/// neither idle nor checked out, no event brings it in again and `acquire`
/// never grants it.
pub proof fn lemma_gone_stays_gone(s: PoolState, id: u64, e: Event)
    requires
        s.wf(),
        id < s.next_connection,
        !s.holds(id),
    ensures
        !step(s, e).holds(id),
        id < step(s, e).next_connection,
        e matches Event::Acquire(timeout_ms) ==> match s.acquire(timeout_ms).1 {
            Acquire::Ready(c) | Acquire::Create(c) => c.id() != id,
            _ => true,
        },
{
    broadcast use Connection::lemma_with;

    let t = step(s, e);
    lemma_step_keeps_wf(s, e);
    match e {
        Event::Acquire(timeout_ms) => {
            if t.in_use.contains(id) {
                let j = choose|j: int| 0 <= j < t.in_use.len() && t.in_use[j] == id;
                if j < s.in_use.len() {
                    assert(s.in_use[j] == id);
                } else if s.idle.len() > 0 {
                    assert(s.idle[0] == id);
                }
            }
            if t.idle.contains(id) {
                let j = choose|j: int| 0 <= j < t.idle.len() && t.idle[j] == id;
                assert(s.idle[j + 1] == id);
            }
        },
        Event::Release(conn) => {
            if s.in_use.contains(conn.id()) {
                lemma_remove_value(s.in_use, conn.id());
                if t.idle.contains(id) {
                    let j = choose|j: int| 0 <= j < t.idle.len() && t.idle[j] == id;
                    if j < s.idle.len() {
                        assert(s.idle[j] == id);
                    }
                }
            }
        },
        Event::Expire(ticket) => {},
        Event::Close => {},
    }
}

/// A poisoned connection is never handed out again: after its release it is
/// gone, and it stays gone whatever happens afterwards.
pub proof fn lemma_poisoned_never_returns(s: PoolState, conn: Connection, events: Seq<Event>)
    requires
        s.wf(),
        s.in_use.contains(conn.id()),
        conn.is_poisoned(),
    ensures
        s.release(conn).1 == Release::Discard(conn.id()),
        !run(s.release(conn).0, events).holds(conn.id()),
        run(s.release(conn).0, events).wf(),
        conn.id() < run(s.release(conn).0, events).next_connection,
    decreases events.len(),
{
    lemma_release_returns(s, conn);
    lemma_step_keeps_wf(s, Event::Release(conn));
    let j = choose|j: int| 0 <= j < s.in_use.len() && s.in_use[j] == conn.id();
    assert(s.in_use[j] < s.next_connection);
    if events.len() > 0 {
        lemma_poisoned_never_returns(s, conn, events.drop_last());
        let before_last = run(s.release(conn).0, events.drop_last());
        lemma_step_keeps_wf(before_last, events.last());
        lemma_gone_stays_gone(before_last, conn.id(), events.last());
    }
}

} // verus!
