//! Backend connections that are kept for reuse.
//!
//! Moments are nanoseconds on a clock that never runs backwards.

use crate::retain;
use std::collections::HashMap;
use vstd::prelude::*;

verus! {

broadcast use vstd::std_specs::hash::group_hash_axioms;

/// A pooled connection is taken to be still usable for so long, in
/// nanoseconds.
pub const REUSE_WINDOW: u64 = 30_000_000_000;

/// A connection that waits for reuse.
#[derive(Debug)]
pub struct PooledConnection<S> {
    pub stream: S,
    pub last_used: u64,
    pub session_id: String,
}

/// Connections that wait for reuse, by backend port.
#[derive(Debug)]
pub struct ConnectionPool<S> {
    connections: HashMap<u16, Vec<PooledConnection<S>>>,
    max_idle_seconds: u64,
    max_pool_size: usize,
}

/// How long ago a moment was; none that lies ahead is long ago.
pub open spec fn age(now: u64, then: u64) -> int {
    if now > then {
        now - then
    } else {
        0
    }
}

pub(crate) fn age_of(now: u64, then: u64) -> (r: u64)
    ensures
        r == age(now, then),
{
    if now > then {
        now - then
    } else {
        0
    }
}

/// The connection was used so lately that it may be reused.
pub open spec fn is_recent<S>(now: u64, conn: PooledConnection<S>) -> bool {
    age(now, conn.last_used) < REUSE_WINDOW
}

/// The first connection that may be reused.
pub open spec fn first_recent<S>(now: u64, conns: Seq<PooledConnection<S>>) -> Option<int>
    decreases conns.len(),
{
    if conns.len() == 0 {
        None
    } else if first_recent(now, conns.drop_last()) is Some {
        first_recent(now, conns.drop_last())
    } else if is_recent(now, conns.last()) {
        Some(conns.len() - 1)
    } else {
        None
    }
}

/// The connection has not been idle for too long.
pub open spec fn is_kept<S>(now: u64, max_idle_seconds: u64, conn: PooledConnection<S>) -> bool {
    age(now, conn.last_used) < max_idle_seconds * 1_000_000_000
}

/// The connections that have not been idle for too long.
pub open spec fn kept<S>(
    now: u64,
    max_idle_seconds: u64,
    conns: Seq<PooledConnection<S>>,
) -> Seq<PooledConnection<S>> {
    conns.filter(|c: PooledConnection<S>| is_kept(now, max_idle_seconds, c))
}

/// The connections of a port; none where the port is not known.
pub open spec fn conns_of<S>(
    pool: Map<u16, Seq<PooledConnection<S>>>,
    port: u16,
) -> Seq<PooledConnection<S>> {
    if pool.contains_key(port) {
        pool[port]
    } else {
        Seq::empty()
    }
}

/// The connections that are left after a cleanup: those not idle for too long,
/// without the ports that have none.
pub open spec fn cleaned<S>(
    now: u64,
    max_idle_seconds: u64,
    pool: Map<u16, Seq<PooledConnection<S>>>,
) -> Map<u16, Seq<PooledConnection<S>>> {
    Map::new(
        |p: u16| pool.contains_key(p) && kept(now, max_idle_seconds, pool[p]).len() > 0,
        |p: u16| kept(now, max_idle_seconds, pool[p]),
    )
}

/// The pool without the connection to a port that may be reused, and that
/// connection.
pub open spec fn taken<S>(pool: Map<u16, Seq<PooledConnection<S>>>, port: u16, now: u64) -> (
    Map<u16, Seq<PooledConnection<S>>>,
    Option<PooledConnection<S>>,
) {
    match first_recent(now, conns_of(pool, port)) {
        Some(i) => (
            pool.insert(port, conns_of(pool, port).remove(i)),
            Some(conns_of(pool, port)[i]),
        ),
        None => (pool, None),
    }
}

/// The pool with a connection to a port that was given back, where the port may
/// have so many.
pub open spec fn given_back<S>(
    pool: Map<u16, Seq<PooledConnection<S>>>,
    port: u16,
    conn: PooledConnection<S>,
    max: nat,
) -> Map<u16, Seq<PooledConnection<S>>> {
    pool.insert(
        port,
        if conns_of(pool, port).len() < max {
            conns_of(pool, port).push(conn)
        } else {
            conns_of(pool, port)
        },
    )
}

/// No port has more connections than allowed.
pub open spec fn is_bounded<S>(pool: Map<u16, Seq<PooledConnection<S>>>, max: nat) -> bool {
    forall|p: u16| #[trigger] pool.contains_key(p) ==> pool[p].len() <= max
}

proof fn lemma_first_recent<S>(now: u64, conns: Seq<PooledConnection<S>>)
    ensures
        match first_recent(now, conns) {
            Some(i) => 0 <= i < conns.len() && is_recent(now, conns[i]) && forall|j: int|
                0 <= j < i ==> !is_recent(now, #[trigger] conns[j]),
            None => forall|j: int| 0 <= j < conns.len() ==> !is_recent(now, #[trigger] conns[j]),
        },
    decreases conns.len(),
{
    if conns.len() > 0 {
        let before = conns.drop_last();
        lemma_first_recent(now, before);
        assert forall|j: int| 0 <= j < before.len() implies before[j] == #[trigger] conns[j] by {}
    }
}

/// Whether so many nanoseconds are fewer than so many seconds.
fn within(nanos: u64, seconds: u64) -> (r: bool)
    ensures
        r == (nanos < seconds * 1_000_000_000),
{
    let bound: u128 = seconds as u128 * 1_000_000_000;
    let span: u128 = nanos as u128;
    span < bound
}

fn find_recent<S>(now: u64, conns: &Vec<PooledConnection<S>>) -> (r: Option<usize>)
    ensures
        match r {
            Some(i) => first_recent(now, conns@) == Some(i as int) && i < conns@.len(),
            None => first_recent(now, conns@) is None,
        },
{
    proof {
        lemma_first_recent(now, conns@);
    }
    let mut i: usize = 0;
    while i < conns.len()
        invariant
            i <= conns@.len(),
            forall|j: int| 0 <= j < i ==> !is_recent(now, #[trigger] conns@[j]),
            match first_recent(now, conns@) {
                Some(k) => 0 <= k < conns@.len() && is_recent(now, conns@[k]) && forall|j: int|
                    0 <= j < k ==> !is_recent(now, #[trigger] conns@[j]),
                None => forall|j: int|
                    0 <= j < conns@.len() ==> !is_recent(now, #[trigger] conns@[j]),
            },
        decreases conns@.len() - i,
    {
        if age_of(now, conns[i].last_used) < REUSE_WINDOW {
            assert(is_recent(now, conns@[i as int]));
            return Some(i);
        }
        i += 1;
    }
    None
}

impl<S> View for ConnectionPool<S> {
    type V = Map<u16, Seq<PooledConnection<S>>>;

    closed spec fn view(&self) -> Map<u16, Seq<PooledConnection<S>>> {
        self.connections@.map_values(|v: Vec<PooledConnection<S>>| v@)
    }
}

impl<S> ConnectionPool<S> {
    /// How many connections a port may have.
    pub closed spec fn max_size(&self) -> nat {
        self.max_pool_size as nat
    }

    /// After how many seconds an idle connection is dropped.
    pub closed spec fn max_idle(&self) -> u64 {
        self.max_idle_seconds
    }

    /// No port has more connections than allowed.
    pub open spec fn wf(&self) -> bool {
        is_bounded(self@, self.max_size())
    }

    /// A pool without connections.
    pub fn new(max_idle_seconds: u64, max_pool_size: usize) -> (r: Self)
        ensures
            r.wf(),
            r@ == Map::<u16, Seq<PooledConnection<S>>>::empty(),
            r.max_size() == max_pool_size,
            r.max_idle() == max_idle_seconds,
    {
        let r = Self { connections: HashMap::new(), max_idle_seconds, max_pool_size };
        assert(r@ =~= Map::<u16, Seq<PooledConnection<S>>>::empty());
        r
    }

    /// Takes a connection to the port out of the pool: the first of those that
    /// may be reused. Where there is none, the caller has to connect anew.
    pub fn get_connection(&mut self, port: u16, now: u64) -> (r: Option<(S, String)>)
        requires
            old(self).wf(),
        ensures
            final(self).wf(),
            final(self).max_size() == old(self).max_size(),
            final(self).max_idle() == old(self).max_idle(),
            match first_recent(now, conns_of(old(self)@, port)) {
                Some(i) => r == Some(
                    (
                        conns_of(old(self)@, port)[i].stream,
                        conns_of(old(self)@, port)[i].session_id,
                    ),
                ) && final(self)@ == old(self)@.insert(port, old(self)@[port].remove(i)),
                None => r is None && final(self)@ == old(self)@,
            },
            final(self)@ == taken(old(self)@, port, now).0,
            match taken(old(self)@, port, now).1 {
                Some(conn) => r == Some((conn.stream, conn.session_id)),
                None => r is None,
            },
    {
        let ghost pool = self@;
        match self.connections.remove(&port) {
            Some(mut conns) => {
                assert(pool[port] == conns@);
                let ghost before = conns@;
                proof {
                    lemma_first_recent(now, before);
                }
                match find_recent(now, &conns) {
                    Some(i) => {
                        let conn = conns.remove(i);
                        self.connections.insert(port, conns);
                        proof {
                            assert(self@ =~= pool.insert(port, before.remove(i as int)));
                        }
                        Some((conn.stream, conn.session_id))
                    },
                    None => {
                        self.connections.insert(port, conns);
                        proof {
                            assert(self@ =~= pool);
                        }
                        None
                    },
                }
            },
            None => {
                proof {
                    assert(self@ =~= pool);
                }
                None
            },
        }
    }

    /// Gives a connection back for reuse. It is dropped where the port has as
    /// many as allowed.
    pub fn return_connection(&mut self, port: u16, stream: S, session_id: String, now: u64)
        requires
            old(self).wf(),
        ensures
            final(self).wf(),
            final(self).max_size() == old(self).max_size(),
            final(self).max_idle() == old(self).max_idle(),
            final(self)@ == old(self)@.insert(
                port,
                if conns_of(old(self)@, port).len() < old(self).max_size() {
                    conns_of(old(self)@, port).push(
                        PooledConnection { stream, last_used: now, session_id },
                    )
                } else {
                    conns_of(old(self)@, port)
                },
            ),
            final(self)@ == given_back(
                old(self)@,
                port,
                PooledConnection { stream, last_used: now, session_id },
                old(self).max_size(),
            ),
    {
        let ghost pool = self@;
        let mut conns = match self.connections.remove(&port) {
            Some(conns) => conns,
            None => Vec::new(),
        };
        assert(conns@ == conns_of(pool, port));
        let ghost before = conns@;
        if conns.len() < self.max_pool_size {
            conns.push(PooledConnection { stream, last_used: now, session_id });
        }
        let ghost after = conns@;
        self.connections.insert(port, conns);
        proof {
            assert(self@ =~= pool.insert(port, after));
        }
    }

    /// The ports that the pool knows.
    fn ports(&self) -> (r: Vec<u16>)
        ensures
            r@.to_set() == self@.dom(),
            r@.no_duplicates(),
    {
        let mut ports: Vec<u16> = Vec::new();
        for port in it: self.connections.keys()
            invariant
                ports@ == it.seq().unref().take(it.index() as int),
                it.index() == it.seq().len() ==> ports@ == it.seq().unref(),
                it.seq().unref().to_set() == self.connections@.dom(),
                it.seq().no_duplicates(),
        {
            ports.push(*port);
        }
        assert(self@.dom() =~= self.connections@.dom());
        ports
    }

    /// Drops the connections that have been idle for too long, and the ports
    /// that are left without any.
    pub fn cleanup(&mut self, now: u64)
        requires
            old(self).wf(),
        ensures
            final(self).wf(),
            final(self).max_size() == old(self).max_size(),
            final(self).max_idle() == old(self).max_idle(),
            final(self)@ == cleaned(now, old(self).max_idle(), old(self)@),
    {
        let ghost pool = self@;
        let limit: u64 = self.max_idle_seconds;
        let ports = self.ports();
        let mut i: usize = 0;
        while i < ports.len()
            invariant
                i <= ports@.len(),
                ports@.to_set() == pool.dom(),
                ports@.no_duplicates(),
                limit == self.max_idle_seconds,
                self.max_size() == old(self).max_size(),
                self.max_idle() == old(self).max_idle(),
                forall|p: u16|
                    ports@.take(i as int).contains(p) ==> (#[trigger] self@.contains_key(p)
                        == cleaned(now, limit, pool).contains_key(p)) && (self@.contains_key(p)
                        ==> self@[p] == cleaned(now, limit, pool)[p]),
                forall|p: u16|
                    !ports@.take(i as int).contains(p) ==> (#[trigger] self@.contains_key(p)
                        == pool.contains_key(p)) && (self@.contains_key(p) ==> self@[p]
                        == pool[p]),
            decreases ports@.len() - i,
        {
            let port = ports[i];
            proof {
                assert(ports@.to_set().contains(port));
                assert(!ports@.take(i as int).contains(port));
                assert(self@.contains_key(port));
            }
            let ghost before = self@;
            if let Some(mut conns) = self.connections.remove(&port) {
                assert(conns@ == pool[port]);
                let keep = |c: &PooledConnection<S>| -> (r: bool)
                    ensures
                        r == is_kept(now, limit, *c),
                {
                    within(age_of(now, c.last_used), limit)
                };
                retain::retain(
                    &mut conns,
                    keep,
                    Ghost(|c: PooledConnection<S>| is_kept(now, limit, c)),
                );
                let ghost left = conns@;
                assert(left == kept(now, limit, pool[port]));
                if conns.len() > 0 {
                    self.connections.insert(port, conns);
                }
                proof {
                    assert(self@ =~= if left.len() > 0 {
                        before.insert(port, left)
                    } else {
                        before.remove(port)
                    });
                }
            }
            proof {
                let seen = ports@.take(i as int);
                let wider = ports@.take(i + 1);
                assert(wider =~= seen.push(port));
                assert forall|p: u16| #[trigger] wider.contains(p) == (seen.contains(p) || p
                    == port) by {
                    if p == port {
                        assert(wider[i as int] == p);
                    } else if seen.contains(p) {
                        let k = choose|k: int| 0 <= k < seen.len() && seen[k] == p;
                        assert(wider[k] == p);
                    } else if wider.contains(p) {
                        let k = choose|k: int| 0 <= k < wider.len() && wider[k] == p;
                        assert(seen[k] == p);
                    }
                }
            }
            i += 1;
        }
        proof {
            assert(ports@.take(i as int) =~= ports@);
            assert forall|p: u16| #[trigger] pool.contains_key(p) == ports@.contains(p) by {
                assert(ports@.to_set().contains(p) == ports@.contains(p));
            }
            assert(self@ =~= cleaned(now, limit, pool));
            assert forall|p: u16| #[trigger] self@.contains_key(p) implies self@[p].len()
                <= self.max_size() by {
                pool[p].lemma_filter_len(|c: PooledConnection<S>| is_kept(now, limit, c));
            }
        }
    }
}

// ---------------------------------------------------------------------------
// Laws
// ---------------------------------------------------------------------------

/// A connection that was given back to a port without others is the one that
/// the next to ask within the reuse window gets.
pub proof fn returned_connection_is_reused<S>(
    pool: Map<u16, Seq<PooledConnection<S>>>,
    port: u16,
    conn: PooledConnection<S>,
    now: u64,
)
    requires
        conns_of(pool, port).len() == 0,
        age(now, conn.last_used) < REUSE_WINDOW,
    ensures
        first_recent(
            now,
            conns_of(pool.insert(port, conns_of(pool, port).push(conn)), port),
        ) == Some(0int),
{
    let conns = conns_of(pool.insert(port, conns_of(pool, port).push(conn)), port);
    assert(conns =~= seq![conn]);
    assert(first_recent(now, conns.drop_last()) is None);
}

/// What is taken from the pool was used within the reuse window, and nothing
/// that stands before it was.
pub proof fn reused_connections_are_recent<S>(now: u64, conns: Seq<PooledConnection<S>>)
    ensures
        first_recent(now, conns) matches Some(i) ==> 0 <= i < conns.len() && age(
            now,
            conns[i].last_used,
        ) < REUSE_WINDOW && forall|j: int|
            0 <= j < i ==> !is_recent(now, #[trigger] conns[j]),
{
    lemma_first_recent(now, conns);
}

/// After a cleanup no connection has been idle for too long, and every port
/// has a connection.
pub proof fn cleanup_leaves_no_idle_connections<S>(
    now: u64,
    max_idle_seconds: u64,
    pool: Map<u16, Seq<PooledConnection<S>>>,
    port: u16,
    i: int,
)
    requires
        cleaned(now, max_idle_seconds, pool).contains_key(port),
        0 <= i < cleaned(now, max_idle_seconds, pool)[port].len(),
    ensures
        is_kept(now, max_idle_seconds, cleaned(now, max_idle_seconds, pool)[port][i]),
        cleaned(now, max_idle_seconds, pool)[port].len() > 0,
{
    let keep = |c: PooledConnection<S>| is_kept(now, max_idle_seconds, c);
    broadcast use vstd::seq_lib::group_filter_ensures;

    assert(keep(pool[port].filter(keep)[i]));
}

/// Cleaning up twice at the same moment is cleaning up once.
pub proof fn cleanup_is_idempotent<S>(
    now: u64,
    max_idle_seconds: u64,
    pool: Map<u16, Seq<PooledConnection<S>>>,
)
    ensures
        cleaned(now, max_idle_seconds, cleaned(now, max_idle_seconds, pool)) == cleaned(
            now,
            max_idle_seconds,
            pool,
        ),
{
    let once = cleaned(now, max_idle_seconds, pool);
    let keep = |c: PooledConnection<S>| is_kept(now, max_idle_seconds, c);
    assert forall|p: u16| #[trigger] once.contains_key(p) implies kept(
        now,
        max_idle_seconds,
        once[p],
    ) == once[p] by {
        lemma_filter_all(pool[p], keep);
    }
    assert(cleaned(now, max_idle_seconds, once) =~= once);
}

/// Filtering what was filtered changes nothing.
proof fn lemma_filter_all<A>(s: Seq<A>, p: spec_fn(A) -> bool)
    ensures
        s.filter(p).filter(p) == s.filter(p),
    decreases s.len(),
{
    reveal(Seq::filter);
    if s.len() > 0 {
        lemma_filter_all(s.drop_last(), p);
        if p(s.last()) {
            assert(s.filter(p).drop_last() =~= s.drop_last().filter(p));
        }
    }
}

/// Age is the time since a moment, and nothing where the moment lies ahead.
pub proof fn age_is_the_time_since(now: u64, then: u64, later: u64)
    ensures
        now >= then ==> age(now, then) == now - then,
        now <= then ==> age(now, then) == 0,
        now <= later ==> age(now, then) <= age(later, then),
{
}

/// Who asks for a connection gets the first that was used less than half a minute
/// ago, wherever among the connections of the port it stands, and that one leaves
/// the pool. The others stay, in their order, and so do those of other ports. Where
/// none was used so lately, nothing leaves.
pub proof fn recent_connections_are_handed_out<S>(
    pool: Map<u16, Seq<PooledConnection<S>>>,
    port: u16,
    now: u64,
    i: int,
)
    ensures
        0 <= i < conns_of(pool, port).len() && age(now, conns_of(pool, port)[i].last_used)
            < 30_000_000_000 && (forall|j: int|
            0 <= j < i ==> age(now, (#[trigger] conns_of(pool, port)[j]).last_used)
                >= 30_000_000_000) ==> {
            &&& taken(pool, port, now).1 == Some(conns_of(pool, port)[i])
            &&& conns_of(taken(pool, port, now).0, port) == conns_of(pool, port).take(i) + conns_of(
                pool,
                port,
            ).skip(i + 1)
        },
        (forall|j: int|
            0 <= j < conns_of(pool, port).len() ==> age(
                now,
                (#[trigger] conns_of(pool, port)[j]).last_used,
            ) >= 30_000_000_000) ==> taken(pool, port, now) == (
            pool,
            None::<PooledConnection<S>>,
        ),
        forall|p: u16| p != port ==> conns_of(taken(pool, port, now).0, p) == #[trigger] conns_of(
            pool,
            p,
        ),
{
    let conns = conns_of(pool, port);
    lemma_first_recent(now, conns);
    if 0 <= i < conns.len() && age(now, conns[i].last_used) < 30_000_000_000 && (forall|j: int|
        0 <= j < i ==> age(now, (#[trigger] conns[j]).last_used) >= 30_000_000_000) {
        assert(is_recent(now, conns[i]));
        let k = first_recent(now, conns)->Some_0;
        if k < i {
            assert(age(now, conns[k].last_used) >= 30_000_000_000);
        }
        assert(k == i);
        assert(conns.remove(i) =~= conns.take(i) + conns.skip(i + 1));
    }
}

/// A connection that is given back stands behind the others of its port, unless
/// these are as many as allowed: then it is dropped. Those of other ports stay.
pub proof fn connections_are_given_back<S>(
    pool: Map<u16, Seq<PooledConnection<S>>>,
    port: u16,
    conn: PooledConnection<S>,
    max: nat,
)
    ensures
        conns_of(pool, port).len() < max ==> conns_of(given_back(pool, port, conn, max), port)
            == conns_of(pool, port).push(conn),
        conns_of(pool, port).len() >= max ==> conns_of(given_back(pool, port, conn, max), port)
            == conns_of(pool, port),
        forall|p: u16| p != port ==> conns_of(given_back(pool, port, conn, max), p)
            == #[trigger] conns_of(pool, p),
        is_bounded(pool, max) ==> is_bounded(given_back(pool, port, conn, max), max),
{
    if is_bounded(pool, max) {
        assert forall|p: u16| #[trigger]
            given_back(pool, port, conn, max).contains_key(p) implies given_back(
            pool,
            port,
            conn,
            max,
        )[p].len() <= max by {
            if p != port {
                assert(pool.contains_key(p));
            } else if pool.contains_key(port) {
                assert(pool[port].len() <= max);
            }
        }
    }
}

/// A connection that is given back is handed out to the next that asks within half
/// a minute, where no other of the port was used so lately, and the pool is then as
/// it was.
pub proof fn given_back_connections_are_handed_out<S>(
    pool: Map<u16, Seq<PooledConnection<S>>>,
    port: u16,
    conn: PooledConnection<S>,
    max: nat,
    now: u64,
)
    requires
        conns_of(pool, port).len() < max,
        age(now, conn.last_used) < 30_000_000_000,
        forall|j: int|
            0 <= j < conns_of(pool, port).len() ==> age(
                now,
                (#[trigger] conns_of(pool, port)[j]).last_used,
            ) >= 30_000_000_000,
    ensures
        taken(given_back(pool, port, conn, max), port, now).1 == Some(conn),
        conns_of(taken(given_back(pool, port, conn, max), port, now).0, port) == conns_of(
            pool,
            port,
        ),
{
    let more = given_back(pool, port, conn, max);
    let conns = conns_of(pool, port);
    let i = conns.len() as int;
    assert(conns_of(more, port) =~= conns.push(conn));
    assert forall|j: int| 0 <= j < i implies age(
        now,
        (#[trigger] conns_of(more, port)[j]).last_used,
    ) >= 30_000_000_000 by {
        assert(conns_of(more, port)[j] == conns[j]);
    }
    recent_connections_are_handed_out(more, port, now, i);
    assert(conns.push(conn).take(i) + conns.push(conn).skip(i + 1) =~= conns);
}

/// A cleanup keeps exactly the connections that were used less than the allowed
/// number of seconds ago, in their order, and the ports that have any of them.
pub proof fn cleanup_keeps_what_was_used<S>(
    now: u64,
    max_idle_seconds: u64,
    pool: Map<u16, Seq<PooledConnection<S>>>,
    port: u16,
)
    ensures
        conns_of(cleaned(now, max_idle_seconds, pool), port) == conns_of(pool, port).filter(
            |c: PooledConnection<S>| age(now, c.last_used) < max_idle_seconds * 1_000_000_000,
        ),
        forall|i: int|
            0 <= i < conns_of(pool, port).len() && age(
                now,
                (#[trigger] conns_of(pool, port)[i]).last_used,
            ) < max_idle_seconds * 1_000_000_000 ==> conns_of(
                cleaned(now, max_idle_seconds, pool),
                port,
            ).contains(conns_of(pool, port)[i]),
        cleaned(now, max_idle_seconds, pool).contains_key(port) == (conns_of(
            cleaned(now, max_idle_seconds, pool),
            port,
        ).len() > 0),
{
    broadcast use vstd::seq_lib::group_filter_ensures;

    let conns = conns_of(pool, port);
    let keep = |c: PooledConnection<S>| is_kept(now, max_idle_seconds, c);
    let same = |c: PooledConnection<S>|
        age(now, c.last_used) < max_idle_seconds * 1_000_000_000;
    assert(keep =~= same);
    let left = conns_of(cleaned(now, max_idle_seconds, pool), port);
    if !pool.contains_key(port) {
        reveal(Seq::filter);
        assert(conns.filter(same) =~= Seq::empty());
    }
    assert(left =~= conns.filter(same));
    assert forall|i: int|
        0 <= i < conns.len() && age(now, (#[trigger] conns[i]).last_used) < max_idle_seconds
            * 1_000_000_000 implies left.contains(conns[i]) by {
        assert(same(conns[i]));
        conns.lemma_filter_contains(same, i);
    }
}

} // verus!
