//! The handshakes that are under way.

use crate::client::connection;
use crate::retain;
use crate::server::types::ProxyClientInfo;
use crate::text;
use vstd::prelude::*;

verus! {

/// After so many seconds without activity a session is forgotten.
pub const SESSION_SECONDS: u64 = 300;

/// After more seconds than this a handshake that nobody called back for is
/// forgotten.
pub const HANDSHAKE_SECONDS: u64 = 30;

/// How often sessions are forgotten, in seconds.
pub const CLEANUP_SECONDS: u64 = 60;

/// The whole seconds since a moment.
pub open spec fn seconds_since(now: u64, then: u64) -> int {
    connection::age(now, then) / 1_000_000_000
}

fn seconds_of(now: u64, then: u64) -> (r: u64)
    ensures
        r == seconds_since(now, then),
{
    connection::age_of(now, then) / 1_000_000_000
}

/// The first client with that handshake.
pub open spec fn find_client<C>(clients: Seq<ProxyClientInfo<C>>, id: Seq<char>) -> Option<int>
    decreases clients.len(),
{
    if clients.len() == 0 {
        None
    } else if find_client(clients.drop_last(), id) is Some {
        find_client(clients.drop_last(), id)
    } else if clients.last().handshake_id@ == id {
        Some(clients.len() - 1)
    } else {
        None
    }
}

/// `find_client` gives the first client with the handshake, if there is one.
pub proof fn lemma_find_client<C>(clients: Seq<ProxyClientInfo<C>>, id: Seq<char>)
    ensures
        match find_client(clients, id) {
            Some(i) => 0 <= i < clients.len() && clients[i].handshake_id@ == id && forall|j: int|
                0 <= j < i ==> (#[trigger] clients[j]).handshake_id@ != id,
            None => forall|j: int|
                0 <= j < clients.len() ==> (#[trigger] clients[j]).handshake_id@ != id,
        },
    decreases clients.len(),
{
    if clients.len() > 0 {
        let before = clients.drop_last();
        lemma_find_client(before, id);
        assert forall|j: int| 0 <= j < before.len() implies before[j] == #[trigger] clients[j] by {}
    }
}

/// The first client with the handshake is the one whose handshake nobody has
/// before it.
proof fn lemma_first_client<C>(clients: Seq<ProxyClientInfo<C>>, id: Seq<char>, i: int)
    requires
        0 <= i < clients.len(),
        clients[i].handshake_id@ == id,
        forall|j: int| 0 <= j < i ==> (#[trigger] clients[j]).handshake_id@ != id,
    ensures
        find_client(clients, id) == Some(i),
{
    lemma_find_client(clients, id);
}

fn position<C>(clients: &Vec<ProxyClientInfo<C>>, id: &str) -> (r: Option<usize>)
    ensures
        match r {
            Some(i) => find_client(clients@, id@) == Some(i as int) && i < clients@.len(),
            None => find_client(clients@, id@) is None,
        },
{
    proof {
        lemma_find_client(clients@, id@);
    }
    let mut i: usize = 0;
    while i < clients.len()
        invariant
            i <= clients@.len(),
            forall|j: int| 0 <= j < i ==> (#[trigger] clients@[j]).handshake_id@ != id@,
        decreases clients@.len() - i,
    {
        if text::same_text(clients[i].handshake_id.as_str(), id) {
            proof {
                lemma_first_client(clients@, id@, i as int);
            }
            return Some(i);
        }
        i += 1;
    }
    None
}

/// The client, active at that moment.
pub open spec fn active_at<C>(client: ProxyClientInfo<C>, now: u64) -> ProxyClientInfo<C> {
    ProxyClientInfo { last_activity: now, ..client }
}

/// The client whose call back has come at that moment.
pub open spec fn called_back_at<C>(client: ProxyClientInfo<C>, now: u64) -> ProxyClientInfo<C> {
    ProxyClientInfo { last_activity: now, handshake_channel: None, ..client }
}

/// The clients, the first with the handshake active at that moment.
pub open spec fn with_activity<C>(
    clients: Seq<ProxyClientInfo<C>>,
    id: Seq<char>,
    now: u64,
) -> Seq<ProxyClientInfo<C>> {
    match find_client(clients, id) {
        Some(i) => clients.update(i, active_at(clients[i], now)),
        None => clients,
    }
}

/// The clients once the call back of a handshake has come at that moment, and what
/// it is handed over through.
pub open spec fn with_call_back<C>(clients: Seq<ProxyClientInfo<C>>, id: Seq<char>, now: u64) -> (
    Seq<ProxyClientInfo<C>>,
    Option<C>,
) {
    match find_client(clients, id) {
        Some(i) => (
            clients.update(i, called_back_at(clients[i], now)),
            clients[i].handshake_channel,
        ),
        None => (clients, None),
    }
}

/// The clients that have been active lately.
pub open spec fn lively<C>(clients: Seq<ProxyClientInfo<C>>, now: u64) -> Seq<ProxyClientInfo<C>> {
    clients.filter(|c: ProxyClientInfo<C>| is_session_kept(now, c))
}

/// The clients without the handshakes that were waited for too long.
pub open spec fn awaited<C>(clients: Seq<ProxyClientInfo<C>>, now: u64) -> Seq<
    ProxyClientInfo<C>,
> {
    clients.filter(|c: ProxyClientInfo<C>| is_handshake_kept(now, c))
}

/// The clients without those of a handshake.
pub open spec fn without<C>(clients: Seq<ProxyClientInfo<C>>, id: Seq<char>) -> Seq<
    ProxyClientInfo<C>,
> {
    clients.filter(|c: ProxyClientInfo<C>| is_other(id, c))
}

/// Takes note that the first client with the handshake is active.
pub fn update_client_activity<C>(
    clients: &mut Vec<ProxyClientInfo<C>>,
    client_id: &str,
    now: u64,
)
    ensures
        final(clients)@ == (match find_client(old(clients)@, client_id@) {
            Some(i) => old(clients)@.update(i, active_at(old(clients)@[i], now)),
            None => old(clients)@,
        }),
        final(clients)@ == with_activity(old(clients)@, client_id@, now),
{
    if let Some(i) = position(clients, client_id) {
        clients[i].last_activity = now;
        assert(clients@ =~= old(clients)@.update(
            i as int,
            active_at(old(clients)@[i as int], now),
        ));
    }
}

/// Takes what the call back of a handshake is handed over through: from the
/// first client with the handshake, which is active thereby. There is none
/// where the handshake is not known or was called back for before.
pub fn take_channel<C>(clients: &mut Vec<ProxyClientInfo<C>>, id: &str, now: u64) -> (r: Option<C>)
    ensures
        match find_client(old(clients)@, id@) {
            Some(i) => {
                &&& r == old(clients)@[i].handshake_channel
                &&& final(clients)@ == old(clients)@.update(
                    i,
                    called_back_at(old(clients)@[i], now),
                )
            },
            None => r is None && final(clients)@ == old(clients)@,
        },
        (final(clients)@, r) == with_call_back(old(clients)@, id@, now),
{
    match position(clients, id) {
        Some(i) => {
            let channel = clients[i].handshake_channel.take();
            clients[i].last_activity = now;
            assert(clients@ =~= old(clients)@.update(
                i as int,
                called_back_at(old(clients)@[i as int], now),
            ));
            channel
        },
        None => None,
    }
}

/// The session has been active lately.
pub open spec fn is_session_kept<C>(now: u64, client: ProxyClientInfo<C>) -> bool {
    seconds_since(now, client.last_activity) < SESSION_SECONDS
}

/// Forgets the sessions that have not been active lately; tells how many.
pub fn purge_idle_sessions<C>(clients: &mut Vec<ProxyClientInfo<C>>, now: u64) -> (r: usize)
    ensures
        final(clients)@ == old(clients)@.filter(
            |c: ProxyClientInfo<C>| is_session_kept(now, c),
        ),
        r == old(clients)@.len() - final(clients)@.len(),
        final(clients)@ == lively(old(clients)@, now),
{
    let before: usize = clients.len();
    let keep = |c: &ProxyClientInfo<C>| -> (r: bool)
        ensures
            r == is_session_kept(now, *c),
    {
        seconds_of(now, c.last_activity) < SESSION_SECONDS
    };
    retain::retain(clients, keep, Ghost(|c: ProxyClientInfo<C>| is_session_kept(now, c)));
    proof {
        old(clients)@.lemma_filter_len(|c: ProxyClientInfo<C>| is_session_kept(now, c));
    }
    before - clients.len()
}

/// The handshake is not one that was waited for too long.
pub open spec fn is_handshake_kept<C>(now: u64, client: ProxyClientInfo<C>) -> bool {
    !(seconds_since(now, client.last_activity) > HANDSHAKE_SECONDS
        && client.handshake_channel is Some)
}

/// Forgets the handshakes that were waited for too long.
pub fn purge_stale_handshakes<C>(clients: &mut Vec<ProxyClientInfo<C>>, now: u64)
    ensures
        final(clients)@ == old(clients)@.filter(
            |c: ProxyClientInfo<C>| is_handshake_kept(now, c),
        ),
        final(clients)@ == awaited(old(clients)@, now),
{
    let keep = |c: &ProxyClientInfo<C>| -> (r: bool)
        ensures
            r == is_handshake_kept(now, *c),
    {
        !(seconds_of(now, c.last_activity) > HANDSHAKE_SECONDS && c.handshake_channel.is_some())
    };
    retain::retain(clients, keep, Ghost(|c: ProxyClientInfo<C>| is_handshake_kept(now, c)));
}

/// The client that a handshake makes known.
pub open spec fn is_new_client<C>(
    client: ProxyClientInfo<C>,
    backend_port: u16,
    public_port: u16,
    channel: C,
    id: Seq<char>,
    now: u64,
) -> bool {
    &&& client.backend_port == backend_port
    &&& client.public_port == public_port
    &&& client.handshake_channel == Some(channel)
    &&& client.handshake_id@ == id
    &&& client.last_activity == now
    &&& client.reconnect_attempts == 0
}

/// Makes a handshake known, after forgetting those that were waited for too
/// long.
pub fn register_handshake<C>(
    clients: &mut Vec<ProxyClientInfo<C>>,
    backend_port: u16,
    public_port: u16,
    channel: C,
    id: &str,
    now: u64,
)
    ensures
        final(clients)@.len() > 0,
        final(clients)@.drop_last() == old(clients)@.filter(
            |c: ProxyClientInfo<C>| is_handshake_kept(now, c),
        ),
        is_new_client(final(clients)@.last(), backend_port, public_port, channel, id@, now),
        final(clients)@.drop_last() == awaited(old(clients)@, now),
{
    purge_stale_handshakes(clients, now);
    let ghost before = clients@;
    clients.push(
        ProxyClientInfo {
            backend_port,
            public_port,
            handshake_channel: Some(channel),
            handshake_id: id.to_owned(),
            last_activity: now,
            reconnect_attempts: 0,
        },
    );
    assert(clients@.drop_last() =~= before);
}

/// The client has another handshake.
pub open spec fn is_other<C>(id: Seq<char>, client: ProxyClientInfo<C>) -> bool {
    client.handshake_id@ != id
}

/// Forgets a handshake.
pub fn remove_handshake<C>(clients: &mut Vec<ProxyClientInfo<C>>, id: &str)
    ensures
        final(clients)@ == old(clients)@.filter(|c: ProxyClientInfo<C>| is_other(id@, c)),
        final(clients)@ == without(old(clients)@, id@),
{
    let keep = |c: &ProxyClientInfo<C>| -> (r: bool)
        ensures
            r == is_other(id@, *c),
    {
        !text::same_text(c.handshake_id.as_str(), id)
    };
    retain::retain(clients, keep, Ghost(|c: ProxyClientInfo<C>| is_other(id@, c)));
}

// ---------------------------------------------------------------------------
// Laws
// ---------------------------------------------------------------------------

/// The call back for a handshake that was made known, and that no client had
/// before, finds what it is handed over through.
pub proof fn registered_handshakes_are_found<C>(clients: Seq<ProxyClientInfo<C>>, id: Seq<char>)
    requires
        clients.len() > 0,
        clients.last().handshake_id@ == id,
        find_client(clients.drop_last(), id) is None,
    ensures
        find_client(clients, id) == Some(clients.len() - 1),
{
}

/// A handshake is called back for once: what is left after the first call back
/// holds nothing for a second.
pub proof fn handshakes_are_called_back_once<C>(
    clients: Seq<ProxyClientInfo<C>>,
    id: Seq<char>,
    now: u64,
)
    requires
        find_client(clients, id) is Some,
    ensures
        ({
            let i = find_client(clients, id)->Some_0;
            let after = clients.update(i, called_back_at(clients[i], now));
            &&& find_client(after, id) == Some(i)
            &&& after[i].handshake_channel is None
        }),
{
    lemma_find_client(clients, id);
    let i = find_client(clients, id)->Some_0;
    let after = clients.update(i, called_back_at(clients[i], now));
    assert forall|j: int| 0 <= j < i implies (#[trigger] after[j]).handshake_id@ != id by {
        assert(after[j] == clients[j]);
    }
    lemma_first_client(after, id, i);
}

/// A handshake that was forgotten is not found.
pub proof fn removed_handshakes_are_not_found<C>(clients: Seq<ProxyClientInfo<C>>, id: Seq<char>)
    ensures
        find_client(clients.filter(|c: ProxyClientInfo<C>| is_other(id, c)), id) is None,
{
    let other = |c: ProxyClientInfo<C>| is_other(id, c);
    let left = clients.filter(other);
    broadcast use vstd::seq_lib::group_filter_ensures;

    assert forall|j: int| 0 <= j < left.len() implies (#[trigger] left[j]).handshake_id@ != id by {
        assert(other(left[j]));
    }
    lemma_find_client(left, id);
}

/// Forgetting a handshake leaves every other one as it was found.
pub proof fn removal_keeps_other_handshakes<C>(
    clients: Seq<ProxyClientInfo<C>>,
    id: Seq<char>,
    other: Seq<char>,
)
    requires
        other != id,
    ensures
        ({
            let left = clients.filter(|c: ProxyClientInfo<C>| is_other(id, c));
            &&& (find_client(left, other) is Some) == (find_client(clients, other) is Some)
            &&& find_client(clients, other) is Some ==> left[find_client(left, other)->Some_0]
                == clients[find_client(clients, other)->Some_0]
        }),
    decreases clients.len(),
{
    let keeps = |c: ProxyClientInfo<C>| is_other(id, c);
    reveal(Seq::filter);
    if clients.len() > 0 {
        let before = clients.drop_last();
        removal_keeps_other_handshakes(before, id, other);
        lemma_find_client(before, other);
        lemma_find_client(before.filter(keeps), other);
        let left = clients.filter(keeps);
        if keeps(clients.last()) {
            assert(left.drop_last() =~= before.filter(keeps));
        } else {
            assert(left == before.filter(keeps));
        }
    }
}

/// The first client with a handshake is found, wherever it stands, and nobody else.
pub proof fn handshakes_are_found<C>(clients: Seq<ProxyClientInfo<C>>, id: Seq<char>, i: int)
    ensures
        0 <= i < clients.len() && clients[i].handshake_id@ == id && (forall|j: int|
            0 <= j < i ==> (#[trigger] clients[j]).handshake_id@ != id) ==> find_client(clients, id)
            == Some(i),
        (forall|j: int| 0 <= j < clients.len() ==> (#[trigger] clients[j]).handshake_id@ != id)
            ==> find_client(clients, id) is None,
{
    lemma_find_client(clients, id);
}

/// Activity changes the moment of the first client with the handshake, and nothing
/// else of anyone.
pub proof fn activity_is_noted<C>(
    clients: Seq<ProxyClientInfo<C>>,
    id: Seq<char>,
    now: u64,
    i: int,
)
    requires
        0 <= i < clients.len(),
    ensures
        ({
            let after = with_activity(clients, id, now);
            &&& after.len() == clients.len()
            &&& find_client(clients, id) == Some(i) ==> after[i].last_activity == now
                && after[i].handshake_channel == clients[i].handshake_channel
                && after[i].handshake_id == clients[i].handshake_id && after[i].backend_port
                == clients[i].backend_port && after[i].public_port == clients[i].public_port
                && after[i].reconnect_attempts == clients[i].reconnect_attempts
            &&& find_client(clients, id) != Some(i) ==> after[i] == clients[i]
        }),
{
    lemma_find_client(clients, id);
}

/// The call back of a handshake gets what the first client with it waits with, and
/// leaves nothing for a second; that client is active thereby, and nothing else of
/// anyone changes. A handshake that nobody has gets nothing.
pub proof fn call_backs_are_handed_over<C>(
    clients: Seq<ProxyClientInfo<C>>,
    id: Seq<char>,
    now: u64,
    i: int,
    later: u64,
)
    requires
        0 <= i < clients.len(),
    ensures
        ({
            let (after, channel) = with_call_back(clients, id, now);
            &&& after.len() == clients.len()
            &&& find_client(clients, id) == Some(i) ==> channel == clients[i].handshake_channel
                && after[i].handshake_channel is None && after[i].last_activity == now
                && after[i].handshake_id == clients[i].handshake_id && after[i].backend_port
                == clients[i].backend_port && after[i].public_port == clients[i].public_port
                && after[i].reconnect_attempts == clients[i].reconnect_attempts
            &&& find_client(clients, id) != Some(i) ==> after[i] == clients[i]
            &&& find_client(clients, id) is None ==> channel is None
            &&& with_call_back(after, id, later).1 is None
        }),
{
    lemma_find_client(clients, id);
    if find_client(clients, id) is Some {
        handshakes_are_called_back_once(clients, id, now);
    }
}

/// A session is kept for five minutes after its last activity, and forgotten from
/// then on.
pub proof fn sessions_are_kept_for_five_minutes<C>(now: u64, client: ProxyClientInfo<C>)
    ensures
        is_session_kept(now, client) == (connection::age(now, client.last_activity)
            < 300_000_000_000),
{
}

/// A handshake that nobody called back for is kept for half a minute, up to the full
/// second after; one that was called back for is kept.
pub proof fn handshakes_are_awaited_for_half_a_minute<C>(now: u64, client: ProxyClientInfo<C>)
    ensures
        client.handshake_channel is None ==> is_handshake_kept(now, client),
        client.handshake_channel is Some ==> is_handshake_kept(now, client) == (connection::age(
            now,
            client.last_activity,
        ) < 31_000_000_000),
{
}

/// Forgetting keeps every client that is to be kept, in order, and no other: those
/// active in the last five minutes; those whose handshake was not waited for too
/// long; those with another handshake.
pub proof fn forgetting_keeps_the_others<C>(
    clients: Seq<ProxyClientInfo<C>>,
    now: u64,
    id: Seq<char>,
    i: int,
)
    requires
        0 <= i < clients.len(),
    ensures
        connection::age(now, clients[i].last_activity) < 300_000_000_000 ==> lively(
            clients,
            now,
        ).contains(clients[i]),
        connection::age(now, clients[i].last_activity) >= 300_000_000_000 ==> !lively(
            clients,
            now,
        ).contains(clients[i]),
        clients[i].handshake_channel is None || connection::age(now, clients[i].last_activity)
            < 31_000_000_000 ==> awaited(clients, now).contains(clients[i]),
        clients[i].handshake_channel is Some && connection::age(now, clients[i].last_activity)
            >= 31_000_000_000 ==> !awaited(clients, now).contains(clients[i]),
        without(clients, id).contains(clients[i]) == (clients[i].handshake_id@ != id),
        lively(clients, now) == clients.filter(
            |c: ProxyClientInfo<C>| connection::age(now, c.last_activity) < 300_000_000_000,
        ),
        awaited(clients, now) == clients.filter(
            |c: ProxyClientInfo<C>|
                c.handshake_channel is None || connection::age(now, c.last_activity)
                    < 31_000_000_000,
        ),
        without(clients, id) == clients.filter(|c: ProxyClientInfo<C>| c.handshake_id@ != id),
{
    broadcast use vstd::seq_lib::group_filter_ensures;

    let a = |c: ProxyClientInfo<C>| is_session_kept(now, c);
    let b = |c: ProxyClientInfo<C>| is_handshake_kept(now, c);
    let o = |c: ProxyClientInfo<C>| is_other(id, c);
    assert(a =~= |c: ProxyClientInfo<C>|
        connection::age(now, c.last_activity) < 300_000_000_000);
    assert(b =~= |c: ProxyClientInfo<C>|
        c.handshake_channel is None || connection::age(now, c.last_activity) < 31_000_000_000);
    assert(o =~= |c: ProxyClientInfo<C>| c.handshake_id@ != id);
    if a(clients[i]) {
        clients.lemma_filter_contains(a, i);
    } else if clients.filter(a).contains(clients[i]) {
        let k = choose|k: int| 0 <= k < clients.filter(a).len() && clients.filter(a)[k] == clients[i];
        assert(a(clients.filter(a)[k]));
    }
    if b(clients[i]) {
        clients.lemma_filter_contains(b, i);
    } else if clients.filter(b).contains(clients[i]) {
        let k = choose|k: int| 0 <= k < clients.filter(b).len() && clients.filter(b)[k] == clients[i];
        assert(b(clients.filter(b)[k]));
    }
    if o(clients[i]) {
        clients.lemma_filter_contains(o, i);
    } else if clients.filter(o).contains(clients[i]) {
        let k = choose|k: int| 0 <= k < clients.filter(o).len() && clients.filter(o)[k] == clients[i];
        assert(o(clients.filter(o)[k]));
    }
}

/// A handshake that was just made known has the ports, the name and the channel that
/// it was given, and is waited for half a minute.
pub proof fn new_handshakes_are_awaited<C>(
    client: ProxyClientInfo<C>,
    backend_port: u16,
    public_port: u16,
    channel: C,
    id: Seq<char>,
    now: u64,
    later: u64,
)
    requires
        is_new_client(client, backend_port, public_port, channel, id, now),
        now <= later,
    ensures
        client.backend_port == backend_port,
        client.public_port == public_port,
        client.handshake_channel == Some(channel),
        client.handshake_id@ == id,
        client.reconnect_attempts == 0,
        is_handshake_kept(later, client) == (later - now < 31_000_000_000),
        is_session_kept(later, client) == (later - now < 300_000_000_000),
{
}

} // verus!
