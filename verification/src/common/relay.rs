//! One direction of a relay: bytes are read from a source, written to a sink
//! and flushed.
//!
//! A `Relay` decides what to do next; whoever runs it does the reading and
//! writing and reports how it went.

use vstd::prelude::*;

verus! {

/// What a relay is doing.
#[derive(Debug, Clone, Copy, PartialEq, Eq, Structural)]
pub enum Phase {
    Reading,
    Writing,
    Flushing,
    Stopped,
}

/// When bytes count as transferred.
#[derive(Debug, Clone, Copy, PartialEq, Eq, Structural)]
pub enum Counting {
    /// As soon as they are read.
    WhenRead,
    /// Once they are flushed.
    WhenFlushed,
}

/// What happened.
#[derive(Debug, Clone, Copy, PartialEq, Eq, Structural)]
pub enum RelayEvent {
    /// So many bytes were read; none means that the source has ended.
    Read(usize),
    ReadFailed,
    /// Nothing came from the source for too long.
    Idle,
    Written,
    WriteFailed,
    Flushed,
    FlushFailed,
}

/// What to do next.
#[derive(Debug, Clone, Copy, PartialEq, Eq, Structural)]
pub enum RelayAction {
    /// Read from the source.
    Read,
    /// Write that many of the bytes just read to the sink.
    Write(usize),
    /// Flush the sink.
    Flush,
    /// Nothing more.
    Stop,
}

/// One direction of a relay.
#[derive(Debug, Clone, Copy, PartialEq, Eq, Structural)]
pub struct Relay {
    pub phase: Phase,
    /// How many bytes were read and not yet flushed.
    pub pending: usize,
    /// How many bytes were transferred.
    pub total: u64,
    pub source_failed: bool,
    pub sink_failed: bool,
    pub counting: Counting,
    /// Whether a flush that fails is held against the source.
    pub flush_blames_source: bool,
}

impl Relay {
    /// The action that the phase asks for.
    pub open spec fn wanted(self) -> RelayAction {
        match self.phase {
            Phase::Reading => RelayAction::Read,
            Phase::Writing => RelayAction::Write(self.pending),
            Phase::Flushing => RelayAction::Flush,
            Phase::Stopped => RelayAction::Stop,
        }
    }

    /// How many bytes an event adds to what was transferred.
    pub open spec fn counted(self, event: RelayEvent) -> int {
        match (self.phase, event) {
            (Phase::Reading, RelayEvent::Read(n)) => if self.counting == Counting::WhenRead {
                n as int
            } else {
                0
            },
            (Phase::Flushing, RelayEvent::Flushed) => if self.counting == Counting::WhenFlushed {
                self.pending as int
            } else {
                0
            },
            _ => 0,
        }
    }

    /// The relay after an event. An event that does not belong to the phase
    /// changes nothing.
    pub open spec fn after(self, event: RelayEvent) -> Relay {
        let counted = Relay { total: (self.total + self.counted(event)) as u64, ..self };
        match (self.phase, event) {
            (Phase::Reading, RelayEvent::Read(n)) => if n == 0 {
                Relay { phase: Phase::Stopped, ..counted }
            } else {
                Relay { phase: Phase::Writing, pending: n, ..counted }
            },
            (Phase::Reading, RelayEvent::ReadFailed) => Relay {
                phase: Phase::Stopped,
                source_failed: true,
                ..counted
            },
            (Phase::Reading, RelayEvent::Idle) => Relay { phase: Phase::Stopped, ..counted },
            (Phase::Writing, RelayEvent::Written) => Relay { phase: Phase::Flushing, ..counted },
            (Phase::Writing, RelayEvent::WriteFailed) => Relay {
                phase: Phase::Stopped,
                sink_failed: true,
                ..counted
            },
            (Phase::Flushing, RelayEvent::Flushed) => Relay {
                phase: Phase::Reading,
                pending: 0,
                ..counted
            },
            (Phase::Flushing, RelayEvent::FlushFailed) => Relay {
                phase: Phase::Stopped,
                source_failed: self.source_failed || self.flush_blames_source,
                sink_failed: self.sink_failed || !self.flush_blames_source,
                ..counted
            },
            _ => self,
        }
    }

    /// A relay that is about to read.
    pub open spec fn fresh(counting: Counting, flush_blames_source: bool) -> Relay {
        Relay {
            phase: Phase::Reading,
            pending: 0,
            total: 0,
            source_failed: false,
            sink_failed: false,
            counting,
            flush_blames_source,
        }
    }

    /// The relay after copying the whole source in one go has failed.
    pub open spec fn after_failed_copy(self, connection_closed: bool) -> Relay {
        Relay {
            phase: Phase::Stopped,
            source_failed: self.source_failed || !connection_closed,
            ..self
        }
    }

    /// A relay that is about to read.
    pub fn new(counting: Counting, flush_blames_source: bool) -> (r: Relay)
        ensures
            r == (Relay {
                phase: Phase::Reading,
                pending: 0,
                total: 0,
                source_failed: false,
                sink_failed: false,
                counting,
                flush_blames_source,
            }),
            r == Relay::fresh(counting, flush_blames_source),
    {
        Relay {
            phase: Phase::Reading,
            pending: 0,
            total: 0,
            source_failed: false,
            sink_failed: false,
            counting,
            flush_blames_source,
        }
    }

    /// What to do next.
    pub fn wants(&self) -> (r: RelayAction)
        ensures
            r == self.wanted(),
    {
        match self.phase {
            Phase::Reading => RelayAction::Read,
            Phase::Writing => RelayAction::Write(self.pending),
            Phase::Flushing => RelayAction::Flush,
            Phase::Stopped => RelayAction::Stop,
        }
    }

    /// Takes note of what happened and says what to do next.
    pub fn step(&mut self, event: RelayEvent) -> (r: RelayAction)
        requires
            old(self).total + old(self).counted(event) <= u64::MAX,
        ensures
            *final(self) == old(self).after(event),
            r == final(self).wanted(),
    {
        match (self.phase, event) {
            (Phase::Reading, RelayEvent::Read(n)) => {
                if matches!(self.counting, Counting::WhenRead) {
                    self.total = self.total + n as u64;
                }
                if n == 0 {
                    self.phase = Phase::Stopped;
                } else {
                    self.phase = Phase::Writing;
                    self.pending = n;
                }
            },
            (Phase::Reading, RelayEvent::ReadFailed) => {
                self.phase = Phase::Stopped;
                self.source_failed = true;
            },
            (Phase::Reading, RelayEvent::Idle) => {
                self.phase = Phase::Stopped;
            },
            (Phase::Writing, RelayEvent::Written) => {
                self.phase = Phase::Flushing;
            },
            (Phase::Writing, RelayEvent::WriteFailed) => {
                self.phase = Phase::Stopped;
                self.sink_failed = true;
            },
            (Phase::Flushing, RelayEvent::Flushed) => {
                if matches!(self.counting, Counting::WhenFlushed) {
                    self.total = self.total + self.pending as u64;
                }
                self.phase = Phase::Reading;
                self.pending = 0;
            },
            (Phase::Flushing, RelayEvent::FlushFailed) => {
                self.phase = Phase::Stopped;
                if self.flush_blames_source {
                    self.source_failed = true;
                } else {
                    self.sink_failed = true;
                }
            },
            _ => {},
        }
        self.wants()
    }

    /// Takes note that copying the whole source in one go has failed. A
    /// connection that was merely closed is nobody's fault.
    pub fn copy_failed(&mut self, connection_closed: bool)
        ensures
            *final(self) == (Relay {
                phase: Phase::Stopped,
                source_failed: old(self).source_failed || !connection_closed,
                ..*old(self)
            }),
            *final(self) == old(self).after_failed_copy(connection_closed),
    {
        self.phase = Phase::Stopped;
        if !connection_closed {
            self.source_failed = true;
        }
    }
}

// ---------------------------------------------------------------------------
// What a run of a relay delivers
// ---------------------------------------------------------------------------

/// What happened, with the bytes that were read.
pub enum Happening {
    Read(Seq<u8>),
    ReadFailed,
    Idle,
    Written,
    WriteFailed,
    Flushed,
    FlushFailed,
}

impl Happening {
    pub open spec fn event(self) -> RelayEvent {
        match self {
            Happening::Read(chunk) => RelayEvent::Read(chunk.len() as usize),
            Happening::ReadFailed => RelayEvent::ReadFailed,
            Happening::Idle => RelayEvent::Idle,
            Happening::Written => RelayEvent::Written,
            Happening::WriteFailed => RelayEvent::WriteFailed,
            Happening::Flushed => RelayEvent::Flushed,
            Happening::FlushFailed => RelayEvent::FlushFailed,
        }
    }
}

/// A relay together with the bytes that passed through it.
pub struct Flow {
    pub relay: Relay,
    /// What was read from the source.
    pub received: Seq<u8>,
    /// What was written to the sink and flushed.
    pub delivered: Seq<u8>,
    /// What was read last.
    pub chunk: Seq<u8>,
    /// What was written to the sink last: as many bytes of the chunk as the
    /// relay asked for.
    pub written: Seq<u8>,
}

impl Flow {
    /// The flow after something happened.
    pub open spec fn after(self, h: Happening) -> Flow {
        let relay = self.relay.after(h.event());
        match (self.relay.phase, h) {
            (Phase::Reading, Happening::Read(chunk)) => Flow {
                relay,
                received: self.received + chunk,
                chunk,
                ..self
            },
            (_, Happening::Written) => match self.relay.wanted() {
                RelayAction::Write(n) => Flow { relay, written: self.chunk.take(n as int), ..self },
                _ => Flow { relay, ..self },
            },
            (_, Happening::Flushed) => match self.relay.wanted() {
                RelayAction::Flush => Flow {
                    relay,
                    delivered: self.delivered + self.written,
                    ..self
                },
                _ => Flow { relay, ..self },
            },
            _ => Flow { relay, ..self },
        }
    }

    /// What may happen: no read brings more than fits a buffer, and the
    /// counter does not overflow.
    pub open spec fn allows(self, h: Happening) -> bool {
        &&& h matches Happening::Read(chunk) ==> chunk.len() <= usize::MAX
        &&& self.relay.total + self.relay.counted(h.event()) <= u64::MAX
    }
}

/// The flow that a history leads to, from nothing.
pub open spec fn flow_of(start: Relay, history: Seq<Happening>) -> Flow
    decreases history.len(),
{
    if history.len() == 0 {
        Flow {
            relay: start,
            received: Seq::empty(),
            delivered: Seq::empty(),
            chunk: Seq::empty(),
            written: Seq::empty(),
        }
    } else {
        flow_of(start, history.drop_last()).after(history.last())
    }
}

/// Every step of a history is one that may happen.
pub open spec fn is_history(start: Relay, history: Seq<Happening>) -> bool
    decreases history.len(),
{
    history.len() == 0 || {
        &&& is_history(start, history.drop_last())
        &&& flow_of(start, history.drop_last()).allows(history.last())
    }
}

/// A relay that is about to read and has transferred nothing.
pub open spec fn is_fresh(relay: Relay) -> bool {
    relay.phase == Phase::Reading && relay.total == 0 && relay.pending == 0
}

/// No write and no flush has failed.
pub open spec fn delivers_without_failure(history: Seq<Happening>) -> bool {
    forall|i: int|
        0 <= i < history.len() ==> !(#[trigger] history[i] is WriteFailed) && !(
        history[i] is FlushFailed)
}

/// The relay that a history leads to has nothing on hand: it is about to read,
/// or it has stopped and nothing that it read was lost.
pub open spec fn is_settled(start: Relay, history: Seq<Happening>) -> bool {
    let phase = flow_of(start, history).relay.phase;
    phase == Phase::Reading || (phase == Phase::Stopped && delivers_without_failure(history))
}

/// The sink gets what the source gave, in order: all of it while the relay is
/// about to read, all of it once the relay has stopped and no write or flush
/// has failed, and all but the chunk read last at any time. The count is the
/// number of bytes read, or of bytes delivered, as the relay counts.
pub proof fn relay_delivers_what_it_reads(start: Relay, history: Seq<Happening>)
    requires
        is_fresh(start),
        is_history(start, history),
    ensures
        ({
            let flow = flow_of(start, history);
            &&& flow.received == flow.delivered || flow.received == flow.delivered + flow.chunk
            &&& flow.relay.phase == Phase::Reading ==> flow.received == flow.delivered
            &&& flow.relay.phase == Phase::Stopped && delivers_without_failure(history)
                ==> flow.received == flow.delivered
            &&& flow.relay.phase == Phase::Writing || flow.relay.phase == Phase::Flushing ==> {
                &&& flow.received == flow.delivered + flow.chunk
                &&& flow.relay.pending == flow.chunk.len()
            }
            &&& flow.relay.phase == Phase::Writing ==> flow.relay.wanted() == RelayAction::Write(
                flow.chunk.len() as usize,
            )
            &&& flow.relay.phase == Phase::Flushing ==> flow.written == flow.chunk
            &&& flow.relay.total == (if start.counting == Counting::WhenRead {
                flow.received.len()
            } else {
                flow.delivered.len()
            })
            &&& flow.relay.counting == start.counting
        }),
    decreases history.len(),
{
    if history.len() > 0 {
        relay_delivers_what_it_reads(start, history.drop_last());
        let before = flow_of(start, history.drop_last());
        let flow = flow_of(start, history);
        if delivers_without_failure(history) {
            assert forall|i: int| 0 <= i < history.drop_last().len() implies !(
            #[trigger] history.drop_last()[i] is WriteFailed) && !(
            history.drop_last()[i] is FlushFailed) by {
                assert(history.drop_last()[i] == history[i]);
            }
            assert(history.last() == history[history.len() - 1]);
        }
        match (before.relay.phase, history.last()) {
            (Phase::Reading, Happening::Read(chunk)) => {
                assert(flow.received == flow.delivered + flow.chunk);
                if chunk.len() == 0 {
                    assert(chunk =~= Seq::empty());
                    assert(flow.received =~= flow.delivered);
                }
            },
            (Phase::Writing, Happening::Written) => {
                assert(flow.written =~= flow.chunk);
            },
            (Phase::Flushing, Happening::Flushed) => {
                assert(flow.received == flow.delivered);
            },
            _ => {},
        }
    }
}

/// Through two relays in a row, the far end gets a beginning of what the near
/// end sent, unchanged and in order, whatever fails on the way; and all of it
/// once both have nothing on hand, be it that they are about to read or that
/// they have come to their end. What lies between the two hands on a
/// beginning of what it was given.
pub proof fn tunnel_keeps_what_it_carries(
    near: Relay,
    near_history: Seq<Happening>,
    far: Relay,
    far_history: Seq<Happening>,
)
    requires
        is_fresh(near),
        is_history(near, near_history),
        is_fresh(far),
        is_history(far, far_history),
        flow_of(far, far_history).received.is_prefix_of(flow_of(near, near_history).delivered),
    ensures
        flow_of(far, far_history).delivered.is_prefix_of(flow_of(near, near_history).received),
        is_settled(near, near_history) && is_settled(far, far_history) && flow_of(
            far,
            far_history,
        ).received == flow_of(near, near_history).delivered ==> flow_of(far, far_history).delivered
            == flow_of(near, near_history).received,
{
    relay_delivers_what_it_reads(near, near_history);
    relay_delivers_what_it_reads(far, far_history);
    let a = flow_of(near, near_history);
    let b = flow_of(far, far_history);
    assert(a.delivered =~= a.received.subrange(0, a.delivered.len() as int));
    assert(b.delivered =~= b.received.subrange(0, b.delivered.len() as int));
    assert(b.received =~= a.delivered.subrange(0, b.received.len() as int));
    assert(b.delivered =~= a.received.subrange(0, b.delivered.len() as int)) by {
        assert forall|i: int| 0 <= i < b.delivered.len() implies b.delivered[i]
            == a.received[i] by {
            assert(b.received.subrange(0, b.delivered.len() as int)[i] == b.received[i]);
            assert(a.delivered.subrange(0, b.received.len() as int)[i] == a.delivered[i]);
            assert(a.received.subrange(0, a.delivered.len() as int)[i] == a.received[i]);
        }
    }
}

/// Whatever number of bytes a relay reads, it asks for exactly these to be
/// written, then for a flush, and then it reads on.
pub proof fn every_read_is_written_on(relay: Relay, n: usize)
    requires
        relay.wanted() == RelayAction::Read,
        n > 0,
        relay.total + n <= u64::MAX,
    ensures
        relay.after(RelayEvent::Read(n)).wanted() == RelayAction::Write(n),
        relay.after(RelayEvent::Read(n)).after(RelayEvent::Written).wanted() == RelayAction::Flush,
        relay.after(RelayEvent::Read(n)).after(RelayEvent::Written).after(
            RelayEvent::Flushed,
        ).wanted() == RelayAction::Read,
        relay.after(RelayEvent::Read(n)).after(RelayEvent::Written).after(RelayEvent::Flushed).total
            == relay.total + n,
{
}

/// A relay stops where its source has ended, fails or is silent for too long,
/// and where its sink fails; nowhere else.
pub proof fn relays_stop_for_a_reason(relay: Relay, event: RelayEvent)
    requires
        relay.wanted() != RelayAction::Stop,
    ensures
        (relay.after(event).wanted() == RelayAction::Stop) == (match relay.wanted() {
            RelayAction::Read => event == RelayEvent::Read(0) || event == RelayEvent::ReadFailed
                || event == RelayEvent::Idle,
            RelayAction::Write(_) => event == RelayEvent::WriteFailed,
            RelayAction::Flush => event == RelayEvent::FlushFailed,
            RelayAction::Stop => true,
        }),
{
}

/// A failure is held against the side where it happened: a read that fails
/// against the source, a write that fails against the sink, and a flush that
/// fails against the one of the two that the relay blames for it. Nothing else
/// is held against anyone.
pub proof fn failures_are_held_against_a_side(relay: Relay, event: RelayEvent)
    requires
        !relay.source_failed,
        !relay.sink_failed,
    ensures
        relay.after(event).source_failed == (relay.wanted() == RelayAction::Read && event
            == RelayEvent::ReadFailed || relay.wanted() == RelayAction::Flush && event
            == RelayEvent::FlushFailed && relay.flush_blames_source),
        relay.after(event).sink_failed == (relay.wanted() is Write && event
            == RelayEvent::WriteFailed || relay.wanted() == RelayAction::Flush && event
            == RelayEvent::FlushFailed && !relay.flush_blames_source),
{
}

/// What happens to a relay that reads these chunks and whose sink takes them.
pub open spec fn smooth_history(chunks: Seq<Seq<u8>>) -> Seq<Happening>
    decreases chunks.len(),
{
    if chunks.len() == 0 {
        Seq::empty()
    } else {
        smooth_history(chunks.drop_last()).push(Happening::Read(chunks.last())).push(
            Happening::Written,
        ).push(Happening::Flushed)
    }
}

/// The chunks put together.
pub open spec fn put_together(chunks: Seq<Seq<u8>>) -> Seq<u8>
    decreases chunks.len(),
{
    if chunks.len() == 0 {
        Seq::empty()
    } else {
        put_together(chunks.drop_last()) + chunks.last()
    }
}

/// A relay whose source gives chunk after chunk and whose sink takes them
/// delivers every one of them, and reads on for as long as that goes on.
pub proof fn smooth_relays_deliver_everything(start: Relay, chunks: Seq<Seq<u8>>)
    requires
        is_fresh(start),
        forall|i: int| 0 <= i < chunks.len() ==> 0 < (#[trigger] chunks[i]).len() <= usize::MAX,
        put_together(chunks).len() <= u64::MAX,
    ensures
        is_history(start, smooth_history(chunks)),
        flow_of(start, smooth_history(chunks)).delivered == put_together(chunks),
        flow_of(start, smooth_history(chunks)).relay.wanted() == RelayAction::Read,
        flow_of(start, smooth_history(chunks)).relay.total == put_together(chunks).len(),
        flow_of(start, smooth_history(chunks)).relay.source_failed == start.source_failed,
        flow_of(start, smooth_history(chunks)).relay.sink_failed == start.sink_failed,
    decreases chunks.len(),
{
    if chunks.len() > 0 {
        let before = chunks.drop_last();
        assert forall|i: int| 0 <= i < before.len() implies 0 < (#[trigger] before[i]).len()
            <= usize::MAX by {
            assert(before[i] == chunks[i]);
        }
        smooth_relays_deliver_everything(start, before);
        relay_delivers_what_it_reads(start, smooth_history(before));
        assert(chunks.last() == chunks[chunks.len() - 1]);
        let h0 = smooth_history(before);
        let h1 = h0.push(Happening::Read(chunks.last()));
        let h2 = h1.push(Happening::Written);
        let h3 = h2.push(Happening::Flushed);
        assert(h1.drop_last() =~= h0);
        assert(h2.drop_last() =~= h1);
        assert(h3.drop_last() =~= h2);
        assert(smooth_history(chunks) == h3);
        assert(is_history(start, h1));
        assert(flow_of(start, h1) == flow_of(start, h0).after(Happening::Read(chunks.last())));
        assert(flow_of(start, h2) == flow_of(start, h1).after(Happening::Written));
        assert(is_history(start, h2));
        assert(is_history(start, h3));
        assert(flow_of(start, h3) == flow_of(start, h2).after(Happening::Flushed));
        assert(flow_of(start, h2).written =~= chunks.last());
    }
}

/// A relay that has stopped does nothing more, whatever happens.
pub proof fn stopped_relay_stays_stopped(relay: Relay, event: RelayEvent)
    requires
        relay.phase == Phase::Stopped,
    ensures
        relay.after(event) == relay,
        relay.wanted() == RelayAction::Stop,
{
}

/// A relay that neither read nor wrote badly has no failure to its name.
pub proof fn failures_have_causes(relay: Relay, event: RelayEvent)
    ensures
        relay.after(event).source_failed && !relay.source_failed ==> event
            == RelayEvent::ReadFailed || event == RelayEvent::FlushFailed,
        relay.after(event).sink_failed && !relay.sink_failed ==> event == RelayEvent::WriteFailed
            || event == RelayEvent::FlushFailed,
{
}

// ---------------------------------------------------------------------------
// What is worth a note
// ---------------------------------------------------------------------------

/// How many bytes lie between two notes of progress.
pub const PROGRESS_STEP: u64 = 1048576;

/// The last `n` of `total` bytes went past a multiple of the progress step.
pub open spec fn passes_step(total: int, n: int) -> bool {
    exists|k: int| total - n < #[trigger] (k * PROGRESS_STEP) <= total
}

/// Whether the last `n` of `total` bytes are worth a note of progress.
pub fn progress_due(total: u64, n: usize) -> (r: bool)
    requires
        n <= total,
    ensures
        r == passes_step(total as int, n as int),
{
    let r = total % PROGRESS_STEP < n as u64;
    proof {
        let q = total as int / PROGRESS_STEP as int;
        assert(q * PROGRESS_STEP == total - total % PROGRESS_STEP);
        if r {
            assert(total - n < q * PROGRESS_STEP <= total);
        } else if passes_step(total as int, n as int) {
            let k = choose|k: int| total - n < #[trigger] (k * PROGRESS_STEP) <= total;
            assert(k * PROGRESS_STEP <= total as int);
            assert(k <= q) by (nonlinear_arith)
                requires
                    k * 1048576 <= total as int,
                    q == total as int / 1048576,
            ;
            assert(k * 1048576 <= q * 1048576) by (nonlinear_arith)
                requires
                    k <= q,
            ;
        }
    }
    r
}

/// Progress is noted once for every mebibyte that a transfer goes past, however
/// the bytes arrive.
pub proof fn progress_is_noted_by_the_mebibyte(total: int, n: int)
    requires
        0 <= n <= total,
    ensures
        passes_step(total, n) == (total / 1_048_576 > (total - n) / 1_048_576),
{
    let a = total / 1_048_576;
    let b = (total - n) / 1_048_576;
    if a > b {
        assert(total - n < a * PROGRESS_STEP <= total);
    }
    if passes_step(total, n) {
        let k = choose|k: int| total - n < #[trigger] (k * PROGRESS_STEP) <= total;
        assert(b < k <= a) by (nonlinear_arith)
            requires
                a == total / 1_048_576,
                b == (total - n) / 1_048_576,
                total - n < k * 1_048_576 <= total,
        ;
    }
}

/// How many of the `n` bytes just transferred are worth showing.
pub open spec fn sample_size(total: int, n: int) -> Option<int> {
    if n > 10 && total < 10000 {
        Some(
            if n < 100 {
                n
            } else {
                100
            },
        )
    } else {
        None
    }
}

/// How many of the `n` bytes just transferred are worth showing: early in a
/// transfer up to a hundred of them, later none.
pub fn sample_len(total: u64, n: usize) -> (r: Option<usize>)
    ensures
        match r {
            Some(k) => sample_size(total as int, n as int) == Some(k as int) && k <= n,
            None => sample_size(total as int, n as int) is None,
        },
{
    if n > 10 && total < 10000 {
        if n < 100 {
            Some(n)
        } else {
            Some(100)
        }
    } else {
        None
    }
}

/// A transfer has become unusually large.
pub open spec fn is_large(total: int) -> bool {
    total > 100_000_000
}

/// A read was so large that others should get a turn.
pub open spec fn is_greedy(n: int) -> bool {
    n > 100_000
}

/// A WebSocket transfer is worth a note of progress.
pub open spec fn is_websocket_step(total: int) -> bool {
    total % 10240 == 0
}

/// A WebSocket transfer has become unusually large, or that much larger.
pub open spec fn is_large_websocket(total: int) -> bool {
    total > 100_000 && total % 100_000 < 10240
}

/// Whether a transfer has become unusually large.
pub fn is_large_transfer(total: u64) -> (r: bool)
    ensures
        r == (total > 100_000_000),
        r == is_large(total as int),
{
    total > 100_000_000
}

/// Whether a read was so large that others should get a turn.
pub fn should_yield(n: usize) -> (r: bool)
    ensures
        r == (n > 100_000),
        r == is_greedy(n as int),
{
    n > 100_000
}

/// Whether a WebSocket transfer is worth a note of progress.
pub fn websocket_progress_due(total: u64) -> (r: bool)
    ensures
        r == (total % 10240 == 0),
        r == is_websocket_step(total as int),
{
    total % 10240 == 0
}

/// Whether a WebSocket transfer has become unusually large.
pub fn is_large_websocket_transfer(total: u64) -> (r: bool)
    ensures
        r == (total > 100_000 && total % 100_000 < 10240),
        r == is_large_websocket(total as int),
{
    total > 100_000 && total % 100_000 < 10240
}

/// Counts the bytes since the rate was last noted.
#[derive(Debug, Clone, Copy, PartialEq, Eq, Structural)]
pub struct RateWatch {
    pub bytes: u64,
}

/// How long a rate has to be watched before it is noted, in nanoseconds.
pub const RATE_PERIOD: u64 = 5_000_000_000;

impl RateWatch {
    /// A watch that has counted nothing.
    pub open spec fn fresh() -> RateWatch {
        RateWatch { bytes: 0 }
    }

    pub fn new() -> (r: Self)
        ensures
            r.bytes == 0,
            r == RateWatch::fresh(),
    {
        RateWatch { bytes: 0 }
    }

    /// The watch after so many bytes and nanoseconds, and the bytes to note.
    pub open spec fn next(self, n: int, elapsed: int) -> (RateWatch, Option<u64>) {
        if self.bytes + n > PROGRESS_STEP && elapsed > RATE_PERIOD {
            (RateWatch { bytes: 0 }, Some((self.bytes + n) as u64))
        } else {
            (RateWatch { bytes: (self.bytes + n) as u64 }, None)
        }
    }

    /// Takes note of bytes, and of the nanoseconds since the rate was last
    /// noted. Where a note is due it gives the bytes to note and starts anew.
    pub fn count(&mut self, n: usize, elapsed: u64) -> (r: Option<u64>)
        requires
            old(self).bytes + n <= u64::MAX,
        ensures
            r == (if old(self).bytes + n > PROGRESS_STEP && elapsed > RATE_PERIOD {
                Some((old(self).bytes + n) as u64)
            } else {
                None
            }),
            final(self).bytes == (if r is Some {
                0
            } else {
                old(self).bytes + n
            }),
            (*final(self), r) == old(self).next(n as int, elapsed as int),
    {
        self.bytes = self.bytes + n as u64;
        if self.bytes > PROGRESS_STEP && elapsed > RATE_PERIOD {
            let noted: u64 = self.bytes;
            self.bytes = 0;
            Some(noted)
        } else {
            None
        }
    }
}

/// Every byte is noted once: what is noted and what is still to be noted make
/// up what was counted. A note is due exactly where more than a mebibyte was
/// counted in more than five seconds.
pub proof fn counted_bytes_are_noted_once(watch: RateWatch, n: int, elapsed: int)
    requires
        0 <= n,
        watch.bytes + n <= u64::MAX,
    ensures
        ({
            let (after, noted) = watch.next(n, elapsed);
            &&& watch.bytes + n == after.bytes + (match noted {
                Some(bytes) => bytes as int,
                None => 0,
            })
            &&& noted is Some ==> after.bytes == 0
            &&& (noted is Some) == (watch.bytes + n > 1_048_576 && elapsed > 5_000_000_000)
        }),
{
}

/// The limit that an idle timeout in seconds sets.
pub open spec fn limit_of(idle_timeout: u64) -> Option<u64> {
    if idle_timeout > 0 {
        Some(idle_timeout)
    } else {
        None
    }
}

/// Every timeout but zero is a limit, and is kept as it was given.
pub proof fn timeouts_are_limits(idle_timeout: u64)
    ensures
        limit_of(idle_timeout) is None == (idle_timeout == 0),
        limit_of(idle_timeout) matches Some(seconds) ==> seconds == idle_timeout,
{
}

/// The limit that an idle timeout in seconds sets: none where it is zero.
pub fn idle_limit(idle_timeout: u64) -> (r: Option<u64>)
    ensures
        r == limit_of(idle_timeout),
        r == (if idle_timeout > 0 {
            Some(idle_timeout)
        } else {
            None
        }),
{
    if idle_timeout > 0 {
        Some(idle_timeout)
    } else {
        None
    }
}

/// A fresh relay reads first, has counted nothing and holds nothing against
/// anyone, and counts and blames as it was told to.
pub proof fn fresh_relays_read(counting: Counting, flush_blames_source: bool)
    ensures
        is_fresh(Relay::fresh(counting, flush_blames_source)),
        Relay::fresh(counting, flush_blames_source).wanted() == RelayAction::Read,
        Relay::fresh(counting, flush_blames_source).total == 0,
        !Relay::fresh(counting, flush_blames_source).source_failed,
        !Relay::fresh(counting, flush_blames_source).sink_failed,
        Relay::fresh(counting, flush_blames_source).counting == counting,
        Relay::fresh(counting, flush_blames_source).flush_blames_source == flush_blames_source,
{
}

/// Bytes count as soon as they are read, or once they are flushed, as the relay
/// was told to; until then none of them do.
pub proof fn bytes_count_when_they_should(relay: Relay, n: usize)
    requires
        relay.wanted() == RelayAction::Read,
        n > 0,
        relay.total + n <= u64::MAX,
    ensures
        relay.counting == Counting::WhenRead ==> relay.after(RelayEvent::Read(n)).total
            == relay.total + n,
        relay.counting == Counting::WhenFlushed ==> relay.after(RelayEvent::Read(n)).after(
            RelayEvent::Written,
        ).total == relay.total,
        relay.after(RelayEvent::Read(n)).after(RelayEvent::WriteFailed).total == relay.after(
            RelayEvent::Read(n),
        ).total,
        relay.after(RelayEvent::Read(n)).after(RelayEvent::Written).after(
            RelayEvent::FlushFailed,
        ).total == relay.after(RelayEvent::Read(n)).total,
{
}

/// What does not belong to what a relay is doing changes nothing.
pub proof fn relays_ignore_what_is_out_of_turn(relay: Relay, event: RelayEvent)
    requires
        match relay.wanted() {
            RelayAction::Read => !(event is Read) && event != RelayEvent::ReadFailed && event
                != RelayEvent::Idle,
            RelayAction::Write(_) => event != RelayEvent::Written && event
                != RelayEvent::WriteFailed,
            RelayAction::Flush => event != RelayEvent::Flushed && event
                != RelayEvent::FlushFailed,
            RelayAction::Stop => true,
        },
    ensures
        relay.after(event) == relay,
{
}

/// A copy that fails stops the relay. It is held against the source unless the
/// connection was merely closed, and nothing else changes.
pub proof fn failed_copies_stop_the_relay(relay: Relay, connection_closed: bool)
    ensures
        relay.after_failed_copy(connection_closed).wanted() == RelayAction::Stop,
        relay.after_failed_copy(true).source_failed == relay.source_failed,
        relay.after_failed_copy(false).source_failed,
        relay.after_failed_copy(connection_closed).sink_failed == relay.sink_failed,
        relay.after_failed_copy(connection_closed).total == relay.total,
{
}

/// Of a read of more than ten bytes up to a hundred are shown, and all where
/// there are fewer, as long as fewer than ten thousand were transferred.
pub proof fn samples_are_short(total: int, n: int)
    ensures
        n <= 10 || total >= 10_000 ==> sample_size(total, n) is None,
        n > 10 && total < 10_000 ==> (sample_size(total, n) matches Some(k) && k <= n && k <= 100
            && (k == n || k == 100)),
{
}

/// A transfer is large above a hundred million bytes, and a read leaves others a
/// turn above a hundred thousand. A WebSocket transfer is noted at every multiple
/// of ten kibibytes, and is large above a hundred thousand bytes, for ten
/// kibibytes from every multiple of that on.
pub proof fn transfers_are_noted_by_their_size(total: int, k: int)
    requires
        0 <= total,
    ensures
        is_large(total) == (total >= 100_000_001),
        is_greedy(total) == (total >= 100_001),
        total == 10_240 * k ==> is_websocket_step(total),
        10_240 * k < total < 10_240 * (k + 1) ==> !is_websocket_step(total),
        k >= 1 && 100_000 * k < total < 100_000 * k + 10_240 ==> is_large_websocket(total),
        k >= 0 && 100_000 * k + 10_240 <= total < 100_000 * (k + 1) ==> !is_large_websocket(total),
        total <= 100_000 ==> !is_large_websocket(total),
        k >= 2 && total == 100_000 * k ==> is_large_websocket(total),
{
}

/// A new watch notes what it counts from the first byte on.
pub proof fn new_watches_have_counted_nothing(n: int)
    requires
        1_048_576 < n <= u64::MAX,
    ensures
        RateWatch::fresh().bytes == 0,
        RateWatch::fresh().next(n, 5_000_000_001).1 == Some(n as u64),
        RateWatch::fresh().next(n, 5_000_000_000).1 is None,
{
}

} // verus!
