//! The relay loop: the per-connection state machine that pumps items
//! between one transport and the shared broadcast bus.
//!
//! Each iteration services one of two events — an inbound transport
//! receive, or a bus subscription receive — and either keeps running or
//! terminates.  `chat_loop` runs a whole session over an explicit
//! schedule of which event fires at each iteration, standing for the
//! nondeterministic interleaving of a concurrent deployment.  The
//! per-event decisions are also exposed on their own (`on_transport_recv`,
//! `on_bus_recv`, `on_send_result`) so that a concurrent driver can act
//! on exactly the verified policy.

use vstd::prelude::*;

use crate::bus::{Bus, BusRecv, Subscription};
use crate::traits::{ChatCommErr, ChatSink, ChatStream, Duplicable};

verus! {

/// The two states of a relay.
#[derive(Debug, PartialEq, Eq, Structural)]
pub enum RelayState {
    Running,
    Terminated,
}

/// What to do after a transport receive completes.
#[derive(Debug)]
pub enum TransportStep<T> {
    /// Publish the received item to the bus and remain running.
    Publish(T),
    /// The transport is terminal: end this connection's relay.
    Stop,
}

/// What to do after a bus subscription receive completes.
#[derive(Debug)]
pub enum BusStep<T> {
    /// Attempt a transport send of this item.
    Deliver(T),
    /// Nothing to act on (a lag report, or nothing ready): keep running.
    Skip,
    /// The bus is gone: end this connection's relay.
    Stop,
}

/// The relay's policy for a completed transport receive: an item is
/// published, a terminal result ends the relay.
pub fn on_transport_recv<T>(r: Result<T, ChatCommErr>) -> (s: TransportStep<T>)
    ensures
        match r {
            Ok(item) => s == TransportStep::Publish(item),
            Err(_) => s is Stop,
        },
{
    match r {
        Ok(item) => TransportStep::Publish(item),
        Err(_) => TransportStep::Stop,
    }
}

/// The relay's policy for a completed bus receive: an item goes to the
/// transport send side; a lag report is ignored (it is not fatal); a
/// closed bus ends the relay.
pub fn on_bus_recv<T>(r: BusRecv<T>) -> (s: BusStep<T>)
    ensures
        match r {
            BusRecv::Item(m) => s == BusStep::Deliver(m),
            BusRecv::Lagged(_) => s is Skip,
            BusRecv::Empty => s is Skip,
            BusRecv::Closed => s is Stop,
        },
{
    match r {
        BusRecv::Item(m) => BusStep::Deliver(m),
        BusRecv::Lagged(_) => BusStep::Skip,
        BusRecv::Empty => BusStep::Skip,
        BusRecv::Closed => BusStep::Stop,
    }
}

/// The relay's policy for a completed transport send: a failure is
/// terminal, nothing is retried.
pub fn on_send_result(r: &Result<(), ChatCommErr>) -> (s: RelayState)
    ensures
        r is Ok ==> s == RelayState::Running,
        r is Err ==> s == RelayState::Terminated,
{
    match r {
        Ok(_) => RelayState::Running,
        Err(_) => RelayState::Terminated,
    }
}

/// `idxs` witnesses that `after` extends `before` by items read off
/// `log` at strictly increasing positions: deliveries follow publish
/// order and duplicate nothing.
pub open spec fn is_delivery<V>(idxs: Seq<int>, before: Seq<V>, after: Seq<V>, log: Seq<V>) -> bool {
    &&& after == before + idxs.map_values(|j: int| log[j])
    &&& (forall|a: int| 0 <= a < idxs.len() ==> 0 <= #[trigger] idxs[a] < log.len())
    &&& (forall|a: int, b: int| 0 <= a < b < idxs.len() ==> idxs[a] < idxs[b])
}

/// The items a sink gained were taken from the bus log in publish order.
pub open spec fn delivered_in_order<V>(before: Seq<V>, after: Seq<V>, log: Seq<V>) -> bool {
    exists|idxs: Seq<int>| is_delivery(idxs, before, after, log)
}

/// How many entries of a schedule pick the transport arm.
pub open spec fn count_true(s: Seq<bool>) -> int
    decreases s.len(),
{
    if s.len() == 0 {
        0
    } else {
        count_true(s.drop_last()) + if s.last() {
            1int
        } else {
            0int
        }
    }
}

/// One event of a relay run, by the items' abstract values.  A run's
/// ghost trace holds one event per schedule entry the loop consumed.
pub enum RelayEvent<V> {
    /// The transport yielded this item; it was published to the bus.
    Received(V),
    /// The transport receive was terminal.
    RecvFailed,
    /// The subscription yielded this item; the sink accepted it.
    Delivered(V),
    /// The subscription yielded this item; the sink refused it.
    SendFailed(V),
    /// The subscription reported dropped items; ignored.
    LagSkipped,
    /// Nothing published beyond the cursor yet; ignored.
    NothingReady,
    /// The bus was torn down.
    BusClosed,
}

/// The events that end a relay: a terminal receive, a terminal send,
/// or the closure of the bus — and nothing else.
pub open spec fn is_terminal_event<V>(e: RelayEvent<V>) -> bool {
    e is RecvFailed || e is SendFailed || e is BusClosed
}

/// The events of the transport arm of the schedule.
pub open spec fn is_transport_event<V>(e: RelayEvent<V>) -> bool {
    e is Received || e is RecvFailed
}

/// The relay's visible state during a run: what the stream still
/// holds, the bus log, this subscription's cursor, and what the sink
/// has accepted.
pub struct RelayRun<V> {
    pub pending: Seq<V>,
    pub log: Seq<V>,
    pub pos: int,
    pub sent: Seq<V>,
}

/// How one event changes the visible state — or `None` if the event
/// could not have happened there.  The bus events are forced: an item
/// is delivered exactly when one is ready within capacity and is
/// exactly the log entry at the cursor; a lag report comes exactly
/// when the cursor fell more than `cap` behind and jumps it to the
/// oldest retained item; `NothingReady`/`BusClosed` come exactly at a
/// drained cursor on an open/closed bus.  Only the transport's own
/// failures are free: the trait leaves them to the implementation.
pub open spec fn replay_step<V>(s: RelayRun<V>, cap: nat, closed: bool, e: RelayEvent<V>) -> Option<
    RelayRun<V>,
> {
    match e {
        RelayEvent::Received(v) => if s.pending.len() > 0 && v == s.pending[0] {
            Some(
                RelayRun {
                    pending: s.pending.drop_first(),
                    log: s.log.push(v),
                    pos: s.pos,
                    sent: s.sent,
                },
            )
        } else {
            None
        },
        RelayEvent::RecvFailed => Some(s),
        RelayEvent::Delivered(v) => if 0 <= s.pos < s.log.len() && s.log.len() - s.pos <= cap && v
            == s.log[s.pos] {
            Some(RelayRun { pending: s.pending, log: s.log, pos: s.pos + 1, sent: s.sent.push(v) })
        } else {
            None
        },
        RelayEvent::SendFailed(v) => if 0 <= s.pos < s.log.len() && s.log.len() - s.pos <= cap && v
            == s.log[s.pos] {
            Some(RelayRun { pending: s.pending, log: s.log, pos: s.pos + 1, sent: s.sent })
        } else {
            None
        },
        RelayEvent::LagSkipped => if s.log.len() - s.pos > cap {
            Some(
                RelayRun {
                    pending: s.pending,
                    log: s.log,
                    pos: s.log.len() - cap,
                    sent: s.sent,
                },
            )
        } else {
            None
        },
        RelayEvent::NothingReady => if s.pos == s.log.len() && !closed {
            Some(s)
        } else {
            None
        },
        RelayEvent::BusClosed => if s.pos == s.log.len() && closed {
            Some(s)
        } else {
            None
        },
    }
}

/// Whether a trace is a possible run: each event sits on its scheduled
/// arm and was possible in the state the previous events produced.
pub open spec fn valid_trace<V>(
    t: Seq<RelayEvent<V>>,
    schedule: Seq<bool>,
    s: RelayRun<V>,
    cap: nat,
    closed: bool,
) -> bool
    decreases t.len(),
{
    if t.len() == 0 {
        true
    } else {
        &&& schedule.len() > 0
        &&& is_transport_event(t[0]) == schedule[0]
        &&& (replay_step(s, cap, closed, t[0]) matches Some(s2) && valid_trace(
            t.drop_first(),
            schedule.drop_first(),
            s2,
            cap,
            closed,
        ))
    }
}

/// The visible state a trace leaves behind.
pub open spec fn replay<V>(t: Seq<RelayEvent<V>>, s: RelayRun<V>, cap: nat, closed: bool) -> RelayRun<
    V,
>
    decreases t.len(),
{
    if t.len() == 0 {
        s
    } else {
        match replay_step(s, cap, closed, t[0]) {
            Some(s2) => replay(t.drop_first(), s2, cap, closed),
            None => s,
        }
    }
}

/// Extending a valid trace by one possible event keeps it valid and
/// advances the replayed state by that event.
proof fn lemma_trace_snoc<V>(
    t: Seq<RelayEvent<V>>,
    schedule: Seq<bool>,
    s: RelayRun<V>,
    cap: nat,
    closed: bool,
    e: RelayEvent<V>,
    b: bool,
    s2: RelayRun<V>,
)
    requires
        valid_trace(t, schedule, s, cap, closed),
        t.len() == schedule.len(),
        is_transport_event(e) == b,
        replay_step(replay(t, s, cap, closed), cap, closed, e) == Some(s2),
    ensures
        valid_trace(t.push(e), schedule.push(b), s, cap, closed),
        replay(t.push(e), s, cap, closed) == s2,
    decreases t.len(),
{
    if t.len() == 0 {
        assert(replay(t, s, cap, closed) == s);
        assert(replay_step(s, cap, closed, e) == Some(s2));
        assert(t.push(e)[0] == e);
        assert(schedule.push(b)[0] == b);
        assert(t.push(e).drop_first() =~= Seq::<RelayEvent<V>>::empty());
        assert(schedule.push(b).drop_first() =~= Seq::<bool>::empty());
        assert(valid_trace(t.push(e).drop_first(), schedule.push(b).drop_first(), s2, cap, closed));
        assert(valid_trace(t.push(e), schedule.push(b), s, cap, closed));
        assert(replay(t.push(e).drop_first(), s2, cap, closed) == s2);
        assert(replay(t.push(e), s, cap, closed) == s2);
    } else {
        assert(t.push(e)[0] == t[0]);
        assert(schedule.push(b)[0] == schedule[0]);
        assert(t.push(e).drop_first() =~= t.drop_first().push(e));
        assert(schedule.push(b).drop_first() =~= schedule.drop_first().push(b));
        let sm = replay_step(s, cap, closed, t[0]);
        assert(sm is Some);
        assert(replay(t, s, cap, closed) == replay(t.drop_first(), sm->Some_0, cap, closed));
        lemma_trace_snoc(
            t.drop_first(),
            schedule.drop_first(),
            sm->Some_0,
            cap,
            closed,
            e,
            b,
            s2,
        );
        assert(valid_trace(t.drop_first().push(e), schedule.drop_first().push(b), sm->Some_0, cap, closed));
        assert(valid_trace(t.push(e), schedule.push(b), s, cap, closed));
        assert(replay(t.push(e), s, cap, closed) == s2);
    }
}

/// The replay of a run without lag reports or failed sends keeps the
/// starting state's log as a prefix, moves the cursor only forward,
/// and hands the sink exactly the log entries the cursor passed over.
proof fn lemma_run_delivers_cursor_range<V>(
    t: Seq<RelayEvent<V>>,
    schedule: Seq<bool>,
    s: RelayRun<V>,
    cap: nat,
    closed: bool,
)
    requires
        valid_trace(t, schedule, s, cap, closed),
        forall|j: int| 0 <= j < t.len() ==> !((#[trigger] t[j]) is LagSkipped) && !(t[j] is SendFailed),
        0 <= s.pos <= s.log.len(),
    ensures
        ({
            let f = replay(t, s, cap, closed);
            &&& s.pos <= f.pos <= f.log.len()
            &&& s.log.len() <= f.log.len()
            &&& f.log.take(s.log.len() as int) == s.log
            &&& f.sent == s.sent + f.log.subrange(s.pos, f.pos)
        }),
    decreases t.len(),
{
    let f = replay(t, s, cap, closed);
    if t.len() == 0 {
        assert(f.log.take(s.log.len() as int) =~= s.log);
        assert(f.sent =~= s.sent + f.log.subrange(s.pos, f.pos));
    } else {
        let e = t[0];
        let s2 = replay_step(s, cap, closed, e)->Some_0;
        assert(forall|j: int|
            0 <= j < t.drop_first().len() ==> !((#[trigger] t.drop_first()[j]) is LagSkipped) && !(
            t.drop_first()[j] is SendFailed));
        lemma_run_delivers_cursor_range(t.drop_first(), schedule.drop_first(), s2, cap, closed);
        match e {
            RelayEvent::Received(v) => {
                assert(s2.log == s.log.push(v));
                assert(f.log.take(s.log.len() as int) =~= f.log.take(s2.log.len() as int).take(
                    s.log.len() as int,
                ));
                assert(f.log.take(s.log.len() as int) =~= s.log);
            },
            RelayEvent::Delivered(v) => {
                assert(s2.log == s.log);
                assert(f.log[s.pos] == f.log.take(s.log.len() as int)[s.pos]);
                assert(f.log[s.pos] == v);
                assert(s2.sent + f.log.subrange(s2.pos, f.pos) =~= s.sent + (seq![v]
                    + f.log.subrange(s.pos + 1, f.pos)));
                assert(seq![v] + f.log.subrange(s.pos + 1, f.pos) =~= f.log.subrange(s.pos, f.pos));
            },
            _ => {},
        }
    }
}

/// Law: no loss under non-overflow, at the relay loop.  Over any run
/// that reported no lag and failed no send, once the subscription's
/// cursor has caught up with the log, the sink has been handed every
/// item published since the run's starting cursor — the bus log's
/// whole tail, in publish order, nothing dropped and nothing
/// reordered.
pub proof fn lemma_no_loss_run<V>(
    t: Seq<RelayEvent<V>>,
    schedule: Seq<bool>,
    s: RelayRun<V>,
    cap: nat,
    closed: bool,
)
    requires
        valid_trace(t, schedule, s, cap, closed),
        forall|j: int| 0 <= j < t.len() ==> !((#[trigger] t[j]) is LagSkipped) && !(t[j] is SendFailed),
        0 <= s.pos <= s.log.len(),
        replay(t, s, cap, closed).pos == replay(t, s, cap, closed).log.len(),
    ensures
        replay(t, s, cap, closed).sent == s.sent + replay(t, s, cap, closed).log.skip(s.pos),
{
    lemma_run_delivers_cursor_range(t, schedule, s, cap, closed);
    let f = replay(t, s, cap, closed);
    assert(f.log.subrange(s.pos, f.pos) =~= f.log.skip(s.pos));
}

/// Runs one connection's relay: concurrently drains the transport's
/// receive side into the bus and the bus subscription into the
/// transport's send side, until either direction terminates.
///
/// `schedule` fixes which of the two events fires at each iteration
/// (`true`: transport receive; `false`: bus receive); any interleaving
/// may be passed, none is assumed.  The subscription is released on
/// every exit path.
///
/// The contract pins down:
/// - items received from the transport are published to the bus in
///   exactly the order received (nothing reordered, dropped or added);
/// - items handed to the transport's send side were read off the bus
///   log in publish order;
/// - the subscription is released: the subscriber count drops by one;
/// - the whole run, through its ghost trace (the second component of
///   the result): one event per consumed schedule entry, on the
///   scheduled arm, each possible in the state the previous ones left
///   (`valid_trace`), with the final transport, bus and sink state
///   being exactly the trace's replay.  Only the last event may be
///   terminal, the run stops early exactly on one, and `Terminated`
///   comes exactly from a terminal last event — a failed receive, a
///   failed send, or the closed bus, and nothing else.  On a schedule
///   whose outcome no transport call decides (bus arms only, with a
///   drained cursor on an open bus) the relay stays `Running`.
pub fn chat_loop<Snk, Strm>(
    sink: &mut Snk,
    stream: &mut Strm,
    bus: &mut Bus<Snk::Item>,
    sub: Subscription,
    schedule: &Vec<bool>,
) -> (r: (RelayState, Ghost<Seq<RelayEvent<<Snk::Item as View>::V>>>)) where
    Snk: ChatSink,
    Snk::Item: Duplicable,
    Strm: ChatStream<Item = Snk::Item>,

    requires
        old(bus).subscriber_count() >= 1,
        sub.pos() <= old(bus).log().len(),
    ensures
        final (bus).cap() == old(bus).cap(),
        final (bus).is_closed() == old(bus).is_closed(),
        final (bus).subscriber_count() == old(bus).subscriber_count() - 1,
        exists|n: int|
            0 <= n <= old(stream).pending().len() && final (bus).log() == old(bus).log() + #[trigger] old(
                stream,
            ).pending().take(n) && final (stream).pending() == old(stream).pending().skip(n),
        delivered_in_order(old(sink).sent(), final (sink).sent(), final (bus).log()),
        schedule@.len() == 0 ==> r.0 == RelayState::Running,
        r.0 == RelayState::Running ==> final (stream).pending() == old(stream).pending().skip(
            count_true(schedule@),
        ) && final (bus).log() == old(bus).log() + old(stream).pending().take(
            count_true(schedule@),
        ),
        r.1@.len() <= schedule@.len(),
        valid_trace(
            r.1@,
            schedule@.take(r.1@.len() as int),
            (RelayRun {
                pending: old(stream).pending(),
                log: old(bus).log(),
                pos: sub.pos() as int,
                sent: old(sink).sent(),
            }),
            old(bus).cap(),
            old(bus).is_closed(),
        ),
        ({
            let fin = replay(
                r.1@,
                (RelayRun {
                    pending: old(stream).pending(),
                    log: old(bus).log(),
                    pos: sub.pos() as int,
                    sent: old(sink).sent(),
                }),
                old(bus).cap(),
                old(bus).is_closed(),
            );
            final (stream).pending() == fin.pending && final (bus).log() == fin.log
                && final (sink).sent() == fin.sent
        }),
        forall|j: int| 0 <= j < r.1@.len() - 1 ==> !is_terminal_event(#[trigger] r.1@[j]),
        r.1@.len() < schedule@.len() ==> r.1@.len() > 0 && is_terminal_event(r.1@.last()),
        (r.0 == RelayState::Terminated) <==> (r.1@.len() > 0 && is_terminal_event(r.1@.last())),
        (forall|j: int| 0 <= j < schedule@.len() ==> #[trigger] schedule@[j] == false) && sub.pos()
            == old(bus).log().len() && !old(bus).is_closed() ==> r.0 == RelayState::Running,
{
    let ghost pos0 = sub.pos() as int;
    let mut sub = sub;
    let mut running: bool = true;
    let mut i: usize = 0;
    let ghost mut k: int = 0;
    let ghost mut idxs: Seq<int> = Seq::empty();
    let ghost init = RelayRun {
        pending: old(stream).pending(),
        log: old(bus).log(),
        pos: pos0,
        sent: old(sink).sent(),
    };
    let ghost cap0 = old(bus).cap();
    let ghost closed0 = old(bus).is_closed();
    let ghost mut trace: Seq<RelayEvent<<Snk::Item as View>::V>> = Seq::empty();
    proof {
        assert(bus.log() =~= old(bus).log() + old(stream).pending().take(0));
        assert(stream.pending() =~= old(stream).pending().skip(0));
        assert(idxs.map_values(|j: int| bus.log()[j]) =~= Seq::<<Snk::Item as View>::V>::empty());
        assert(sink.sent() =~= old(sink).sent() + idxs.map_values(|j: int| bus.log()[j]));
        assert(valid_trace(trace, schedule@.take(0), init, cap0, closed0));
        assert(replay(trace, init, cap0, closed0) == init);
    }
    while running && i < schedule.len()
        invariant
            i <= schedule.len(),
            bus.cap() == old(bus).cap(),
            bus.is_closed() == old(bus).is_closed(),
            bus.subscriber_count() == old(bus).subscriber_count(),
            0 <= k <= old(stream).pending().len(),
            bus.log() == old(bus).log() + old(stream).pending().take(k),
            stream.pending() == old(stream).pending().skip(k),
            sub.pos() <= bus.log().len(),
            is_delivery(idxs, old(sink).sent(), sink.sent(), bus.log()),
            forall|a: int| 0 <= a < idxs.len() ==> #[trigger] idxs[a] < sub.pos(),
            running ==> k == count_true(schedule@.take(i as int)),
            schedule@.len() == 0 ==> running,
            cap0 == bus.cap(),
            closed0 == bus.is_closed(),
            trace.len() == i as int,
            valid_trace(trace, schedule@.take(i as int), init, cap0, closed0),
            replay(trace, init, cap0, closed0) == (RelayRun {
                pending: stream.pending(),
                log: bus.log(),
                pos: sub.pos() as int,
                sent: sink.sent(),
            }),
            forall|j: int| 0 <= j < trace.len() - 1 ==> !is_terminal_event(#[trigger] trace[j]),
            running <==> !(trace.len() > 0 && is_terminal_event(trace.last())),
            (forall|j: int| 0 <= j < schedule@.len() ==> #[trigger] schedule@[j] == false) && init.pos
                == init.log.len() && !closed0 ==> running && sub.pos() == bus.log().len()
                && bus.log() == init.log,
        decreases schedule.len() - i,
    {
        proof {
            assert(schedule@.take(i as int + 1).drop_last() =~= schedule@.take(i as int));
            assert(schedule@.take(i as int + 1).last() == schedule@[i as int]);
            assert(schedule@.take(i as int + 1) =~= schedule@.take(i as int).push(
                schedule@[i as int],
            ));
        }
        let ghost cur = RelayRun {
            pending: stream.pending(),
            log: bus.log(),
            pos: sub.pos() as int,
            sent: sink.sent(),
        };
        if schedule[i] {
            match stream.recv_msg() {
                Ok(item) => {
                    let ghost pending0 = old(stream).pending();
                    let ghost prevlog = bus.log();
                    let ghost itemv = item@;
                    proof {
                        assert(itemv == pending0.skip(k)[0]);
                        assert(itemv == pending0[k]);
                    }
                    bus.publish(item);
                    proof {
                        let ghost k2 = k + 1;
                        assert(pending0.take(k2) =~= pending0.take(k).push(pending0[k]));
                        assert(bus.log() =~= old(bus).log() + pending0.take(k2));
                        assert(stream.pending() =~= pending0.skip(k2));
                        assert(idxs.map_values(|j: int| bus.log()[j]) =~= idxs.map_values(
                            |j: int| prevlog[j],
                        ));
                        k = k2;
                        let e = RelayEvent::Received(itemv);
                        let s2 = RelayRun {
                            pending: cur.pending.drop_first(),
                            log: cur.log.push(itemv),
                            pos: cur.pos,
                            sent: cur.sent,
                        };
                        assert(itemv == cur.pending[0]);
                        assert(replay_step(cur, cap0, closed0, e) == Some(s2));
                        lemma_trace_snoc(
                            trace,
                            schedule@.take(i as int),
                            init,
                            cap0,
                            closed0,
                            e,
                            true,
                            s2,
                        );
                        trace = trace.push(e);
                    }
                },
                Err(_) => {
                    proof {
                        let e = RelayEvent::RecvFailed;
                        assert(replay_step(cur, cap0, closed0, e) == Some::<
                            RelayRun<<Snk::Item as View>::V>,
                        >(cur));
                        lemma_trace_snoc(
                            trace,
                            schedule@.take(i as int),
                            init,
                            cap0,
                            closed0,
                            e,
                            true,
                            cur,
                        );
                        trace = trace.push(e);
                    }
                    running = false;
                },
            }
        } else {
            let ghost p = sub.pos() as int;
            match bus.recv(&mut sub) {
                BusRecv::Item(m) => {
                    let ghost mv = m@;
                    proof {
                        if bus.log().len() - p > bus.cap() {
                            assert(false);
                        }
                        if p == bus.log().len() {
                            assert(false);
                        }
                    }
                    match sink.send_msg(m) {
                        Ok(_) => {
                            proof {
                                let idxs2 = idxs.push(p);
                                assert(idxs2.map_values(|j: int| bus.log()[j]) =~= idxs.map_values(
                                    |j: int| bus.log()[j],
                                ).push(mv));
                                assert(sink.sent() =~= old(sink).sent() + idxs2.map_values(
                                    |j: int| bus.log()[j],
                                ));
                                idxs = idxs2;
                                let e = RelayEvent::Delivered(mv);
                                let s2 = RelayRun {
                                    pending: cur.pending,
                                    log: cur.log,
                                    pos: p + 1,
                                    sent: cur.sent.push(mv),
                                };
                                assert(replay_step(cur, cap0, closed0, e) == Some(s2));
                                lemma_trace_snoc(
                                    trace,
                                    schedule@.take(i as int),
                                    init,
                                    cap0,
                                    closed0,
                                    e,
                                    false,
                                    s2,
                                );
                                trace = trace.push(e);
                            }
                        },
                        Err(_) => {
                            proof {
                                let e = RelayEvent::SendFailed(mv);
                                let s2 = RelayRun {
                                    pending: cur.pending,
                                    log: cur.log,
                                    pos: p + 1,
                                    sent: cur.sent,
                                };
                                assert(replay_step(cur, cap0, closed0, e) == Some(s2));
                                lemma_trace_snoc(
                                    trace,
                                    schedule@.take(i as int),
                                    init,
                                    cap0,
                                    closed0,
                                    e,
                                    false,
                                    s2,
                                );
                                trace = trace.push(e);
                            }
                            running = false;
                        },
                    }
                },
                BusRecv::Lagged(_) => {
                    proof {
                        assert(bus.log().len() - p > bus.cap());
                        let e = RelayEvent::LagSkipped;
                        let s2 = RelayRun {
                            pending: cur.pending,
                            log: cur.log,
                            pos: cur.log.len() - cap0,
                            sent: cur.sent,
                        };
                        assert(replay_step(cur, cap0, closed0, e) == Some(s2));
                        lemma_trace_snoc(
                            trace,
                            schedule@.take(i as int),
                            init,
                            cap0,
                            closed0,
                            e,
                            false,
                            s2,
                        );
                        trace = trace.push(e);
                    }
                },
                BusRecv::Empty => {
                    proof {
                        assert(p == bus.log().len());
                        assert(!closed0);
                        let e = RelayEvent::NothingReady;
                        assert(replay_step(cur, cap0, closed0, e) == Some::<
                            RelayRun<<Snk::Item as View>::V>,
                        >(cur));
                        lemma_trace_snoc(
                            trace,
                            schedule@.take(i as int),
                            init,
                            cap0,
                            closed0,
                            e,
                            false,
                            cur,
                        );
                        trace = trace.push(e);
                    }
                },
                BusRecv::Closed => {
                    proof {
                        assert(p == bus.log().len());
                        assert(closed0);
                        let e = RelayEvent::BusClosed;
                        assert(replay_step(cur, cap0, closed0, e) == Some::<
                            RelayRun<<Snk::Item as View>::V>,
                        >(cur));
                        lemma_trace_snoc(
                            trace,
                            schedule@.take(i as int),
                            init,
                            cap0,
                            closed0,
                            e,
                            false,
                            cur,
                        );
                        trace = trace.push(e);
                    }
                    running = false;
                },
            }
        }
        i = i + 1;
    }
    let ghost finallog = bus.log();
    bus.unsubscribe(sub);
    proof {
        assert(bus.log() == finallog);
        assert(is_delivery(idxs, old(sink).sent(), sink.sent(), bus.log()));
        if running {
            assert(schedule@.take(schedule@.len() as int) =~= schedule@);
        }
        assert(init == (RelayRun {
            pending: old(stream).pending(),
            log: old(bus).log(),
            pos: pos0,
            sent: old(sink).sent(),
        }));
    }
    if running {
        (RelayState::Running, Ghost(trace))
    } else {
        (RelayState::Terminated, Ghost(trace))
    }
}

} // verus!
