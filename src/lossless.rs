//! A stop-and-wait transfer over a lossless link never retransmits.

use crate::address::{LinkAddress, TerminalAddress};
use crate::event::{Event, EventKind, Target};
use crate::link::Link;
use crate::network::NetworkState;
use crate::packet::Packet;
use crate::run::step;
use crate::simulator::is_next;
use crate::terminal::{AttachedTerminal, Terminal};
use crate::time::Time;
use vstd::prelude::*;

verus! {

/// The sender of a two-terminal network: the first terminal.
pub open spec fn sender(net: NetworkState) -> AttachedTerminal {
    net.terminals[0]
}

/// The receiver of a two-terminal network: the second terminal.
pub open spec fn receiver(net: NetworkState) -> AttachedTerminal {
    net.terminals[1]
}

/// The data packet the sender has in flight.
pub open spec fn data_in_flight(net: NetworkState) -> Packet {
    let s = sender(net);
    s.packet_to(s.last_sent, receiver(net).addr, s.payload_size)
}

/// The acknowledgment the receiver returns for it.
pub open spec fn ack_in_flight(net: NetworkState) -> Packet {
    receiver(net).packet_to(sender(net).last_sent, sender(net).addr, 0)
}

/// The instant the data in flight was fully on the wire.
pub open spec fn sent_at(net: NetworkState) -> int {
    sender(net).last_tx_sched.0 as int
}

/// Whether anything was ever sent.
pub open spec fn started(net: NetworkState) -> bool {
    sender(net).last_tx_sched.0 > 0
}

/// A timer of a packet already acknowledged.
pub open spec fn stale_timer(net: NetworkState, e: Event) -> bool {
    &&& e.target == Target::Terminal(sender(net).addr)
    &&& e.kind is Timeout
    &&& e.kind->Timeout_0 <= sender(net).last_acked
}

/// The retransmission timer of the data in flight.
pub open spec fn live_timer(net: NetworkState, e: Event) -> bool {
    let d = data_in_flight(net);
    &&& started(net)
    &&& e == Event {
        due_time: Time((sent_at(net) + net.links[0].timeout_span(d)) as u64),
        target: Target::Terminal(sender(net).addr),
        kind: EventKind::Timeout(d.seqno),
    }
}

/// The step of the round trip under way: the data on the link, at the
/// receiver, then its acknowledgment on the link, at the sender.
pub open spec fn round_event(net: NetworkState, e: Event) -> bool {
    let t = sent_at(net);
    let prop = net.links[0].propagation_delay.0 as int;
    let ack_time = net.links[0].tx_time(ack_in_flight(net));
    let r = receiver(net);
    &&& started(net)
    &&& {
        ||| r.last_recv + 1 == sender(net).last_sent && r.last_tx_sched.0 <= t + prop && {
            ||| e == Event {
                due_time: Time(t as u64),
                target: Target::Link(LinkAddress(0)),
                kind: EventKind::Payload(data_in_flight(net)),
            }
            ||| e == Event {
                due_time: Time((t + prop) as u64),
                target: Target::Terminal(r.addr),
                kind: EventKind::Payload(data_in_flight(net)),
            }
        }
        ||| r.last_recv == sender(net).last_sent && r.last_tx_sched.0 == t + prop + ack_time && {
            ||| e == Event {
                due_time: Time((t + prop + ack_time) as u64),
                target: Target::Link(LinkAddress(0)),
                kind: EventKind::Payload(ack_in_flight(net)),
            }
            ||| e == Event {
                due_time: Time((t + prop + ack_time + prop) as u64),
                target: Target::Terminal(sender(net).addr),
                kind: EventKind::Payload(ack_in_flight(net)),
            }
        }
    }
}

/// The timeout that sets transmission going, before anything was sent.
pub open spec fn kickoff(net: NetworkState, e: Event) -> bool {
    &&& !started(net)
    &&& e.due_time.0 >= 1
    &&& e.target == Target::Terminal(sender(net).addr)
    &&& e.kind == EventKind::Timeout(sender(net).last_sent)
}

/// Events that move the protocol forward.
pub open spec fn active(net: NetworkState, e: Event) -> bool {
    round_event(net, e) || kickoff(net, e)
}

/// The state of a stop-and-wait transfer over a lossless link: a sender at
/// address 0 with a window of one, a receiver at address 1, one link between
/// them; at most one event moves the protocol forward, and once anything was
/// sent, exactly one does; every other pending event is a timer.
pub open spec fn lossless_inv(net: NetworkState, q: Seq<Event>) -> bool {
    let s = sender(net);
    let r = receiver(net);
    let l = net.links[0];
    &&& net.wf()
    &&& net.terminals.len() == 2
    &&& net.links.len() == 1
    &&& l.src_addr == TerminalAddress(0)
    &&& l.dst_addr == TerminalAddress(1)
    &&& s.tx_window == 1
    &&& s.payload_size > 0
    &&& r.header_size == s.header_size
    &&& s.last_sent == s.last_acked + 1
    &&& !started(net) ==> r.last_recv + 1 == s.last_sent && r.last_tx_sched.0 == 0
    &&& started(net) ==> sent_at(net) + l.timeout_span(data_in_flight(net)) <= u64::MAX
    &&& forall|j: int|
        0 <= j < q.len() ==> stale_timer(net, #[trigger] q[j]) || live_timer(net, q[j]) || active(
            net,
            q[j],
        )
    &&& forall|j: int, k: int|
        0 <= j < q.len() && 0 <= k < q.len() && active(net, #[trigger] q[j]) && active(
            net,
            #[trigger] q[k],
        ) ==> j == k
    &&& started(net) ==> exists|j: int| 0 <= j < q.len() && active(net, #[trigger] q[j])
}

/// On a lossless link with a window of one, no timeout ever retransmits: a
/// timeout that the scheduler hands out is stale, unless nothing was ever
/// sent and it is the one that sets transmission going.
pub proof fn lemma_lossless_never_retransmits(net: NetworkState, q: Seq<Event>, i: int)
    requires
        lossless_inv(net, q),
        is_next(q, i),
        q[i].kind is Timeout,
    ensures
        stale_timer(net, q[i]) || !started(net),
{
    if started(net) && !stale_timer(net, q[i]) {
        let j = choose|j: int| 0 <= j < q.len() && active(net, #[trigger] q[j]);
        assert(live_timer(net, q[i]) || active(net, q[i]));
        assert(q[j].precedes(q[i]));
    }
}

/// Timers never move the protocol forward.
proof fn lemma_timers_inactive(net: NetworkState, e: Event)
    requires
        sender(net).last_sent == sender(net).last_acked + 1,
        stale_timer(net, e) || live_timer(net, e),
    ensures
        !active(net, e),
{
}

/// Re-queueing after an iteration: the events left in the queue were timers
/// and stay timers, and of the events produced the first moves the protocol
/// forward and the others are the live timer.
proof fn lemma_requeue(net: NetworkState, n: NetworkState, q: Seq<Event>, i: int, produced: Seq<Event>)
    requires
        0 <= i < q.len(),
        sender(n).last_sent == sender(n).last_acked + 1,
        forall|j: int| 0 <= j < q.len() && j != i ==> stale_timer(net, #[trigger] q[j]) || live_timer(net, q[j]),
        forall|e: Event| #[trigger] stale_timer(net, e) ==> stale_timer(n, e),
        forall|e: Event| #[trigger] live_timer(net, e) ==> stale_timer(n, e) || live_timer(n, e),
        produced.len() >= 1,
        active(n, produced[0]),
        forall|k: int| 1 <= k < produced.len() ==> live_timer(n, #[trigger] produced[k]),
    ensures
        ({
            let r = q.remove(i) + produced;
            &&& forall|j: int|
                0 <= j < r.len() ==> stale_timer(n, #[trigger] r[j]) || live_timer(n, r[j]) || active(n, r[j])
            &&& forall|j: int, k: int|
                0 <= j < r.len() && 0 <= k < r.len() && active(n, #[trigger] r[j]) && active(n, #[trigger] r[k])
                    ==> j == k
            &&& exists|j: int| 0 <= j < r.len() && active(n, #[trigger] r[j])
        }),
{
    let r = q.remove(i) + produced;
    let m = q.len() - 1;
    assert forall|j: int| 0 <= j < m implies stale_timer(n, #[trigger] r[j]) || live_timer(n, r[j]) by {
        let o = if j < i { j } else { j + 1 };
        assert(r[j] == q[o]);
        assert(stale_timer(net, q[o]) || live_timer(net, q[o]));
    }
    assert forall|j: int| 0 <= j < r.len() implies stale_timer(n, #[trigger] r[j]) || live_timer(n, r[j]) || active(n, r[j]) by {
        if j >= m {
            assert(r[j] == produced[j - m]);
        }
    }
    assert forall|j: int| 0 <= j < r.len() && active(n, #[trigger] r[j]) implies j == m by {
        if j < m {
            lemma_timers_inactive(n, r[j]);
        } else if j > m {
            assert(r[j] == produced[j - m]);
            lemma_timers_inactive(n, r[j]);
        }
    }
    assert(r[m] == produced[0]);
}

/// The round trip fits in time: its steps come due no later than the live
/// timer, which the machine's integers can hold.
proof fn lemma_round_times(net: NetworkState)
    requires
        net.wf(),
        net.links.len() == 1,
        receiver(net).header_size == sender(net).header_size,
    ensures
        net.links[0].tx_time(ack_in_flight(net)) == net.links[0].tx_time(data_in_flight(net).ack_sized()),
        0 <= net.links[0].tx_time(ack_in_flight(net)),
        0 <= net.links[0].tx_time(data_in_flight(net)),
        sent_at(net) + 2 * net.links[0].propagation_delay.0 + net.links[0].tx_time(ack_in_flight(net))
            <= sent_at(net) + net.links[0].timeout_span(data_in_flight(net)),
{
}

/// The events left in the queue besides the one handed out are timers.
proof fn lemma_others_are_timers(net: NetworkState, q: Seq<Event>, i: int)
    requires
        lossless_inv(net, q),
        0 <= i < q.len(),
        active(net, q[i]),
    ensures
        forall|j: int| 0 <= j < q.len() && j != i ==> stale_timer(net, #[trigger] q[j]) || live_timer(net, q[j]),
{
    assert forall|j: int| 0 <= j < q.len() && j != i implies stale_timer(net, #[trigger] q[j]) || live_timer(net, q[j]) by {
        assert(stale_timer(net, q[j]) || live_timer(net, q[j]) || active(net, q[j]));
        if active(net, q[j]) {
            assert(active(net, q[i]) && active(net, q[j]));
        }
    }
}

/// A packet crossing the link: it reaches the other side, the endpoints are
/// untouched.
proof fn lemma_step_link(net: NetworkState, q: Seq<Event>, i: int)
    requires
        lossless_inv(net, q),
        0 <= i < q.len(),
        q[i].target is Link,
        net.routes(q[i]),
        net.can_process(q[i], q[i].due_time),
    ensures
        ({
            let (n, r) = step(net, q, i, true);
            lossless_inv(n, r)
        }),
{
    let e = q[i];
    let (n, produced) = net.process_spec(e, e.due_time, true);
    net.lemma_process_keeps_wf(e, e.due_time, true);
    lemma_round_times(net);
    assert(active(net, e));
    lemma_others_are_timers(net, q, i);
    assert(sender(n) == sender(net));
    assert(receiver(n) == receiver(net));
    assert(n.links[0].capacity == net.links[0].capacity);
    assert(n.links[0].propagation_delay == net.links[0].propagation_delay);
    assert forall|e2: Event| #[trigger] live_timer(net, e2) implies stale_timer(n, e2) || live_timer(n, e2) by {
    }
    assert(active(n, produced[0]));
    lemma_requeue(net, n, q, i, produced);
}

/// The data reaching the receiver: it is delivered and acknowledged at once,
/// since the receiver's output queue is idle.
proof fn lemma_step_receiver(net: NetworkState, q: Seq<Event>, i: int)
    requires
        lossless_inv(net, q),
        0 <= i < q.len(),
        q[i].target == Target::Terminal(TerminalAddress(1)),
        net.routes(q[i]),
        net.can_process(q[i], q[i].due_time),
    ensures
        ({
            let (n, r) = step(net, q, i, true);
            lossless_inv(n, r)
        }),
{
    let e = q[i];
    let (n, produced) = net.process_spec(e, e.due_time, true);
    net.lemma_process_keeps_wf(e, e.due_time, true);
    lemma_round_times(net);
    assert(active(net, e));
    lemma_others_are_timers(net, q, i);
    assert(sender(n) == sender(net));
    assert(n.links == net.links);
    assert(receiver(n).header_size == receiver(net).header_size);
    assert(ack_in_flight(n) == ack_in_flight(net));
    assert forall|e2: Event| #[trigger] live_timer(net, e2) implies stale_timer(n, e2) || live_timer(n, e2) by {
    }
    assert(active(n, produced[0]));
    lemma_requeue(net, n, q, i, produced);
}

/// The acknowledgment reaching the sender: the window slides by one and the
/// next packet goes out, leaving every earlier timer stale.
proof fn lemma_step_sender_ack(net: NetworkState, q: Seq<Event>, i: int)
    requires
        lossless_inv(net, q),
        0 <= i < q.len(),
        q[i].target == Target::Terminal(TerminalAddress(0)),
        q[i].kind is Payload,
        net.routes(q[i]),
        net.can_process(q[i], q[i].due_time),
    ensures
        ({
            let (n, r) = step(net, q, i, true);
            lossless_inv(n, r)
        }),
{
    let e = q[i];
    let now = e.due_time;
    let (n, produced) = net.process_spec(e, now, true);
    net.lemma_process_keeps_wf(e, now, true);
    lemma_round_times(net);
    assert(active(net, e));
    lemma_others_are_timers(net, q, i);
    let s = sender(net);
    let link = net.links[0];
    let packet = e.kind->Payload_0;
    assert(packet == ack_in_flight(net));
    assert(s.accepts_ack(packet.seqno));
    let acked = AttachedTerminal { last_acked: packet.seqno, ..s };
    assert(0 <= link.timeout_span(s.packet_to(0, s.addr, s.payload_size)));
    acked.lemma_burst_schedule((s.last_sent + 1) as u64, 1, packet.src_addr, now, link);
    reveal_with_fuel(AttachedTerminal::burst, 2);
    s.lemma_acks_advance(e, now, link);
    assert(receiver(n) == receiver(net));
    assert(n.links == net.links);
    assert(sender(n).last_acked == s.last_sent);
    assert(sender(n).last_sent == s.last_sent + 1);
    assert forall|e2: Event| #[trigger] stale_timer(net, e2) implies stale_timer(n, e2) by {
    }
    assert forall|e2: Event| #[trigger] live_timer(net, e2) implies stale_timer(n, e2) || live_timer(n, e2) by {
    }
    assert(active(n, produced[0]));
    assert(live_timer(n, produced[1]));
    lemma_requeue(net, n, q, i, produced);
}

/// The first timeout: the first packet goes out and its timer is armed.
proof fn lemma_step_kickoff(net: NetworkState, q: Seq<Event>, i: int)
    requires
        lossless_inv(net, q),
        0 <= i < q.len(),
        kickoff(net, q[i]),
        net.routes(q[i]),
        net.can_process(q[i], q[i].due_time),
    ensures
        ({
            let (n, r) = step(net, q, i, true);
            lossless_inv(n, r)
        }),
{
    let e = q[i];
    let now = e.due_time;
    let (n, produced) = net.process_spec(e, now, true);
    net.lemma_process_keeps_wf(e, now, true);
    lemma_round_times(net);
    lemma_others_are_timers(net, q, i);
    assert(receiver(n) == receiver(net));
    assert(n.links == net.links);
    assert(started(n));
    assert forall|e2: Event| #[trigger] stale_timer(net, e2) implies stale_timer(n, e2) by {
    }
    assert forall|e2: Event| #[trigger] live_timer(net, e2) implies stale_timer(n, e2) || live_timer(n, e2) by {
    }
    assert(active(n, produced[0]));
    assert(live_timer(n, produced[1]));
    lemma_requeue(net, n, q, i, produced);
}

/// A stale timer: nothing happens.
proof fn lemma_step_stale(net: NetworkState, q: Seq<Event>, i: int)
    requires
        lossless_inv(net, q),
        0 <= i < q.len(),
        stale_timer(net, q[i]),
        net.routes(q[i]),
        net.can_process(q[i], q[i].due_time),
    ensures
        ({
            let (n, r) = step(net, q, i, true);
            lossless_inv(n, r)
        }),
{
    let e = q[i];
    let (n, produced) = net.process_spec(e, e.due_time, true);
    assert(n.terminals =~= net.terminals);
    assert(n == net);
    assert(produced.len() == 0);
    let r = q.remove(i) + produced;
    assert(r =~= q.remove(i));
    lemma_timers_inactive(net, e);
    assert forall|j: int| 0 <= j < r.len() implies stale_timer(n, #[trigger] r[j]) || live_timer(n, r[j]) || active(n, r[j]) by {
        let o = if j < i { j } else { j + 1 };
        assert(r[j] == q[o]);
    }
    assert forall|j: int, k: int|
        0 <= j < r.len() && 0 <= k < r.len() && active(n, #[trigger] r[j]) && active(n, #[trigger] r[k])
            implies j == k by {
        let oj = if j < i { j } else { j + 1 };
        let ok = if k < i { k } else { k + 1 };
        assert(r[j] == q[oj]);
        assert(r[k] == q[ok]);
        assert(active(net, q[oj]) && active(net, q[ok]));
    }
    if started(net) {
        let a = choose|a: int| 0 <= a < q.len() && active(net, #[trigger] q[a]);
        assert(a != i);
        let ra = if a < i { a } else { a - 1 };
        assert(r[ra] == q[a]);
        assert(active(n, r[ra]));
    }
}

/// On a lossless link, the stop-and-wait state survives every iteration of
/// the driver loop.
pub proof fn lemma_lossless_step(net: NetworkState, q: Seq<Event>, i: int)
    requires
        lossless_inv(net, q),
        is_next(q, i),
        net.routes(q[i]),
        net.can_process(q[i], q[i].due_time),
    ensures
        ({
            let (n, r) = step(net, q, i, true);
            lossless_inv(n, r)
        }),
{
    let e = q[i];
    assert(stale_timer(net, e) || live_timer(net, e) || active(net, e));
    if stale_timer(net, e) {
        lemma_step_stale(net, q, i);
    } else if live_timer(net, e) {
        let j = choose|j: int| 0 <= j < q.len() && active(net, #[trigger] q[j]);
        lemma_round_times(net);
        assert(q[j].precedes(q[i]));
    } else if kickoff(net, e) {
        lemma_step_kickoff(net, q, i);
    } else if e.target is Link {
        lemma_step_link(net, q, i);
    } else if e.target == Target::Terminal(TerminalAddress(1)) {
        lemma_step_receiver(net, q, i);
    } else {
        lemma_step_sender_ack(net, q, i);
    }
}

/// A stop-and-wait transfer starts in that state: a sender with a window of
/// one and a receiver with the same headers, just joined by a link, with the
/// sender's starting events queued.
pub proof fn lemma_lossless_start(
    net: NetworkState,
    orig: Terminal,
    dst: Terminal,
    link: Link,
    now: Time,
)
    requires
        orig.tx_window == 1,
        orig.payload_size > 0,
        dst.header_size == orig.header_size,
        link.capacity > 0,
        now.0 + 1 <= u64::MAX,
        net.terminals == seq![
            orig.attached(TerminalAddress(0), LinkAddress(0)),
            dst.attached(TerminalAddress(1), LinkAddress(0)),
        ],
        net.links == seq![link.attached(TerminalAddress(0), TerminalAddress(1))],
    ensures
        lossless_inv(net, sender(net).start_spec(now)),
{
    let q = sender(net).start_spec(now);
    assert(q.len() == 1);
    assert(kickoff(net, q[0]));
    assert(net.wf());
}

} // verus!
