use crate::address::TerminalAddress;
use crate::link::AttachedLink;
use crate::terminal::AttachedTerminal;
use crate::event::{Event, EventKind, Target};
use crate::network::NetworkState;
use crate::simulator::{is_next, lemma_next_is_unique};
use crate::time::Time;
use vstd::prelude::*;

verus! {

/// One iteration of the driver loop: the event at position `i` of the queue
/// `q` leaves it, the clock moves to the event's due time, the event's target
/// processes it, and the events this produces join the queue. `survives` is
/// the outcome of the corruption draw, read only when a packet enters a link.
pub open spec fn step(net: NetworkState, q: Seq<Event>, i: int, survives: bool) -> (
    NetworkState,
    Seq<Event>,
) {
    let e = q[i];
    let (n, produced) = net.process_spec(e, e.due_time, survives);
    (n, q.remove(i) + produced)
}

/// Whether `e` brings a packet to a terminal.
pub open spec fn reaches_terminal(e: Event) -> bool {
    e.target is Terminal && e.kind is Payload
}

/// Nothing has reached any terminal yet: none has an acknowledgment or data,
/// and no packet is on its way to one.
pub open spec fn nothing_delivered(net: NetworkState, q: Seq<Event>) -> bool {
    &&& forall|k: int|
        0 <= k < net.terminals.len() ==> (#[trigger] net.terminals[k]).last_acked == 0
            && net.terminals[k].last_recv == 0
    &&& forall|j: int| 0 <= j < q.len() ==> !reaches_terminal(#[trigger] q[j])
}

/// A terminal that has received nothing starts with timeouts only, so nothing
/// is delivered yet.
pub proof fn lemma_start_delivers_nothing(net: NetworkState, addr: TerminalAddress, now: Time)
    requires
        addr.0 < net.terminals.len(),
        forall|k: int|
            0 <= k < net.terminals.len() ==> (#[trigger] net.terminals[k]).last_acked == 0
                && net.terminals[k].last_recv == 0,
    ensures
        nothing_delivered(net, net.terminals[addr.0 as int].start_spec(now)),
{
}

/// On a channel that corrupts every packet, no packet ever reaches a
/// terminal, so no data is delivered and no packet acknowledged: every
/// iteration of the driver loop keeps `nothing_delivered`.
pub proof fn lemma_total_loss_delivers_nothing(net: NetworkState, q: Seq<Event>, i: int)
    requires
        net.wf(),
        nothing_delivered(net, q),
        0 <= i < q.len(),
        net.routes(q[i]),
        net.can_process(q[i], q[i].due_time),
    ensures
        ({
            let (n, r) = step(net, q, i, false);
            nothing_delivered(n, r)
        }),
{
    let e = q[i];
    let (n, produced) = net.process_spec(e, e.due_time, false);
    let r = q.remove(i) + produced;
    assert(!reaches_terminal(q[i]));
    assert forall|j: int| 0 <= j < produced.len() implies !reaches_terminal(#[trigger] produced[j]) by {
    }
    assert forall|j: int| 0 <= j < r.len() implies !reaches_terminal(#[trigger] r[j]) by {
        if j < q.len() - 1 {
            if j < i {
                assert(r[j] == q[j]);
            } else {
                assert(r[j] == q[j + 1]);
            }
        } else {
            assert(r[j] == produced[j - (q.len() - 1)]);
        }
    }
    assert forall|k: int| 0 <= k < n.terminals.len() implies (#[trigger] n.terminals[k]).last_acked
        == 0 && n.terminals[k].last_recv == 0 by {
        if let Target::Terminal(a) = e.target {
            if k == a.0 {
                assert(e.kind is Timeout);
            }
        }
    }
}

/// An iteration of the driver loop is determined by the state it starts from
/// and the corruption draw: whichever event the queue may hand out next, it
/// is the same one, and what follows is the same.
pub proof fn lemma_iteration_determined(
    net: NetworkState,
    q: Seq<Event>,
    i: int,
    j: int,
    survives: bool,
)
    requires
        is_next(q, i),
        is_next(q, j),
    ensures
        step(net, q, i, survives) == step(net, q, j, survives),
{
    lemma_next_is_unique(q, i, j);
}

/// On a channel that corrupts nothing, a packet that enters a link is
/// delivered: exactly one event brings it to its destination one propagation
/// delay later, and both totals of the link count it.
pub proof fn lemma_lossless_link_delivers(net: NetworkState, q: Seq<Event>, i: int)
    requires
        net.wf(),
        0 <= i < q.len(),
        net.routes(q[i]),
        q[i].target is Link,
        net.can_process(q[i], q[i].due_time),
    ensures
        ({
            let e = q[i];
            let a = e.target->Link_0.0 as int;
            let packet = e.kind->Payload_0;
            let (n, r) = step(net, q, i, true);
            &&& r == q.remove(i).push(
                Event {
                    due_time: Time((e.due_time.0 + net.links[a].propagation_delay.0) as u64),
                    target: Target::Terminal(packet.dst_addr),
                    kind: EventKind::Payload(packet),
                },
            )
            &&& n.links[a].counter == net.links[a].counter.after_transmit(packet).after_deliver(
                packet,
            )
            &&& n.terminals == net.terminals
        }),
{
    let e = q[i];
    let (n, produced) = net.process_spec(e, e.due_time, true);
    assert(q.remove(i) + produced =~= q.remove(i).push(produced[0]));
}

/// Over a lossless link, the acknowledgment of a data packet comes back in
/// time: if the receiver takes the packet and its output queue is idle when
/// the packet arrives, the acknowledgment reaches the sender no later than the
/// packet's retransmission timer fires, and is processed before it.
pub proof fn lemma_ack_arrives_before_timer(
    sender: AttachedTerminal,
    receiver: AttachedTerminal,
    link: AttachedLink,
    seqno: u64,
    now: Time,
)
    requires
        link.wf(),
        sender.payload_size > 0,
        sender.can_transmit(now, sender.payload_size, link),
        receiver.header_size == sender.header_size,
        receiver.accepts_data(seqno),
        receiver.last_tx_sched.0 <= sender.free_at(now) + link.tx_time(
            sender.packet_to(seqno, receiver.addr, sender.payload_size),
        ) + link.propagation_delay.0,
    ensures
        ({
            let (_, sent) = sender.transmit_spec(seqno, receiver.addr, now, sender.payload_size, link);
            let on_link = sent[0];
            let timer = sent[1];
            let arrival = link.process_spec(on_link.kind->Payload_0, on_link.due_time, true).1[0];
            let reply = receiver.process_spec(arrival, arrival.due_time, link).1[0];
            let back = link.process_spec(reply.kind->Payload_0, reply.due_time, true).1[0];
            &&& timer.kind == EventKind::Timeout(seqno)
            &&& arrival.target == Target::Terminal(receiver.addr)
            &&& back.target == Target::Terminal(sender.addr)
            &&& back.kind == EventKind::Payload(receiver.packet_to(seqno, sender.addr, 0))
            &&& back.due_time.0 <= timer.due_time.0
            &&& back.precedes(timer)
        }),
{
    let packet = sender.packet_to(seqno, receiver.addr, sender.payload_size);
    let ack = receiver.packet_to(seqno, sender.addr, 0);
    assert(link.tx_time(ack) == link.tx_time(packet.ack_sized()));
    assert(0 <= link.tx_time(packet));
    assert(0 <= link.tx_time(ack));
}

} // verus!
