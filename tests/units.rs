use arq_simul::{
    DataCounter, Event, EventKind, Link, LinkAddress, Network, Node, Packet, Simulator, Target,
    Terminal, TerminalAddress, Time,
};

const A: TerminalAddress = TerminalAddress(0);
const B: TerminalAddress = TerminalAddress(1);
const L: LinkAddress = LinkAddress(0);

fn data(seqno: u64, src: TerminalAddress, dst: TerminalAddress) -> Packet {
    Packet { seqno, header_size: 40, payload_size: 1460, src_addr: src, dst_addr: dst }
}

fn ack(seqno: u64, src: TerminalAddress, dst: TerminalAddress) -> Packet {
    Packet { seqno, header_size: 40, payload_size: 0, src_addr: src, dst_addr: dst }
}

fn at_terminal(addr: TerminalAddress, due: u64, kind: EventKind) -> Event {
    Event { due_time: Time(due), target: Target::Terminal(addr), kind }
}

/// 10 Gbit/s with 1 ms of propagation delay.
fn ten_gig() -> Link {
    Link::create(10_000_000_000, Time(1_000_000_000))
}

#[test]
fn counter_counts_entry_and_delivery_separately() {
    let c = DataCounter::new();
    let c = c.transmitted_packet(data(1, A, B));
    assert_eq!((c.raw_transmitted, c.good_transmitted), (1500, 1460));
    assert_eq!((c.raw_delivered, c.good_delivered), (0, 0));
    let c = c.delivered_packet(ack(1, B, A));
    assert_eq!((c.raw_transmitted, c.good_transmitted), (1500, 1460));
    assert_eq!((c.raw_delivered, c.good_delivered), (40, 0));
}

#[test]
fn packet_kind_and_size() {
    assert!(ack(3, A, B).is_ack());
    assert!(!data(3, A, B).is_ack());
    assert_eq!(data(3, A, B).bit_size(), 12_000);
    assert_eq!(ack(3, A, B).bit_size(), 320);
}

#[test]
fn event_order_is_time_then_packets_before_timeouts() {
    let early = at_terminal(A, 5, EventKind::Timeout(1));
    let late = at_terminal(A, 6, EventKind::Payload(ack(1, B, A)));
    assert!(early.is_before(&late));
    assert!(!late.is_before(&early));
    let packet = at_terminal(A, 5, EventKind::Payload(ack(1, B, A)));
    assert!(packet.is_before(&early));
    assert!(!early.is_before(&packet));
    assert!(!early.is_before(&early));
}

#[test]
fn corruption_bits_only_for_packets_entering_a_link() {
    let onto_link = Event { due_time: Time(1), target: Target::Link(L), kind: EventKind::Payload(data(1, A, B)) };
    assert_eq!(onto_link.corruption_bits(), Some(12_000));
    assert_eq!(at_terminal(A, 1, EventKind::Payload(data(1, A, B))).corruption_bits(), None);
    assert_eq!(at_terminal(A, 1, EventKind::Timeout(1)).corruption_bits(), None);
}

#[test]
fn serialization_and_timeout_of_a_link() {
    let link = ten_gig().attach_terminals(A, B);
    // 12000 bits at 10 Gbit/s: 1.2 microseconds.
    assert_eq!(link.tx(data(1, A, B)), Time(1_200_000));
    assert_eq!(link.tx(ack(1, B, A)), Time(32_000));
    // Own serialization, the acknowledgment's, and 1 ms each way.
    assert_eq!(link.calc_timeout(data(1, A, B)), Time(1_200_000 + 32_000 + 2_000_000_000));
    // Rounded down to the picosecond: 320 bits at 3 bit/s.
    let slow = Link::create(3, Time(0)).attach_terminals(A, B);
    assert_eq!(slow.tx(ack(1, B, A)), Time(106_666_666_666_666));
}

#[test]
fn link_delivers_surviving_packet_after_propagation() {
    let mut link = ten_gig().attach_terminals(A, B);
    let ev = Event { due_time: Time(7), target: Target::Link(L), kind: EventKind::Payload(data(1, A, B)) };
    let out = link.process(ev, Time(7), true);
    assert_eq!(out, vec![at_terminal(B, 1_000_000_007, EventKind::Payload(data(1, A, B)))]);
    let c = link.counter();
    assert_eq!((c.raw_transmitted, c.good_transmitted, c.raw_delivered, c.good_delivered), (1500, 1460, 1500, 1460));
}

#[test]
fn link_drops_corrupted_packet_but_counts_its_entry() {
    let mut link = ten_gig().attach_terminals(A, B);
    let ev = Event { due_time: Time(7), target: Target::Link(L), kind: EventKind::Payload(data(1, A, B)) };
    assert!(link.process(ev, Time(7), false).is_empty());
    let c = link.counter();
    assert_eq!((c.raw_transmitted, c.good_transmitted, c.raw_delivered, c.good_delivered), (1500, 1460, 0, 0));
}

#[test]
fn start_staggers_one_timeout_per_window_slot() {
    let t = Terminal::create(40, 1460, 3).attach_to_link(A, L);
    let evs = t.start(Time(100));
    assert_eq!(
        evs,
        vec![
            at_terminal(A, 101, EventKind::Timeout(1)),
            at_terminal(A, 102, EventKind::Timeout(2)),
            at_terminal(A, 103, EventKind::Timeout(3)),
        ]
    );
}

#[test]
fn timeout_retransmits_towards_the_peer() {
    let link = ten_gig().attach_terminals(A, B);
    let mut t = Terminal::create(40, 1460, 1).attach_to_link(A, L);
    let out = t.process(at_terminal(A, 10, EventKind::Timeout(1)), Time(10), &link);
    let sent_at = 10 + 1_200_000;
    assert_eq!(
        out,
        vec![
            Event { due_time: Time(sent_at), target: Target::Link(L), kind: EventKind::Payload(data(1, A, B)) },
            at_terminal(A, sent_at + 1_232_000 + 2_000_000_000, EventKind::Timeout(1)),
        ]
    );
    assert_eq!(t.last_tx_sched, Time(sent_at));
    // A second send queues behind the first.
    let out = t.process(at_terminal(A, 20, EventKind::Timeout(1)), Time(20), &link);
    assert_eq!(out[0].due_time, Time(sent_at + 1_200_000));
}

#[test]
fn stale_timeout_produces_nothing() {
    let link = ten_gig().attach_terminals(A, B);
    let mut t = Terminal::create(40, 1460, 2).attach_to_link(A, L);
    t.process(at_terminal(A, 5, EventKind::Payload(ack(1, B, A))), Time(5), &link);
    assert_eq!(t.get_transmitted_packets(), 1);
    let before = t;
    assert!(t.process(at_terminal(A, 9, EventKind::Timeout(1)), Time(9), &link).is_empty());
    assert_eq!(t, before);
}

#[test]
fn cumulative_ack_slides_the_window() {
    let link = ten_gig().attach_terminals(A, B);
    let mut t = Terminal::create(40, 1460, 3).attach_to_link(A, L);
    let out = t.process(at_terminal(A, 0, EventKind::Payload(ack(2, B, A))), Time(0), &link);
    assert_eq!((t.last_acked, t.last_sent), (2, 5));
    let seqnos: Vec<(u64, u64)> = out
        .iter()
        .map(|e| match e.kind {
            EventKind::Payload(p) => (p.seqno, e.due_time.0),
            EventKind::Timeout(s) => (s, e.due_time.0),
        })
        .collect();
    let rto = 1_232_000 + 2_000_000_000;
    assert_eq!(
        seqnos,
        vec![(4, 1_200_000), (4, 1_200_000 + rto), (5, 2_400_000), (5, 2_400_000 + rto)]
    );
}

#[test]
fn stale_and_premature_acks_are_ignored() {
    let link = ten_gig().attach_terminals(A, B);
    let mut t = Terminal::create(40, 1460, 2).attach_to_link(A, L);
    // Beyond what was sent.
    assert!(t.process(at_terminal(A, 0, EventKind::Payload(ack(3, B, A))), Time(0), &link).is_empty());
    assert_eq!(t.get_transmitted_packets(), 0);
    t.process(at_terminal(A, 0, EventKind::Payload(ack(2, B, A))), Time(0), &link);
    let before = t;
    // Already acknowledged.
    assert!(t.process(at_terminal(A, 1, EventKind::Payload(ack(2, B, A))), Time(1), &link).is_empty());
    assert!(t.process(at_terminal(A, 1, EventKind::Payload(ack(1, B, A))), Time(1), &link).is_empty());
    assert_eq!(t, before);
}

#[test]
fn in_order_data_is_delivered_and_acknowledged() {
    let link = ten_gig().attach_terminals(A, B);
    let mut r = Terminal::create(40, 0, 1).attach_to_link(B, L);
    let out = r.process(at_terminal(B, 50, EventKind::Payload(data(1, A, B))), Time(50), &link);
    assert_eq!(r.last_recv, 1);
    assert_eq!(
        out,
        vec![Event { due_time: Time(50 + 32_000), target: Target::Link(L), kind: EventKind::Payload(ack(1, B, A)) }]
    );
}

#[test]
fn duplicate_data_is_acknowledged_but_not_counted_again() {
    let link = ten_gig().attach_terminals(A, B);
    let mut r = Terminal::create(40, 0, 1).attach_to_link(B, L);
    r.process(at_terminal(B, 0, EventKind::Payload(data(1, A, B))), Time(0), &link);
    r.process(at_terminal(B, 0, EventKind::Payload(data(2, A, B))), Time(0), &link);
    assert_eq!(r.last_recv, 2);
    let out = r.process(at_terminal(B, 9, EventKind::Payload(data(1, A, B))), Time(9), &link);
    assert_eq!(r.last_recv, 2);
    assert_eq!(out.len(), 1);
    assert_eq!(out[0].kind, EventKind::Payload(ack(1, B, A)));
}

#[test]
fn data_beyond_a_gap_is_dropped() {
    let link = ten_gig().attach_terminals(A, B);
    let mut r = Terminal::create(40, 0, 1).attach_to_link(B, L);
    r.process(at_terminal(B, 0, EventKind::Payload(data(1, A, B))), Time(0), &link);
    let before = r;
    let out = r.process(at_terminal(B, 5, EventKind::Payload(data(3, A, B))), Time(5), &link);
    assert!(out.is_empty());
    assert_eq!(r.last_recv, 1);
    assert_eq!(r, before);
}

#[test]
fn network_wires_terminals_and_link() {
    let mut net = Network::new();
    let (a, b, l) = net.add_link_and_terminals(
        Terminal::create(40, 1460, 2),
        Terminal::create(40, 0, 2),
        ten_gig(),
    );
    assert_eq!((a, b, l), (A, B, L));
    assert_eq!(net.get_ref_terminal_by_addr(a).link_addr, l);
    assert_eq!(net.get_ref_terminal_by_addr(b).link_addr, l);
    let link = net.get_ref_link_by_addr(l);
    assert_eq!((link.src_addr, link.dst_addr), (a, b));
    assert_eq!(net.start(a, Time(0)).len(), 2);
}

#[test]
fn network_routes_events_to_their_target() {
    let mut net = Network::new();
    let (a, b, l) = net.add_link_and_terminals(
        Terminal::create(40, 1460, 1),
        Terminal::create(40, 0, 1),
        ten_gig(),
    );
    let timeout = at_terminal(a, 1, EventKind::Timeout(1));
    assert!(net.can_process(&timeout, Time(1)));
    let out = net.process_event(timeout, Time(1), true);
    assert_eq!(out[0].target, Target::Link(l));
    let onto_link = out[0];
    let out = net.process_event(onto_link, onto_link.due_time, true);
    assert_eq!(out.len(), 1);
    assert_eq!(out[0].target, Target::Terminal(b));
    assert_eq!(net.get_ref_link_by_addr(l).counter().raw_delivered, 1500);
    // A link takes packets only, and addresses must exist.
    let bad = Event { due_time: Time(1), target: Target::Link(l), kind: EventKind::Timeout(1) };
    assert!(!net.can_process(&bad, Time(1)));
    assert!(!net.can_process(&at_terminal(TerminalAddress(9), 1, EventKind::Timeout(1)), Time(1)));
}

#[test]
fn network_refuses_time_beyond_its_range() {
    let mut net = Network::new();
    let (a, _b, _l) = net.add_link_and_terminals(
        Terminal::create(40, 1460, 1),
        Terminal::create(40, 0, 1),
        ten_gig(),
    );
    let now = Time(u64::MAX - 1_000);
    assert!(!net.can_process(&at_terminal(a, now.0, EventKind::Timeout(1)), now));
}

#[test]
fn mutable_link_access_changes_the_network() {
    let mut net = Network::new();
    let (_a, _b, l) = net.add_link_and_terminals(
        Terminal::create(40, 1460, 1),
        Terminal::create(40, 0, 1),
        ten_gig(),
    );
    net.get_mut_link_by_addr(l).propagation_delay = Time(5);
    assert_eq!(net.get_ref_link_by_addr(l).propagation_delay, Time(5));
}

#[test]
fn scheduler_pops_earliest_with_packets_first_and_ties_in_order() {
    let mut sim = Simulator::from_seed(1);
    assert!(sim.pop().is_none());
    assert!(sim.peek().is_none());
    let t1 = at_terminal(A, 10, EventKind::Timeout(1));
    let p1 = at_terminal(A, 10, EventKind::Payload(ack(1, B, A)));
    let p2 = at_terminal(B, 10, EventKind::Payload(ack(2, B, A)));
    let early = at_terminal(A, 3, EventKind::Timeout(9));
    sim.add_events(&[t1, p1, p2]);
    sim.add_events(&[early]);
    assert_eq!(sim.peek(), Some(&early));
    assert_eq!(sim.pop(), Some(early));
    assert_eq!(sim.pop(), Some(p1));
    assert_eq!(sim.pop(), Some(p2));
    assert_eq!(sim.pop(), Some(t1));
    assert_eq!(sim.pop(), None);
}

#[test]
fn node_carries_the_starting_protocol_state() {
    let n = Node::create(40, 1460, 4);
    assert_eq!((n.last_acked, n.last_sent, n.last_recv), (0, 4, 0));
    let fresh = n.attach_to_link(A, L);
    assert_eq!(fresh, Terminal::create(40, 1460, 4).attach_to_link(A, L));
    let resumed = Node { last_acked: 10, last_sent: 12, last_recv: 3, ..n }.attach_to_link(B, L);
    assert_eq!((resumed.addr, resumed.last_acked, resumed.last_sent, resumed.last_recv), (B, 10, 12, 3));
    assert_eq!(resumed.last_tx_sched, Time(0));
}

#[test]
fn widest_packets_on_slowest_link_keep_full_precision() {
    let link = Link::create(1, Time(0)).attach_terminals(A, B);
    let widest = Packet { seqno: 1, header_size: u32::MAX, payload_size: u32::MAX, src_addr: A, dst_addr: B };
    let bits = 8 * (2 * u32::MAX as u128);
    assert_eq!(widest.bit_size() as u128, bits);
    assert_eq!(link.tx_span(widest), bits * 1_000_000_000_000);
    assert_eq!(link.timeout_span_of(widest), bits * 1_000_000_000_000 + 8 * u32::MAX as u128 * 1_000_000_000_000);
    let mut t = Terminal::create(u32::MAX, u32::MAX, 1).attach_to_link(A, L);
    let timeout = at_terminal(A, 0, EventKind::Timeout(1));
    assert!(!t.within_limits(&timeout, Time(0), &link));
    // A timeout already acknowledged sends nothing, so nothing can overflow.
    t.last_acked = 1;
    assert!(t.within_limits(&timeout, Time(0), &link));
}

#[test]
fn link_refuses_counts_beyond_its_range() {
    let mut link = ten_gig().attach_terminals(A, B);
    assert!(link.within_limits(data(1, A, B), Time(0)));
    link.counter.raw_transmitted = u64::MAX - 1500;
    assert!(link.within_limits(data(1, A, B), Time(0)));
    link.counter.raw_transmitted = u64::MAX - 1499;
    assert!(!link.within_limits(data(1, A, B), Time(0)));
    link.counter.raw_transmitted = 0;
    assert!(!link.within_limits(data(1, A, B), Time(u64::MAX)));
}

#[test]
fn defaults_are_empty() {
    let mut sim = Simulator::default();
    assert!(sim.pop().is_none());
    let net = Network::default();
    assert!(net.terminals.is_empty() && net.links.is_empty());
}
