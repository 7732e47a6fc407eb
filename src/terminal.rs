use crate::address::{LinkAddress, TerminalAddress};
use crate::event::{Event, EventKind, Target};
use crate::link::{serialization_time, AttachedLink};
use crate::packet::Packet;
use crate::time::{later, Time};
use vstd::prelude::*;

verus! {

/// The configuration of an endpoint, before it is attached to a link.
#[derive(Clone, Copy, Debug, PartialEq, Eq, Structural)]
pub struct Terminal {
    /// Bytes of header in every packet it sends.
    pub header_size: u32,
    /// Bytes of payload in every data packet it sends.
    pub payload_size: u32,
    /// Most packets in flight and not yet acknowledged.
    pub tx_window: u64,
}

/// An endpoint attached to a link, with the state of its ARQ protocol.
///
/// Packets `last_acked + 1 ..= last_sent` are in flight; the peer delivered
/// packets up to `last_recv` in order; the output queue is busy until
/// `last_tx_sched`.
#[derive(Clone, Copy, Debug, PartialEq, Eq, Structural)]
pub struct AttachedTerminal {
    pub addr: TerminalAddress,
    pub header_size: u32,
    pub payload_size: u32,
    pub tx_window: u64,
    pub link_addr: LinkAddress,
    pub last_acked: u64,
    pub last_sent: u64,
    pub last_recv: u64,
    pub last_tx_sched: Time,
}

impl Terminal {
    /// An endpoint that sends `header_size`-byte headers, `payload_size`-byte
    /// payloads, and keeps up to `tx_window` packets in flight.
    pub open spec fn create_spec(header_size: u32, payload_size: u32, tx_window: u16) -> Terminal {
        Terminal { header_size, payload_size, tx_window: tx_window as u64 }
    }

    /// An endpoint that sends `header_size`-byte headers, `payload_size`-byte
    /// payloads, and keeps up to `tx_window` packets in flight.
    pub fn create(header_size: u32, payload_size: u32, tx_window: u16) -> (r: Terminal)
        ensures
            r == Terminal::create_spec(header_size, payload_size, tx_window),
    {
        Terminal { header_size, payload_size, tx_window: tx_window as u64 }
    }

    /// The endpoint at `self_addr`, attached to the link at `link_addr`.
    pub open spec fn attached(self, self_addr: TerminalAddress, link_addr: LinkAddress) -> AttachedTerminal {
        self.initial().attached(self_addr, link_addr)
    }

    /// This endpoint with the protocol state it starts from.
    pub open spec fn initial(self) -> Node {
        Node {
            header_size: self.header_size,
            payload_size: self.payload_size,
            tx_window: self.tx_window,
            last_acked: 0,
            last_sent: self.tx_window,
            last_recv: 0,
        }
    }

    /// The endpoint at `self_addr`, attached to the link at `link_addr`, in
    /// the protocol state it starts from.
    pub fn attach_to_link(&self, self_addr: TerminalAddress, link_addr: LinkAddress) -> (r:
        AttachedTerminal)
        ensures
            r == self.attached(self_addr, link_addr),
            r.wf(),
            r.addr == self_addr,
            r.link_addr == link_addr,
            r.last_acked == 0,
            r.last_sent == self.tx_window,
            r.last_recv == 0,
            r.last_tx_sched == Time(0),
    {
        let node = Node {
            header_size: self.header_size,
            payload_size: self.payload_size,
            tx_window: self.tx_window,
            last_acked: 0,
            last_sent: self.tx_window,
            last_recv: 0,
        };
        node.attach_to_link(self_addr, link_addr)
    }
}

/// An endpoint that is not attached yet, with the protocol state it will
/// start from.
#[derive(Clone, Copy, Debug, PartialEq, Eq, Structural)]
pub struct Node {
    pub header_size: u32,
    pub payload_size: u32,
    pub tx_window: u64,
    pub last_acked: u64,
    pub last_sent: u64,
    pub last_recv: u64,
}

/// An attached endpoint.
pub type AttachedNode = AttachedTerminal;

impl Node {
    /// A fresh endpoint: nothing acknowledged or received, and its first
    /// window counted as sent, so that the first timeouts set off the real
    /// transmissions.
    pub fn create(header_size: u32, payload_size: u32, tx_window: u16) -> (r: Node)
        ensures
            r == Terminal::create_spec(header_size, payload_size, tx_window).initial(),
    {
        Node {
            header_size,
            payload_size,
            tx_window: tx_window as u64,
            last_acked: 0,
            last_sent: tx_window as u64,
            last_recv: 0,
        }
    }

    /// The endpoint at `self_addr`, attached to the link at `link_addr`, in
    /// the protocol state it starts from.
    pub open spec fn attached(self, self_addr: TerminalAddress, link_addr: LinkAddress) -> AttachedTerminal {
        AttachedTerminal {
            addr: self_addr,
            link_addr,
            header_size: self.header_size,
            payload_size: self.payload_size,
            tx_window: self.tx_window,
            last_acked: self.last_acked,
            last_sent: self.last_sent,
            last_recv: self.last_recv,
            last_tx_sched: Time(0),
        }
    }

    /// The endpoint at `self_addr`, attached to the link at `link_addr`, in
    /// the protocol state it starts from.
    pub fn attach_to_link(&self, self_addr: TerminalAddress, link_addr: LinkAddress) -> (r:
        AttachedNode)
        ensures
            r == self.attached(self_addr, link_addr),
    {
        AttachedTerminal {
            addr: self_addr,
            link_addr,
            header_size: self.header_size,
            payload_size: self.payload_size,
            tx_window: self.tx_window,
            last_acked: self.last_acked,
            last_sent: self.last_sent,
            last_recv: self.last_recv,
            last_tx_sched: Time(0),
        }
    }
}

impl AttachedTerminal {
    /// The window invariant: what is in flight was sent and fits in the window.
    pub open spec fn wf(self) -> bool {
        &&& self.last_acked <= self.last_sent
        &&& self.last_sent - self.last_acked <= self.tx_window
    }

    /// The other endpoint of `link`.
    pub open spec fn peer(self, link: AttachedLink) -> TerminalAddress {
        if self.addr == link.src_addr {
            link.dst_addr
        } else {
            link.src_addr
        }
    }

    /// The packet this terminal builds to send `seqno` to `dst`.
    pub open spec fn packet_to(self, seqno: u64, dst: TerminalAddress, payload_size: u32) -> Packet {
        Packet { seqno, header_size: self.header_size, payload_size, src_addr: self.addr, dst_addr: dst }
    }

    /// Serialization time on `link` of a packet with `payload_size` bytes of payload.
    pub open spec fn send_time(self, payload_size: u32, link: AttachedLink) -> int {
        serialization_time(8 * (self.header_size + payload_size), link.capacity as int)
    }

    /// The earliest instant, not before `now`, at which the output queue is free.
    pub open spec fn free_at(self, now: Time) -> int {
        later(now.0 as int, self.last_tx_sched.0 as int)
    }

    /// The events of sending `packet` once it is fully on the wire at `sent_at`:
    /// the packet enters the link then, and a data packet also arms its
    /// retransmission timer.
    pub open spec fn send_events(self, packet: Packet, sent_at: int, link: AttachedLink) -> Seq<
        Event,
    > {
        let on_link = Event {
            due_time: Time(sent_at as u64),
            target: Target::Link(self.link_addr),
            kind: EventKind::Payload(packet),
        };
        if packet.payload_size > 0 {
            seq![
                on_link,
                Event {
                    due_time: Time((sent_at + link.timeout_span(packet)) as u64),
                    target: Target::Terminal(self.addr),
                    kind: EventKind::Timeout(packet.seqno),
                },
            ]
        } else {
            seq![on_link]
        }
    }

    /// Sending `seqno` to `dst` with `payload_size` bytes of payload at `now`:
    /// the packet queues behind what this terminal is already sending.
    pub open spec fn transmit_spec(
        self,
        seqno: u64,
        dst: TerminalAddress,
        now: Time,
        payload_size: u32,
        link: AttachedLink,
    ) -> (AttachedTerminal, Seq<Event>) {
        let packet = self.packet_to(seqno, dst, payload_size);
        let sent_at = self.free_at(now) + link.tx_time(packet);
        (AttachedTerminal { last_tx_sched: Time(sent_at as u64), ..self }, self.send_events(packet, sent_at, link))
    }

    /// Whether sending a packet with `payload_size` bytes of payload at `now`
    /// stays within the machine's integers.
    pub open spec fn can_transmit(self, now: Time, payload_size: u32, link: AttachedLink) -> bool {
        let span = if payload_size > 0 {
            link.timeout_span(self.packet_to(0, self.addr, payload_size))
        } else {
            0
        };
        self.free_at(now) + self.send_time(payload_size, link) + span <= u64::MAX
    }

    /// Sending data packets `first`, `first + 1`, ... (`count` of them) to `dst`
    /// back to back at `now`, in that order.
    pub open spec fn burst(self, first: u64, count: nat, dst: TerminalAddress, now: Time, link: AttachedLink) -> (
        AttachedTerminal,
        Seq<Event>,
    )
        decreases count,
    {
        if count == 0 {
            (self, Seq::empty())
        } else {
            let (t, evs) = self.burst(first, (count - 1) as nat, dst, now, link);
            let (u, more) = t.transmit_spec(
                (first + count - 1) as u64,
                dst,
                now,
                self.payload_size,
                link,
            );
            (u, evs + more)
        }
    }

    /// Whether the acknowledgment of `seqno` is new and acknowledges only what was sent.
    pub open spec fn accepts_ack(self, seqno: u64) -> bool {
        self.last_acked < seqno <= self.last_sent
    }

    /// Whether data packet `seqno` is the next one expected or a duplicate of
    /// one already delivered.
    pub open spec fn accepts_data(self, seqno: u64) -> bool {
        seqno <= self.last_recv + 1
    }

    /// Receiving an acknowledgment: an accepted one slides the window to start
    /// after `packet.seqno` and sends what the window newly holds.
    pub open spec fn ack_spec(self, packet: Packet, now: Time, link: AttachedLink) -> (
        AttachedTerminal,
        Seq<Event>,
    ) {
        if self.accepts_ack(packet.seqno) {
            let top = packet.seqno + self.tx_window;
            let acked = AttachedTerminal { last_acked: packet.seqno, ..self };
            let (t, evs) = acked.burst(
                (self.last_sent + 1) as u64,
                (top - self.last_sent) as nat,
                packet.src_addr,
                now,
                link,
            );
            (AttachedTerminal { last_sent: top as u64, ..t }, evs)
        } else {
            (self, Seq::empty())
        }
    }

    /// Receiving data: an accepted packet is delivered if it is the next one
    /// expected, and acknowledged in any case.
    pub open spec fn data_spec(self, packet: Packet, now: Time, link: AttachedLink) -> (
        AttachedTerminal,
        Seq<Event>,
    ) {
        if self.accepts_data(packet.seqno) {
            let t = AttachedTerminal {
                last_recv: later(self.last_recv as int, packet.seqno as int) as u64,
                ..self
            };
            t.transmit_spec(packet.seqno, packet.src_addr, now, 0, link)
        } else {
            (self, Seq::empty())
        }
    }

    /// A retransmission timer expiring: unless `seqno` is acknowledged already,
    /// the packet goes out again.
    pub open spec fn timeout_spec(self, dst: TerminalAddress, seqno: u64, now: Time, link: AttachedLink) -> (
        AttachedTerminal,
        Seq<Event>,
    ) {
        if seqno > self.last_acked {
            self.transmit_spec(seqno, dst, now, self.payload_size, link)
        } else {
            (self, Seq::empty())
        }
    }

    /// What processing `event` at `now` does, with `link` the attached link.
    pub open spec fn process_spec(self, event: Event, now: Time, link: AttachedLink) -> (
        AttachedTerminal,
        Seq<Event>,
    ) {
        match event.kind {
            EventKind::Payload(packet) => if packet.payload_size == 0 {
                self.ack_spec(packet, now, link)
            } else {
                self.data_spec(packet, now, link)
            },
            EventKind::Timeout(seqno) => self.timeout_spec(self.peer(link), seqno, now, link),
        }
    }

    /// Whether receiving the acknowledgment `packet` at `now` stays within the
    /// machine's integers: the new window end, and the timer of the last packet
    /// of the burst it lets out.
    pub open spec fn can_ack(self, packet: Packet, now: Time, link: AttachedLink) -> bool {
        self.accepts_ack(packet.seqno) ==> {
            let top = packet.seqno + self.tx_window;
            &&& top <= u64::MAX
            &&& self.free_at(now) + (top - self.last_sent) * self.send_time(self.payload_size, link)
                + link.timeout_span(self.packet_to(0, self.addr, self.payload_size)) <= u64::MAX
        }
    }

    /// Whether processing `event` at `now` stays within the machine's integers.
    pub open spec fn can_process(self, event: Event, now: Time, link: AttachedLink) -> bool {
        match event.kind {
            EventKind::Payload(packet) => if packet.payload_size == 0 {
                self.can_ack(packet, now, link)
            } else {
                self.accepts_data(packet.seqno) ==> self.can_transmit(now, 0, link)
            },
            EventKind::Timeout(seqno) => seqno > self.last_acked ==> self.can_transmit(
                now,
                self.payload_size,
                link,
            ),
        }
    }

    /// The events that set transmission going at `now`: one timeout for each
    /// packet of the initial window, packet `n` due `n` time units after `now`
    /// so that they fire in order.
    pub open spec fn start_spec(self, now: Time) -> Seq<Event> {
        Seq::new(
            self.last_sent as nat,
            |i: int|
                Event {
                    due_time: Time((now.0 + i + 1) as u64),
                    target: Target::Terminal(self.addr),
                    kind: EventKind::Timeout((i + 1) as u64),
                },
        )
    }

    fn get_dst_address(&self, link: &AttachedLink) -> (r: TerminalAddress)
        ensures
            r == self.peer(*link),
    {
        if self.addr == link.src_addr {
            link.dst_addr
        } else {
            link.src_addr
        }
    }

    /// The events that set transmission going at `now`.
    pub fn start(&self, now: Time) -> (r: Vec<Event>)
        requires
            now.0 + self.last_sent <= u64::MAX,
        ensures
            r@ == self.start_spec(now),
    {
        let mut res: Vec<Event> = Vec::new();
        let mut seqno: u64 = 0;
        while seqno < self.last_sent
            invariant
                seqno <= self.last_sent,
                now.0 + self.last_sent <= u64::MAX,
                res@ =~= self.start_spec(now).take(seqno as int),
            decreases self.last_sent - seqno,
        {
            seqno = seqno + 1;
            res.push(
                Event {
                    due_time: Time(now.0 + seqno),
                    target: Target::Terminal(self.addr),
                    kind: EventKind::Timeout(seqno),
                },
            );
        }
        res
    }

    fn advance_delivery_time(&mut self, link: &AttachedLink, packet: Packet, now: Time) -> (r: Time)
        requires
            link.wf(),
            old(self).free_at(now) + link.tx_time(packet) <= u64::MAX,
        ensures
            r.0 == old(self).free_at(now) + link.tx_time(packet),
            *final(self) == (AttachedTerminal { last_tx_sched: r, ..*old(self) }),
    {
        let tx_time = link.tx(packet);
        self.last_tx_sched = Time(now.max(self.last_tx_sched).0 + tx_time.0);
        self.last_tx_sched
    }

    fn transmit(
        &mut self,
        seqno: u64,
        dst_addr: TerminalAddress,
        now: Time,
        payload_size: u32,
        link: &AttachedLink,
    ) -> (r: Vec<Event>)
        requires
            link.wf(),
            old(self).can_transmit(now, payload_size, *link),
        ensures
            (*final(self), r@) == old(self).transmit_spec(seqno, dst_addr, now, payload_size, *link),
    {
        let p = Packet {
            seqno,
            header_size: self.header_size,
            payload_size,
            src_addr: self.addr,
            dst_addr,
        };
        let ghost before = *self;
        let delivery_time = self.advance_delivery_time(link, p, now);
        let mut res = Vec::with_capacity(2);
        res.push(
            Event {
                due_time: delivery_time,
                target: Target::Link(self.link_addr),
                kind: EventKind::Payload(p),
            },
        );
        if payload_size > 0 {
            let timeout = link.calc_timeout(p);
            res.push(
                Event {
                    due_time: Time(delivery_time.0 + timeout.0),
                    target: Target::Terminal(self.addr),
                    kind: EventKind::Timeout(seqno),
                },
            );
        }
        assert(res@ =~= before.transmit_spec(seqno, dst_addr, now, payload_size, *link).1);
        res
    }

    /// Sending a burst only moves the output queue: packet `k` of the burst
    /// (from 1) is fully on the wire `k` serialization times after the queue
    /// was first free.
    pub proof fn lemma_burst_schedule(
        self,
        first: u64,
        count: nat,
        dst: TerminalAddress,
        now: Time,
        link: AttachedLink,
    )
        requires
            self.free_at(now) + count * self.send_time(self.payload_size, link) <= u64::MAX,
            link.capacity > 0,
        ensures
            self.burst(first, count, dst, now, link).0 == (AttachedTerminal {
                last_tx_sched: if count == 0 {
                    self.last_tx_sched
                } else {
                    Time((self.free_at(now) + count * self.send_time(self.payload_size, link)) as u64)
                },
                ..self
            }),
        decreases count,
    {
        let ser = self.send_time(self.payload_size, link);
        let base = self.free_at(now);
        if count > 0 {
            let c = (count - 1) as nat;
            assert(0 <= ser) by {
                assert(8 * (self.header_size + self.payload_size) * 1_000_000_000_000 >= 0)
                    by (nonlinear_arith);
                vstd::arithmetic::div_mod::lemma_div_pos_is_pos(
                    8 * (self.header_size + self.payload_size) * 1_000_000_000_000,
                    link.capacity as int,
                );
            }
            assert(c * ser + ser == count * ser && c * ser <= count * ser && 0 <= c * ser) by (
            nonlinear_arith)
                requires
                    c + 1 == count,
                    0 <= ser,
            ;
            self.lemma_burst_schedule(first, c, dst, now, link);
        }
    }

    /// The window invariant holds at every point: processing any event keeps
    /// `last_acked <= last_sent <= last_acked + tx_window`.
    pub proof fn lemma_window_invariant(self, event: Event, now: Time, link: AttachedLink)
        requires
            self.wf(),
            link.wf(),
            self.can_process(event, now, link),
        ensures
            self.process_spec(event, now, link).0.wf(),
            self.process_spec(event, now, link).0.addr == self.addr,
            self.process_spec(event, now, link).0.link_addr == self.link_addr,
    {
        if let EventKind::Payload(packet) = event.kind {
            if packet.payload_size == 0 && self.accepts_ack(packet.seqno) {
                let top = packet.seqno + self.tx_window;
                let acked = AttachedTerminal { last_acked: packet.seqno, ..self };
                let ser = self.send_time(self.payload_size, link);
                assert(0 <= link.timeout_span(self.packet_to(0, self.addr, self.payload_size)));
                acked.lemma_burst_schedule(
                    (self.last_sent + 1) as u64,
                    (top - self.last_sent) as nat,
                    packet.src_addr,
                    now,
                    link,
                );
            }
        }
    }

    /// Accepted acknowledgments move `last_acked` strictly forward and never
    /// past `last_sent`; nothing else moves it.
    pub proof fn lemma_acks_advance(self, event: Event, now: Time, link: AttachedLink)
        requires
            self.wf(),
            link.wf(),
            self.can_process(event, now, link),
        ensures
            ({
                let t = self.process_spec(event, now, link).0;
                &&& t.last_acked <= t.last_sent
                &&& match event.kind {
                    EventKind::Payload(p) => if p.payload_size == 0 && self.accepts_ack(p.seqno) {
                        t.last_acked == p.seqno && t.last_acked > self.last_acked
                    } else {
                        t.last_acked == self.last_acked
                    },
                    EventKind::Timeout(_) => t.last_acked == self.last_acked,
                }
            }),
    {
        self.lemma_window_invariant(event, now, link);
        if let EventKind::Payload(packet) = event.kind {
            if packet.payload_size == 0 && self.accepts_ack(packet.seqno) {
                let top = packet.seqno + self.tx_window;
                let acked = AttachedTerminal { last_acked: packet.seqno, ..self };
                assert(0 <= link.timeout_span(self.packet_to(0, self.addr, self.payload_size)));
                acked.lemma_burst_schedule(
                    (self.last_sent + 1) as u64,
                    (top - self.last_sent) as nat,
                    packet.src_addr,
                    now,
                    link,
                );
            }
        }
    }

    /// Accepted data moves `last_recv` forward by at most one, and only when it
    /// is the next packet expected: a packet already delivered is acknowledged
    /// again but not delivered twice. Nothing but data moves `last_recv`.
    pub proof fn lemma_data_delivered_once(self, event: Event, now: Time, link: AttachedLink)
        requires
            self.wf(),
            link.wf(),
            self.can_process(event, now, link),
        ensures
            ({
                let t = self.process_spec(event, now, link).0;
                &&& self.last_recv <= t.last_recv <= self.last_recv + 1
                &&& match event.kind {
                    EventKind::Payload(p) => if p.payload_size > 0 {
                        &&& (t.last_recv == self.last_recv + 1 <==> p.seqno == self.last_recv + 1)
                        &&& (p.seqno <= self.last_recv ==> t.last_recv == self.last_recv)
                    } else {
                        t.last_recv == self.last_recv
                    },
                    EventKind::Timeout(_) => t.last_recv == self.last_recv,
                }
            }),
    {
        if let EventKind::Payload(packet) = event.kind {
            if packet.payload_size == 0 && self.accepts_ack(packet.seqno) {
                let top = packet.seqno + self.tx_window;
                let acked = AttachedTerminal { last_acked: packet.seqno, ..self };
                assert(0 <= link.timeout_span(self.packet_to(0, self.addr, self.payload_size)));
                acked.lemma_burst_schedule(
                    (self.last_sent + 1) as u64,
                    (top - self.last_sent) as nat,
                    packet.src_addr,
                    now,
                    link,
                );
            }
        }
    }

    /// Data from beyond a gap (anything after the next packet expected) is
    /// dropped: no acknowledgment, no change of state.
    pub proof fn lemma_gap_dropped(self, event: Event, now: Time, link: AttachedLink)
        requires
            event.kind matches EventKind::Payload(p) && p.payload_size > 0 && p.seqno
                > self.last_recv + 1,
        ensures
            self.process_spec(event, now, link) == (self, Seq::<Event>::empty()),
    {
    }

    /// A timeout for a packet already acknowledged does nothing.
    pub proof fn lemma_stale_timeout_ignored(self, event: Event, now: Time, link: AttachedLink)
        requires
            event.kind matches EventKind::Timeout(seqno) && seqno <= self.last_acked,
        ensures
            self.process_spec(event, now, link) == (self, Seq::<Event>::empty()),
    {
    }

    fn process_timeout(
        &mut self,
        dst_addr: TerminalAddress,
        seqno: u64,
        now: Time,
        link: &AttachedLink,
    ) -> (r: Vec<Event>)
        requires
            link.wf(),
            seqno > old(self).last_acked ==> old(self).can_transmit(now, old(self).payload_size, *link),
        ensures
            (*final(self), r@) == old(self).timeout_spec(dst_addr, seqno, now, *link),
    {
        if seqno > self.last_acked {
            self.transmit(seqno, dst_addr, now, self.payload_size, link)
        } else {
            Vec::new()
        }
    }

    fn process_ack(&mut self, packet: &Packet, now: Time, link: &AttachedLink) -> (r: Vec<Event>)
        requires
            link.wf(),
            old(self).wf(),
            old(self).can_ack(*packet, now, *link),
        ensures
            (*final(self), r@) == old(self).ack_spec(*packet, now, *link),
    {
        if packet.seqno > self.last_acked && packet.seqno <= self.last_sent {
            let ghost start = *self;
            let old_sent = self.last_sent;
            self.last_acked = packet.seqno;
            let top = packet.seqno + self.tx_window;
            let count = top - old_sent;
            let ghost acked = *self;
            let ghost ser = acked.send_time(acked.payload_size, *link);
            let ghost span = link.timeout_span(acked.packet_to(0, acked.addr, acked.payload_size));
            let mut res: Vec<Event> = Vec::new();
            let mut j: u64 = 0;
            while j < count
                invariant
                    j <= count,
                    link.wf(),
                    count == top - old_sent,
                    top == packet.seqno + acked.tx_window,
                    old_sent == start.last_sent,
                    acked == (AttachedTerminal { last_acked: packet.seqno, ..start }),
                    ser == acked.send_time(acked.payload_size, *link),
                    span == link.timeout_span(acked.packet_to(0, acked.addr, acked.payload_size)),
                    acked.free_at(now) + count * ser + span <= u64::MAX,
                    (*self, res@) == acked.burst((old_sent + 1) as u64, j as nat, packet.src_addr, now, *link),
                decreases count - j,
            {
                proof {
                    assert(0 <= span);
                    assert(j * ser <= count * ser && (j + 1) * ser <= count * ser && j * ser + ser == (j + 1) * ser) by (nonlinear_arith)
                        requires
                            j < count,
                            0 <= ser,
                    ;
                    acked.lemma_burst_schedule((old_sent + 1) as u64, j as nat, packet.src_addr, now, *link);
                    acked.lemma_burst_schedule((old_sent + 1) as u64, (j + 1) as nat, packet.src_addr, now, *link);
                }
                let mut evs = self.transmit(old_sent + 1 + j, packet.src_addr, now, self.payload_size, link);
                res.append(&mut evs);
                j = j + 1;
            }
            proof {
                acked.lemma_burst_schedule((old_sent + 1) as u64, count as nat, packet.src_addr, now, *link);
            }
            self.last_sent = top;
            res
        } else {
            Vec::new()
        }
    }

    fn process_data(&mut self, packet: &Packet, now: Time, link: &AttachedLink) -> (r: Vec<Event>)
        requires
            link.wf(),
            old(self).accepts_data(packet.seqno) ==> old(self).can_transmit(now, 0, *link),
        ensures
            (*final(self), r@) == old(self).data_spec(*packet, now, *link),
    {
        if packet.seqno == 0 || packet.seqno - 1 <= self.last_recv {
            if packet.seqno > self.last_recv {
                self.last_recv = packet.seqno;
            }
            self.transmit(packet.seqno, packet.src_addr, now, 0, link)
        } else {
            Vec::new()
        }
    }

    /// Processes `event` at `now`; `link` is the attached link, read only.
    pub fn process(&mut self, event: Event, now: Time, link: &AttachedLink) -> (r: Vec<Event>)
        requires
            old(self).wf(),
            link.wf(),
            old(self).can_process(event, now, *link),
        ensures
            final(self).wf(),
            (*final(self), r@) == old(self).process_spec(event, now, *link),
    {
        match event.kind {
            EventKind::Payload(packet) => {
                proof {
                    old(self).lemma_window_invariant(event, now, *link);
                }
                if packet.payload_size == 0 {
                    self.process_ack(&packet, now, link)
                } else {
                    self.process_data(&packet, now, link)
                }
            },
            EventKind::Timeout(seqno) => {
                let dst = self.get_dst_address(link);
                self.process_timeout(dst, seqno, now, link)
            },
        }
    }

    /// Whether sending a packet with `payload_size` bytes of payload at `now`
    /// stays within the machine's integers.
    fn transmit_within_limits(&self, now: Time, payload_size: u32, link: &AttachedLink) -> (r: bool)
        requires
            link.wf(),
        ensures
            r == self.can_transmit(now, payload_size, *link),
    {
        let probe = Packet {
            seqno: 0,
            header_size: self.header_size,
            payload_size,
            src_addr: self.addr,
            dst_addr: self.addr,
        };
        let span = if payload_size > 0 {
            link.timeout_span_of(probe)
        } else {
            0
        };
        now.max(self.last_tx_sched).0 as u128 + link.tx_span(probe) + span <= u64::MAX as u128
    }

    /// Whether processing `event` at `now` stays within the machine's integers.
    pub fn within_limits(&self, event: &Event, now: Time, link: &AttachedLink) -> (r: bool)
        requires
            self.wf(),
            link.wf(),
        ensures
            r == self.can_process(*event, now, *link),
    {
        match event.kind {
            EventKind::Payload(packet) => {
                if packet.payload_size == 0 {
                    if !(packet.seqno > self.last_acked && packet.seqno <= self.last_sent) {
                        return true;
                    }
                    let top = packet.seqno as u128 + self.tx_window as u128;
                    if top > u64::MAX as u128 {
                        return false;
                    }
                    let count = top - self.last_sent as u128;
                    let probe = Packet {
                        seqno: 0,
                        header_size: self.header_size,
                        payload_size: self.payload_size,
                        src_addr: self.addr,
                        dst_addr: self.addr,
                    };
                    let ser = link.tx_span(probe);
                    let span = link.timeout_span_of(probe);
                    let free = now.max(self.last_tx_sched).0 as u128;
                    if count > 0 && ser > u64::MAX as u128 {
                        assert(count * ser > u64::MAX) by (nonlinear_arith)
                            requires
                                count >= 1,
                                ser > u64::MAX,
                        ;
                        return false;
                    }
                    assert(count * ser <= 0xffff_ffff_ffff_ffff * 0xffff_ffff_ffff_ffff) by (
                    nonlinear_arith)
                        requires
                            count <= 0xffff_ffff_ffff_ffff,
                            count == 0 || ser <= 0xffff_ffff_ffff_ffff,
                    ;
                    let burst = count * ser;
                    burst <= u64::MAX as u128 && free + burst + span <= u64::MAX as u128
                } else {
                    !(packet.seqno == 0 || packet.seqno - 1 <= self.last_recv)
                        || self.transmit_within_limits(now, 0, link)
                }
            },
            EventKind::Timeout(seqno) => seqno <= self.last_acked || self.transmit_within_limits(
                now,
                self.payload_size,
                link,
            ),
        }
    }

    /// The number of packets acknowledged so far.
    pub fn get_transmitted_packets(&self) -> (r: u64)
        ensures
            r == self.last_acked,
    {
        self.last_acked
    }
}

} // verus!
