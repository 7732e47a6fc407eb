use crate::address::TerminalAddress;
use crate::datacounter::DataCounter;
use crate::event::{Event, EventKind, Target};
use crate::packet::Packet;
use crate::time::{Time, PICOS_PER_SEC};
use vstd::prelude::*;

verus! {

/// Time to put `bits` on a wire of `capacity` bits per second, in picoseconds,
/// rounded down.
pub open spec fn serialization_time(bits: int, capacity: int) -> int
    recommends
        capacity > 0,
{
    (bits * PICOS_PER_SEC) / capacity
}

/// The physical parameters of a link, before it is attached to its terminals.
#[derive(Clone, Copy, Debug, PartialEq, Eq, Structural)]
pub struct Link {
    /// Bits per second.
    pub capacity: u64,
    pub propagation_delay: Time,
}

/// A link attached to its two terminals, with its traffic totals.
#[derive(Clone, Copy, Debug, PartialEq, Eq, Structural)]
pub struct AttachedLink {
    pub src_addr: TerminalAddress,
    pub dst_addr: TerminalAddress,
    /// Bits per second.
    pub capacity: u64,
    pub propagation_delay: Time,
    pub counter: DataCounter,
}

impl Link {
    /// A link of `capacity` bits per second whose signals take
    /// `propagation_delay` to cross it.
    pub fn create(capacity: u64, propagation_delay: Time) -> (r: Link)
        requires
            capacity > 0,
        ensures
            r.capacity == capacity,
            r.propagation_delay == propagation_delay,
    {
        Link { capacity, propagation_delay }
    }

    /// The link joined to terminals `src_addr` and `dst_addr`, with zero totals.
    pub open spec fn attached(self, src_addr: TerminalAddress, dst_addr: TerminalAddress) -> AttachedLink {
        AttachedLink {
            src_addr,
            dst_addr,
            capacity: self.capacity,
            propagation_delay: self.propagation_delay,
            counter: DataCounter::zero(),
        }
    }

    /// The link joined to terminals `src_addr` and `dst_addr`, with zero totals.
    pub fn attach_terminals(&self, src_addr: TerminalAddress, dst_addr: TerminalAddress) -> (r:
        AttachedLink)
        requires
            self.capacity > 0,
        ensures
            r == self.attached(src_addr, dst_addr),
            r.wf(),
            r.src_addr == src_addr,
            r.dst_addr == dst_addr,
            r.capacity == self.capacity,
            r.propagation_delay == self.propagation_delay,
            r.counter == DataCounter::zero(),
    {
        AttachedLink {
            src_addr,
            dst_addr,
            capacity: self.capacity,
            propagation_delay: self.propagation_delay,
            counter: DataCounter::new(),
        }
    }
}

impl AttachedLink {
    pub open spec fn wf(self) -> bool {
        &&& self.capacity > 0
        &&& self.counter.wf()
    }

    /// Serialization time of `packet` on this link.
    pub open spec fn tx_time(self, packet: Packet) -> int {
        serialization_time(packet.bits() as int, self.capacity as int)
    }

    /// The least time a sender waits for the acknowledgment of `packet` once it
    /// is on the wire: the packet's serialization, that of its acknowledgment,
    /// and the propagation both ways.
    pub open spec fn timeout_span(self, packet: Packet) -> int {
        self.tx_time(packet) + self.tx_time(packet.ack_sized()) + 2 * self.propagation_delay.0
    }

    /// What processing `packet` at instant `now` does: the entry totals count it;
    /// if it survives the crossing, the delivery totals count it too and it
    /// reaches its destination one propagation delay later.
    pub open spec fn process_spec(self, packet: Packet, now: Time, survives: bool) -> (
        AttachedLink,
        Seq<Event>,
    ) {
        let entered = self.counter.after_transmit(packet);
        if survives {
            (
                AttachedLink { counter: entered.after_deliver(packet), ..self },
                seq![
                    Event {
                        due_time: Time((now.0 + self.propagation_delay.0) as u64),
                        target: Target::Terminal(packet.dst_addr),
                        kind: EventKind::Payload(packet),
                    },
                ],
            )
        } else {
            (AttachedLink { counter: entered, ..self }, Seq::empty())
        }
    }

    /// Whether processing `packet` at `now` stays within the machine's integers.
    pub open spec fn can_carry(self, packet: Packet, now: Time) -> bool {
        &&& self.counter.can_transmit(packet)
        &&& self.counter.can_deliver(packet)
        &&& now.0 + self.propagation_delay.0 <= u64::MAX
    }

    /// Puts the packet of `event`, which has just entered the link at `now`,
    /// across it. `survives` is the outcome of the corruption draw for it.
    pub fn process(&mut self, event: Event, now: Time, survives: bool) -> (r: Vec<Event>)
        requires
            old(self).wf(),
            event.kind is Payload,
            old(self).can_carry(event.kind->Payload_0, now),
        ensures
            final(self).wf(),
            (*final(self), r@) == old(self).process_spec(event.kind->Payload_0, now, survives),
    {
        let mut res = Vec::new();
        if let EventKind::Payload(packet) = event.kind {
            self.counter = self.counter.transmitted_packet(packet);
            if survives {
                self.counter = self.counter.delivered_packet(packet);
                res.push(
                    Event {
                        due_time: Time(now.0 + self.propagation_delay.0),
                        target: Target::Terminal(packet.dst_addr),
                        kind: EventKind::Payload(packet),
                    },
                );
            }
        }
        res
    }

    /// Serialization time of `packet` on this link, at full width.
    pub fn tx_span(&self, packet: Packet) -> (r: u128)
        requires
            self.wf(),
        ensures
            r == self.tx_time(packet),
            r <= 0x1_0000_0000_0000_0000_0000,
    {
        let bits = packet.bit_size() as u128;
        assert(bits * (PICOS_PER_SEC as u128) <= 0x1_0000_0000_0000_0000_0000) by (nonlinear_arith)
            requires
                bits <= 0x10_0000_0000,
        ;
        let span = bits * (PICOS_PER_SEC as u128) / (self.capacity as u128);
        assert(span <= bits * (PICOS_PER_SEC as u128)) by {
            vstd::arithmetic::div_mod::lemma_div_is_ordered_by_denominator(
                (bits * (PICOS_PER_SEC as u128)) as int,
                1,
                self.capacity as int,
            );
        }
        span
    }

    /// Serialization time of `packet` on this link.
    pub fn tx(&self, packet: Packet) -> (r: Time)
        requires
            self.wf(),
            self.tx_time(packet) <= u64::MAX,
        ensures
            r.0 == self.tx_time(packet),
    {
        Time(self.tx_span(packet) as u64)
    }

    /// The retransmission timeout of `packet`, at full width.
    pub fn timeout_span_of(&self, packet: Packet) -> (r: u128)
        requires
            self.wf(),
        ensures
            r == self.timeout_span(packet),
    {
        let ack = Packet { payload_size: 0, ..packet };
        self.tx_span(packet) + self.tx_span(ack) + self.propagation_delay.0 as u128
            + self.propagation_delay.0 as u128
    }

    /// Whether processing `packet` at `now` stays within the machine's integers.
    pub fn within_limits(&self, packet: Packet, now: Time) -> (r: bool)
        ensures
            r == self.can_carry(packet, now),
    {
        let raw = packet.header_size as u128 + packet.payload_size as u128;
        self.counter.raw_transmitted as u128 + raw <= u64::MAX as u128
            && self.counter.raw_delivered as u128 + raw <= u64::MAX as u128
            && now.0 as u128 + self.propagation_delay.0 as u128 <= u64::MAX as u128
    }

    /// The retransmission timeout of `packet`, counted from the end of its
    /// serialization.
    pub fn calc_timeout(&self, packet: Packet) -> (r: Time)
        requires
            self.wf(),
            self.timeout_span(packet) <= u64::MAX,
        ensures
            r.0 == self.timeout_span(packet),
    {
        let ack = Packet { payload_size: 0, ..packet };
        let own = self.tx(packet);
        let back = self.tx(ack);
        Time(own.0 + back.0 + self.propagation_delay.0 + self.propagation_delay.0)
    }

    /// The traffic totals so far.
    pub fn counter(&self) -> (r: DataCounter)
        ensures
            r == self.counter,
    {
        self.counter
    }
}

} // verus!
