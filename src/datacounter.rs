use crate::packet::Packet;
use vstd::prelude::*;

verus! {

/// Byte totals at the two checkpoints of a link: packets that entered it and
/// packets that it delivered intact. Raw totals count headers and payload,
/// good totals the payload alone.
#[derive(Clone, Copy, Debug, PartialEq, Eq, Structural, Hash)]
pub struct DataCounter {
    pub raw_transmitted: u64,
    pub good_transmitted: u64,
    pub raw_delivered: u64,
    pub good_delivered: u64,
}

impl DataCounter {
    /// All totals at zero.
    pub open spec fn zero() -> DataCounter {
        DataCounter { raw_transmitted: 0, good_transmitted: 0, raw_delivered: 0, good_delivered: 0 }
    }

    /// The totals once `packet` entered the link.
    pub open spec fn after_transmit(self, packet: Packet) -> DataCounter {
        DataCounter {
            raw_transmitted: (self.raw_transmitted + packet.raw_bytes()) as u64,
            good_transmitted: (self.good_transmitted + packet.good_bytes()) as u64,
            ..self
        }
    }

    /// The totals once the link delivered `packet` intact.
    pub open spec fn after_deliver(self, packet: Packet) -> DataCounter {
        DataCounter {
            raw_delivered: (self.raw_delivered + packet.raw_bytes()) as u64,
            good_delivered: (self.good_delivered + packet.good_bytes()) as u64,
            ..self
        }
    }

    /// All totals at zero.
    pub fn new() -> (r: DataCounter)
        ensures
            r == DataCounter::zero(),
    {
        DataCounter { raw_transmitted: 0, good_transmitted: 0, raw_delivered: 0, good_delivered: 0 }
    }

    /// Whether the entry totals can take `packet` without overflow.
    pub open spec fn can_transmit(self, packet: Packet) -> bool {
        self.raw_transmitted + packet.raw_bytes() <= u64::MAX
    }

    /// Whether the delivery totals can take `packet` without overflow.
    pub open spec fn can_deliver(self, packet: Packet) -> bool {
        self.raw_delivered + packet.raw_bytes() <= u64::MAX
    }

    /// Well-formed totals: a payload never outweighs the packet that carries it.
    pub open spec fn wf(self) -> bool {
        &&& self.good_transmitted <= self.raw_transmitted
        &&& self.good_delivered <= self.raw_delivered
    }

    /// The totals after `packet` entered the link.
    pub fn transmitted_packet(&self, packet: Packet) -> (r: DataCounter)
        requires
            self.wf(),
            self.can_transmit(packet),
        ensures
            r.wf(),
            r == self.after_transmit(packet),
            r.raw_transmitted == self.raw_transmitted + packet.raw_bytes(),
            r.good_transmitted == self.good_transmitted + packet.good_bytes(),
    {
        DataCounter {
            raw_transmitted: self.raw_transmitted + raw(packet),
            good_transmitted: self.good_transmitted + good(packet),
            ..*self
        }
    }

    /// The totals after the link delivered `packet` intact.
    pub fn delivered_packet(&self, packet: Packet) -> (r: DataCounter)
        requires
            self.wf(),
            self.can_deliver(packet),
        ensures
            r.wf(),
            r == self.after_deliver(packet),
            r.raw_delivered == self.raw_delivered + packet.raw_bytes(),
            r.good_delivered == self.good_delivered + packet.good_bytes(),
    {
        DataCounter {
            raw_delivered: self.raw_delivered + raw(packet),
            good_delivered: self.good_delivered + good(packet),
            ..*self
        }
    }
}

fn raw(packet: Packet) -> (r: u64)
    ensures
        r == packet.raw_bytes(),
{
    packet.header_size as u64 + packet.payload_size as u64
}

fn good(packet: Packet) -> (r: u64)
    ensures
        r == packet.good_bytes(),
{
    packet.payload_size as u64
}

} // verus!
