use crate::address::TerminalAddress;
use vstd::prelude::*;

verus! {

/// One transmission unit. A packet without payload is an acknowledgment;
/// any other packet carries data.
#[derive(Clone, Copy, Debug, PartialEq, Eq, Structural, Hash)]
pub struct Packet {
    pub seqno: u64,
    pub header_size: u32,
    pub payload_size: u32,
    pub src_addr: TerminalAddress,
    pub dst_addr: TerminalAddress,
}

impl Packet {
    /// Header plus payload, in bytes.
    pub open spec fn raw_bytes(self) -> nat {
        (self.header_size + self.payload_size) as nat
    }

    /// Payload alone, in bytes.
    pub open spec fn good_bytes(self) -> nat {
        self.payload_size as nat
    }

    /// Size on the wire, in bits.
    pub open spec fn bits(self) -> nat {
        8 * self.raw_bytes()
    }

    /// The acknowledgment-sized counterpart of this packet: same header, no payload.
    pub open spec fn ack_sized(self) -> Packet {
        Packet { payload_size: 0, ..self }
    }

    /// Whether the packet is an acknowledgment.
    pub fn is_ack(&self) -> (r: bool)
        ensures
            r == (self.payload_size == 0),
    {
        self.payload_size == 0
    }

    /// Size on the wire, in bits.
    pub fn bit_size(&self) -> (r: u64)
        ensures
            r == self.bits(),
    {
        8 * (self.header_size as u64 + self.payload_size as u64)
    }
}

} // verus!
