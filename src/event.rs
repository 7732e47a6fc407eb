use crate::address::{LinkAddress, TerminalAddress};
use crate::packet::Packet;
use crate::time::Time;
use vstd::prelude::*;

verus! {

/// What happens when an event comes due.
#[derive(Clone, Copy, Debug, PartialEq, Eq, Structural)]
pub enum EventKind {
    /// A packet reaches the target.
    Payload(Packet),
    /// The retransmission timer of a sequence number expires at the target.
    Timeout(u64),
}

/// The entity that processes an event.
#[derive(Clone, Copy, Debug, PartialEq, Eq, Structural)]
pub enum Target {
    Link(LinkAddress),
    Terminal(TerminalAddress),
}

/// A scheduled occurrence: at `due_time`, `target` processes `kind`.
#[derive(Clone, Copy, Debug, PartialEq, Eq, Structural)]
pub struct Event {
    pub due_time: Time,
    pub target: Target,
    pub kind: EventKind,
}

impl EventKind {
    /// Rank among events due at the same instant: packets before timeouts.
    pub open spec fn rank(self) -> int {
        match self {
            EventKind::Payload(_) => 0,
            EventKind::Timeout(_) => 1,
        }
    }

    fn weight(&self) -> (r: u8)
        ensures
            r == self.rank(),
    {
        match self {
            EventKind::Payload(_) => 0,
            EventKind::Timeout(_) => 1,
        }
    }
}

impl Event {
    /// The scheduling order: `self` comes strictly before `other` when it is due
    /// earlier, or due at the same instant with a lower rank.
    pub open spec fn precedes(self, other: Event) -> bool {
        ||| self.due_time.0 < other.due_time.0
        ||| (self.due_time.0 == other.due_time.0 && self.kind.rank() < other.kind.rank())
    }

    /// Whether `self` is scheduled strictly before `other`.
    pub fn is_before(&self, other: &Event) -> (r: bool)
        ensures
            r == self.precedes(*other),
    {
        self.due_time.0 < other.due_time.0 || (self.due_time.0 == other.due_time.0
            && self.kind.weight() < other.kind.weight())
    }

    /// Whether processing this event puts a packet through a link, where it may
    /// be corrupted.
    pub open spec fn enters_link(self) -> bool {
        self.target is Link && self.kind is Payload
    }

    /// The number of bits exposed to corruption when this event is processed:
    /// the packet's size if it enters a link, nothing otherwise.
    pub fn corruption_bits(&self) -> (r: Option<u64>)
        ensures
            r == (if self.enters_link() {
                Some(self.kind->Payload_0.bits() as u64)
            } else {
                None::<u64>
            }),
    {
        match (self.target, self.kind) {
            (Target::Link(_), EventKind::Payload(packet)) => Some(packet.bit_size()),
            _ => None,
        }
    }
}

} // verus!
