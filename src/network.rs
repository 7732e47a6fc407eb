use crate::address::{LinkAddress, TerminalAddress};
use crate::event::{Event, EventKind, Target};
use crate::link::{AttachedLink, Link};
use crate::terminal::{AttachedTerminal, Terminal};
use crate::time::Time;
use vstd::prelude::*;

verus! {

/// The contents of a network: its terminals and its links, each indexed by
/// its address.
pub ghost struct NetworkState {
    pub terminals: Seq<AttachedTerminal>,
    pub links: Seq<AttachedLink>,
}

/// The topology of one simulation: terminals and links in two collections,
/// each entity at the index of its address.
#[derive(Clone, Debug)]
pub struct Network {
    pub terminals: Vec<AttachedTerminal>,
    pub links: Vec<AttachedLink>,
}

impl NetworkState {
    /// Every entity sits at its own address and every reference between a
    /// terminal and its link goes both ways.
    pub open spec fn wf(self) -> bool {
        &&& forall|i: int|
            0 <= i < self.terminals.len() ==> {
                let t = #[trigger] self.terminals[i];
                &&& t.wf()
                &&& t.addr.0 == i
                &&& t.link_addr.0 < self.links.len()
                &&& (self.links[t.link_addr.0 as int].src_addr.0 == i
                    || self.links[t.link_addr.0 as int].dst_addr.0 == i)
            }
        &&& forall|k: int|
            0 <= k < self.links.len() ==> {
                let l = #[trigger] self.links[k];
                &&& l.wf()
                &&& l.src_addr.0 < self.terminals.len()
                &&& l.dst_addr.0 < self.terminals.len()
                &&& self.terminals[l.src_addr.0 as int].link_addr.0 == k
                &&& self.terminals[l.dst_addr.0 as int].link_addr.0 == k
            }
    }

    /// The link that the terminal at `addr` is attached to.
    pub open spec fn link_of(self, addr: TerminalAddress) -> AttachedLink {
        self.links[self.terminals[addr.0 as int].link_addr.0 as int]
    }

    /// Whether `event` names an entity of the network that can process it:
    /// links only take packets.
    pub open spec fn routes(self, event: Event) -> bool {
        match event.target {
            Target::Link(a) => a.0 < self.links.len() && event.kind is Payload,
            Target::Terminal(a) => a.0 < self.terminals.len(),
        }
    }

    /// Whether processing `event` at `now` stays within the machine's integers.
    pub open spec fn can_process(self, event: Event, now: Time) -> bool {
        match event.target {
            Target::Link(a) => self.links[a.0 as int].can_carry(event.kind->Payload_0, now),
            Target::Terminal(a) => self.terminals[a.0 as int].can_process(
                event,
                now,
                self.link_of(a),
            ),
        }
    }

    /// What processing `event` at `now` does: its target alone changes, and
    /// the events it produces come back. A link takes the outcome `survives`
    /// of the corruption draw; a terminal reads its link and leaves it as is.
    pub open spec fn process_spec(self, event: Event, now: Time, survives: bool) -> (
        NetworkState,
        Seq<Event>,
    ) {
        match event.target {
            Target::Link(a) => {
                let (l, evs) = self.links[a.0 as int].process_spec(
                    event.kind->Payload_0,
                    now,
                    survives,
                );
                (NetworkState { links: self.links.update(a.0 as int, l), ..self }, evs)
            },
            Target::Terminal(a) => {
                let (t, evs) = self.terminals[a.0 as int].process_spec(
                    event,
                    now,
                    self.link_of(a),
                );
                (NetworkState { terminals: self.terminals.update(a.0 as int, t), ..self }, evs)
            },
        }
    }
}

impl NetworkState {
    /// Replacing a link by one with the same endpoints keeps the network well formed.
    pub proof fn lemma_wf_link_update(self, k: int, l: AttachedLink)
        requires
            self.wf(),
            0 <= k < self.links.len(),
            l.wf(),
            l.src_addr == self.links[k].src_addr,
            l.dst_addr == self.links[k].dst_addr,
        ensures
            (NetworkState { links: self.links.update(k, l), ..self }).wf(),
    {
        let s = NetworkState { links: self.links.update(k, l), ..self };
        assert forall|i: int| 0 <= i < s.terminals.len() implies {
            let t = #[trigger] s.terminals[i];
            &&& t.wf()
            &&& t.addr.0 == i
            &&& t.link_addr.0 < s.links.len()
            &&& (s.links[t.link_addr.0 as int].src_addr.0 == i
                || s.links[t.link_addr.0 as int].dst_addr.0 == i)
        } by {
            let t = self.terminals[i];
            assert(self.links[t.link_addr.0 as int].src_addr.0 == i
                || self.links[t.link_addr.0 as int].dst_addr.0 == i);
        }
        assert forall|j: int| 0 <= j < s.links.len() implies {
            let m = #[trigger] s.links[j];
            &&& m.wf()
            &&& m.src_addr.0 < s.terminals.len()
            &&& m.dst_addr.0 < s.terminals.len()
            &&& s.terminals[m.src_addr.0 as int].link_addr.0 == j
            &&& s.terminals[m.dst_addr.0 as int].link_addr.0 == j
        } by {
            let m = self.links[j];
            assert(m.wf());
        }
    }

    /// Replacing a terminal by a well-formed one with the same address and link
    /// keeps the network well formed.
    pub proof fn lemma_wf_terminal_update(self, i: int, t: AttachedTerminal)
        requires
            self.wf(),
            0 <= i < self.terminals.len(),
            t.wf(),
            t.addr == self.terminals[i].addr,
            t.link_addr == self.terminals[i].link_addr,
        ensures
            (NetworkState { terminals: self.terminals.update(i, t), ..self }).wf(),
    {
        let s = NetworkState { terminals: self.terminals.update(i, t), ..self };
        assert forall|n: int| 0 <= n < s.terminals.len() implies {
            let u = #[trigger] s.terminals[n];
            &&& u.wf()
            &&& u.addr.0 == n
            &&& u.link_addr.0 < s.links.len()
            &&& (s.links[u.link_addr.0 as int].src_addr.0 == n
                || s.links[u.link_addr.0 as int].dst_addr.0 == n)
        } by {
            let u = self.terminals[n];
            assert(u.wf());
        }
        assert forall|j: int| 0 <= j < s.links.len() implies {
            let m = #[trigger] s.links[j];
            &&& m.wf()
            &&& m.src_addr.0 < s.terminals.len()
            &&& m.dst_addr.0 < s.terminals.len()
            &&& s.terminals[m.src_addr.0 as int].link_addr.0 == j
            &&& s.terminals[m.dst_addr.0 as int].link_addr.0 == j
        } by {
            let m = self.links[j];
            assert(m.wf());
        }
    }

    /// Processing an event keeps the network well formed.
    pub proof fn lemma_process_keeps_wf(self, event: Event, now: Time, survives: bool)
        requires
            self.wf(),
            self.routes(event),
            self.can_process(event, now),
        ensures
            self.process_spec(event, now, survives).0.wf(),
    {
        match event.target {
            Target::Link(a) => {
                let l = self.links[a.0 as int];
                self.lemma_wf_link_update(
                    a.0 as int,
                    l.process_spec(event.kind->Payload_0, now, survives).0,
                );
            },
            Target::Terminal(a) => {
                let t = self.terminals[a.0 as int];
                t.lemma_window_invariant(event, now, self.link_of(a));
                self.lemma_wf_terminal_update(
                    a.0 as int,
                    t.process_spec(event, now, self.link_of(a)).0,
                );
            },
        }
    }
}

impl View for Network {
    type V = NetworkState;

    open spec fn view(&self) -> NetworkState {
        NetworkState { terminals: self.terminals@, links: self.links@ }
    }
}

impl Network {
    /// A network with no terminal and no link.
    pub fn new() -> (r: Network)
        ensures
            r@.terminals.len() == 0,
            r@.links.len() == 0,
            r@.wf(),
    {
        Network { terminals: Vec::new(), links: Vec::new() }
    }

    /// The events with which the terminal at `terminal_addr` starts sending at `now`.
    pub fn start(&self, terminal_addr: TerminalAddress, now: Time) -> (r: Vec<Event>)
        requires
            terminal_addr.0 < self@.terminals.len(),
            now.0 + self@.terminals[terminal_addr.0 as int].last_sent <= u64::MAX,
        ensures
            r@ == self@.terminals[terminal_addr.0 as int].start_spec(now),
    {
        let src_terminal = self.get_ref_terminal_by_addr(terminal_addr);
        src_terminal.start(now)
    }

    fn add_terminal(&mut self, terminal: AttachedTerminal) -> (r: TerminalAddress)
        requires
            terminal.addr.0 == old(self)@.terminals.len(),
        ensures
            r == terminal.addr,
            final(self)@.terminals == old(self)@.terminals.push(terminal),
            final(self)@.links == old(self)@.links,
    {
        let addr = TerminalAddress(self.terminals.len());
        self.terminals.push(terminal);
        addr
    }

    fn add_link(&mut self, link: AttachedLink) -> (r: LinkAddress)
        requires
            link.src_addr.0 < old(self)@.terminals.len(),
            link.dst_addr.0 < old(self)@.terminals.len(),
            old(self)@.terminals[link.src_addr.0 as int].link_addr.0 == old(self)@.links.len(),
            old(self)@.terminals[link.dst_addr.0 as int].link_addr.0 == old(self)@.links.len(),
        ensures
            r.0 == old(self)@.links.len(),
            final(self)@.links == old(self)@.links.push(link),
            final(self)@.terminals == old(self)@.terminals,
    {
        let addr = LinkAddress(self.links.len());
        self.links.push(link);
        addr
    }

    /// Adds a link between two new terminals, `orig` and `dst`, and returns
    /// their addresses and the link's.
    pub fn add_link_and_terminals(&mut self, orig: Terminal, dst: Terminal, link: Link) -> (r: (
        TerminalAddress,
        TerminalAddress,
        LinkAddress,
    ))
        requires
            old(self)@.wf(),
            link.capacity > 0,
            old(self)@.terminals.len() + 2 <= usize::MAX,
            old(self)@.links.len() + 1 <= usize::MAX,
        ensures
            final(self)@.wf(),
            r.0.0 == old(self)@.terminals.len(),
            r.1.0 == old(self)@.terminals.len() + 1,
            r.2.0 == old(self)@.links.len(),
            final(self)@.terminals == old(self)@.terminals.push(orig.attached(r.0, r.2)).push(
                dst.attached(r.1, r.2),
            ),
            final(self)@.links == old(self)@.links.push(link.attached(r.0, r.1)),
    {
        let addr_orig = TerminalAddress(self.terminals.len());
        let addr_dst = TerminalAddress(self.terminals.len() + 1);
        let link_addr = LinkAddress(self.links.len());
        let attached_orig = orig.attach_to_link(addr_orig, link_addr);
        let attached_dst = dst.attach_to_link(addr_dst, link_addr);
        self.add_terminal(attached_orig);
        self.add_terminal(attached_dst);
        self.add_link(link.attach_terminals(addr_orig, addr_dst));
        proof {
            let s = self@;
            assert forall|i: int| 0 <= i < s.terminals.len() implies {
                let t = #[trigger] s.terminals[i];
                &&& t.wf()
                &&& t.addr.0 == i
                &&& t.link_addr.0 < s.links.len()
                &&& (s.links[t.link_addr.0 as int].src_addr.0 == i
                    || s.links[t.link_addr.0 as int].dst_addr.0 == i)
            } by {
                if i < old(self)@.terminals.len() {
                    assert(old(self)@.terminals[i] == s.terminals[i]);
                }
            }
        }
        (addr_orig, addr_dst, link_addr)
    }

    /// The terminal at `addr`.
    pub fn get_ref_terminal_by_addr(&self, addr: TerminalAddress) -> (r: &AttachedTerminal)
        requires
            addr.0 < self@.terminals.len(),
        ensures
            *r == self@.terminals[addr.0 as int],
    {
        &self.terminals[addr.0]
    }

    /// The link at `addr`.
    pub fn get_ref_link_by_addr(&self, addr: LinkAddress) -> (r: &AttachedLink)
        requires
            addr.0 < self@.links.len(),
        ensures
            *r == self@.links[addr.0 as int],
    {
        &self.links[addr.0]
    }

    /// The link at `addr`, to change in place.
    pub fn get_mut_link_by_addr(&mut self, addr: LinkAddress) -> (r: &mut AttachedLink)
        requires
            addr.0 < old(self)@.links.len(),
        ensures
            *r == old(self)@.links[addr.0 as int],
            final(self)@.links == old(self)@.links.update(addr.0 as int, *final(r)),
            final(self)@.terminals == old(self)@.terminals,
    {
        &mut self.links[addr.0]
    }

    /// Whether `process_event` can take `event` at `now`: its target exists and
    /// can process it, and the integers involved stay within the machine's.
    pub fn can_process(&self, event: &Event, now: Time) -> (r: bool)
        requires
            self@.wf(),
        ensures
            r == (self@.routes(*event) && self@.can_process(*event, now)),
    {
        match event.target {
            Target::Link(a) => {
                if a.0 >= self.links.len() {
                    return false;
                }
                match event.kind {
                    EventKind::Payload(packet) => self.links[a.0].within_limits(packet, now),
                    EventKind::Timeout(_) => false,
                }
            },
            Target::Terminal(a) => {
                if a.0 >= self.terminals.len() {
                    return false;
                }
                let terminal = &self.terminals[a.0];
                let link = &self.links[terminal.link_addr.0];
                terminal.within_limits(event, now, link)
            },
        }
    }

    /// Processes `event` at `now` at the entity it targets and returns the
    /// events that this produces. `survives` is the outcome of the corruption
    /// draw for a packet entering a link, and is not read otherwise.
    pub fn process_event(&mut self, event: Event, now: Time, survives: bool) -> (r: Vec<Event>)
        requires
            old(self)@.wf(),
            old(self)@.routes(event),
            old(self)@.can_process(event, now),
        ensures
            final(self)@.wf(),
            (final(self)@, r@) == old(self)@.process_spec(event, now, survives),
    {
        match event.target {
            Target::Link(a) => {
                let mut link = self.links[a.0];
                let evs = link.process(event, now, survives);
                self.links.set(a.0, link);
                proof {
                    old(self)@.lemma_process_keeps_wf(event, now, survives);
                }
                evs
            },
            Target::Terminal(a) => {
                let mut terminal = self.terminals[a.0];
                let link = &self.links[terminal.link_addr.0];
                let evs = terminal.process(event, now, link);
                self.terminals.set(a.0, terminal);
                proof {
                    old(self)@.lemma_process_keeps_wf(event, now, survives);
                }
                evs
            },
        }
    }
}

impl Default for Network {
    /// A network with no terminal and no link.
    fn default() -> (r: Network)
        ensures
            r@.terminals.len() == 0,
            r@.links.len() == 0,
            r@.wf(),
    {
        Network::new()
    }
}

} // verus!
