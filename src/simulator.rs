use crate::event::Event;
use rand::SeedableRng;
use rand_pcg::Mcg128Xsl64;
use vstd::prelude::*;

verus! {

#[verifier::external_type_specification]
#[verifier::external_body]
pub struct ExMcg128Xsl64(Mcg128Xsl64);

/// Relies on `SeedableRng::seed_from_u64` for `Mcg128Xsl64`: a generator whose
/// whole output is fixed by `seed`.
#[verifier::external_body]
fn rng_from_seed(seed: u64) -> Mcg128Xsl64 {
    Mcg128Xsl64::seed_from_u64(seed)
}

/// Relies on `SeedableRng::from_entropy` for `Mcg128Xsl64`: a generator seeded
/// by the operating system, which panics if the system has no entropy to give.
#[verifier::external_body]
fn rng_from_entropy() -> Mcg128Xsl64 {
    Mcg128Xsl64::from_entropy()
}

/// Whether position `i` holds the event that the queue `q` hands out next:
/// no event of `q` is scheduled before it, and every event at an earlier
/// position is scheduled after it. Events scheduled alike leave in the order
/// they came in.
pub open spec fn is_next(q: Seq<Event>, i: int) -> bool {
    &&& 0 <= i < q.len()
    &&& forall|j: int| 0 <= j < q.len() ==> !(#[trigger] q[j]).precedes(q[i])
    &&& forall|j: int| 0 <= j < i ==> q[i].precedes(#[trigger] q[j])
}

/// The ordering of the queue leaves no choice: at most one position holds the
/// next event, so the same queue always hands out the same event.
pub proof fn lemma_next_is_unique(q: Seq<Event>, i: int, j: int)
    requires
        is_next(q, i),
        is_next(q, j),
    ensures
        i == j,
{
    if i < j {
        assert(q[j].precedes(q[i]));
    } else if j < i {
        assert(q[i].precedes(q[j]));
    }
}

/// The scheduler: the pending events, and the one source of randomness of the
/// simulation.
pub struct Simulator {
    event_queue: Vec<Event>,
    pub rng: Mcg128Xsl64,
}

impl View for Simulator {
    type V = Seq<Event>;

    /// The pending events, in the order they were added.
    closed spec fn view(&self) -> Seq<Event> {
        self.event_queue@
    }
}

impl Simulator {
    /// An empty scheduler whose randomness is fixed by `seed`.
    pub fn from_seed(seed: u64) -> (r: Simulator)
        ensures
            r@ == Seq::<Event>::empty(),
    {
        Simulator { event_queue: Vec::new(), rng: rng_from_seed(seed) }
    }

    /// Schedules `events`.
    pub fn add_events(&mut self, events: &[Event])
        ensures
            final(self)@ == old(self)@ + events@,
    {
        let mut k: usize = 0;
        while k < events.len()
            invariant
                k <= events@.len(),
                self@ == old(self)@ + events@.take(k as int),
            decreases events@.len() - k,
        {
            self.event_queue.push(events[k]);
            k = k + 1;
            assert(events@.take(k as int) == events@.take(k - 1).push(events@[k - 1]));
        }
        assert(events@.take(events@.len() as int) == events@);
    }

    fn next_index(&self) -> (r: usize)
        requires
            self@.len() > 0,
        ensures
            is_next(self@, r as int),
    {
        let q = &self.event_queue;
        let mut best: usize = 0;
        let mut k: usize = 1;
        while k < q.len()
            invariant
                0 <= best < k <= q@.len(),
                q@ == self@,
                forall|j: int| 0 <= j < k ==> !(#[trigger] q@[j]).precedes(q@[best as int]),
                forall|j: int| 0 <= j < best ==> q@[best as int].precedes(#[trigger] q@[j]),
            decreases q@.len() - k,
        {
            if q[k].is_before(&q[best]) {
                best = k;
            }
            k = k + 1;
        }
        best
    }

    /// The event to be handed out next, left in place; `None` when nothing is pending.
    pub fn peek(&self) -> (r: Option<&Event>)
        ensures
            self@.len() == 0 ==> r is None,
            self@.len() > 0 ==> exists|i: int| is_next(self@, i) && r == Some(&self@[i]),
    {
        if self.event_queue.len() == 0 {
            None
        } else {
            let i = self.next_index();
            Some(&self.event_queue[i])
        }
    }

    /// Removes and returns the earliest pending event; `None` when nothing is pending.
    pub fn pop(&mut self) -> (r: Option<Event>)
        ensures
            old(self)@.len() == 0 ==> r is None && final(self)@ == old(self)@,
            old(self)@.len() > 0 ==> exists|i: int|
                is_next(old(self)@, i) && r == Some(old(self)@[i]) && final(self)@ == old(
                    self,
                )@.remove(i),
    {
        if self.event_queue.len() == 0 {
            None
        } else {
            let i = self.next_index();
            Some(self.event_queue.remove(i))
        }
    }
}

impl Default for Simulator {
    /// An empty scheduler seeded by the operating system.
    fn default() -> (r: Simulator)
        ensures
            r@ == Seq::<Event>::empty(),
    {
        Simulator { event_queue: Vec::new(), rng: rng_from_entropy() }
    }
}

} // verus!
