use vstd::prelude::*;

verus! {

/// A fixed number of identical service slots, of which some are free.
pub struct ResourcePool {
    free: u32,
    total: u32,
}

impl ResourcePool {
    pub closed spec fn free_spec(&self) -> nat {
        self.free as nat
    }

    pub closed spec fn total_spec(&self) -> nat {
        self.total as nat
    }

    /// The free count never exceeds the capacity (and, being a count, is never negative).
    pub open spec fn wf(&self) -> bool {
        self.free_spec() <= self.total_spec()
    }

    /// A pool with every one of its `total` slots free.
    pub fn new(total: u32) -> (r: ResourcePool)
        ensures
            r.wf(),
            r.total_spec() == total,
            r.free_spec() == total,
    {
        ResourcePool { free: total, total }
    }

    /// Takes one slot if one is free; never waits.
    pub fn try_reserve(&mut self) -> (r: bool)
        requires
            old(self).wf(),
        ensures
            final(self).wf(),
            final(self).total_spec() == old(self).total_spec(),
            r == (old(self).free_spec() > 0),
            r ==> final(self).free_spec() == old(self).free_spec() - 1,
            !r ==> final(self).free_spec() == old(self).free_spec(),
    {
        if self.free > 0 {
            self.free = self.free - 1;
            true
        } else {
            false
        }
    }

    /// Gives back one slot taken by an earlier reservation.
    pub fn release(&mut self)
        requires
            old(self).wf(),
            old(self).free_spec() < old(self).total_spec(),
        ensures
            final(self).wf(),
            final(self).total_spec() == old(self).total_spec(),
            final(self).free_spec() == old(self).free_spec() + 1,
    {
        self.free = self.free + 1;
    }

    pub fn free_count(&self) -> (r: u32)
        ensures
            r == self.free_spec(),
    {
        self.free
    }

    pub fn total_capacity(&self) -> (r: u32)
        ensures
            r == self.total_spec(),
    {
        self.total
    }
}


/// What the run loop around a [`Cafe`] is to do next.
pub enum Action<V> {
    /// Start this consumer's activity on a task of its own; the task reports back
    /// with `ticket` and a summary once the activity is over.
    Dispatch { ticket: usize, consumer: V },
    /// Consumers are waiting but no slot is free: look for a completion without waiting.
    Poll,
    /// Every consumer has been admitted: wait for the next completion.
    Wait,
    /// Every consumer has been admitted and has reported: the run is over.
    Finish,
}

/// The elements of `v` in the opposite order.
fn reversed<V>(v: Vec<V>) -> (r: Vec<V>)
    ensures
        r@ == v@.reverse(),
{
    let mut v = v;
    let ghost orig = v@;
    let mut r: Vec<V> = Vec::new();
    while v.len() > 0
        invariant
            orig.len() == v@.len() + r@.len(),
            v@ == orig.take(v@.len() as int),
            r@ == orig.skip(v@.len() as int).reverse(),
        decreases v@.len(),
    {
        let ghost k = v@.len() - 1;
        let x = v.pop().unwrap();
        r.push(x);
        assert(orig.skip(k).reverse() =~= orig.skip(k + 1).reverse().push(orig[k]));
        assert(v@ =~= orig.take(k));
    }
    assert(orig.skip(0) =~= orig);
    r
}

/// The phase a run is in.
pub enum Phase {
    Admitting,
    Draining,
    Done,
}

/// Which waiting consumer is admitted next.
#[derive(Clone, Copy, Debug, PartialEq, Eq, Structural)]
pub enum AdmissionOrder {
    /// The consumer that came last goes first.
    LastFirst,
    /// Consumers go in the order they came.
    FirstFirst,
}

/// A group of consumers served by a fixed number of computers.
///
/// Each consumer is known by its ticket, its position in the list the cafe was created
/// with. The record holds, for each ticket, the summary its task reported, once it
/// has reported.
pub struct Cafe<V> {
    /// The waiting consumers; the next one to admit is at the end.
    visitors: Vec<V>,
    order: AdmissionOrder,
    computers: ResourcePool,
    record: Vec<Option<String>>,
    completed: usize,
    arrivals: Ghost<Seq<V>>,
    in_service: Ghost<Set<int>>,
}

impl<V> Cafe<V> {
    /// Consumers still waiting; the next one to admit is the last.
    pub closed spec fn waiting(&self) -> Seq<V> {
        self.visitors@
    }

    /// The consumers the cafe was created with, in their order.
    pub closed spec fn arrivals(&self) -> Seq<V> {
        self.arrivals@
    }

    pub closed spec fn order(&self) -> AdmissionOrder {
        self.order
    }

    pub closed spec fn pool(&self) -> ResourcePool {
        self.computers
    }

    /// For each ticket, the summary reported for it so far.
    pub closed spec fn summaries(&self) -> Seq<Option<String>> {
        self.record@
    }

    /// The number of consumers the cafe was created with.
    pub open spec fn consumer_count(&self) -> nat {
        self.summaries().len()
    }

    /// The number of completions handled so far.
    pub closed spec fn completed_spec(&self) -> nat {
        self.completed as nat
    }

    /// Tickets admitted whose completion has not been handled yet.
    pub closed spec fn outstanding_tickets(&self) -> Set<int> {
        self.in_service@
    }

    pub open spec fn capacity(&self) -> nat {
        self.pool().total_spec()
    }

    pub open spec fn free(&self) -> nat {
        self.pool().free_spec()
    }

    pub open spec fn outstanding(&self) -> nat {
        self.outstanding_tickets().len()
    }

    pub open spec fn is_outstanding_spec(&self, ticket: int) -> bool {
        self.outstanding_tickets().contains(ticket)
    }

    /// The ticket of the consumer at position `k` of the waiting queue.
    pub open spec fn ticket_at(&self, k: int) -> int {
        match self.order() {
            AdmissionOrder::LastFirst => k,
            AdmissionOrder::FirstFirst => self.consumer_count() - 1 - k,
        }
    }

    /// Whether the consumer with `ticket` is still waiting.
    pub open spec fn is_waiting(&self, ticket: int) -> bool {
        let n = self.consumer_count() as int;
        let w = self.waiting().len() as int;
        match self.order() {
            AdmissionOrder::LastFirst => 0 <= ticket < w,
            AdmissionOrder::FirstFirst => n - w <= ticket < n,
        }
    }

    pub open spec fn phase_spec(&self) -> Phase {
        if self.waiting().len() > 0 {
            Phase::Admitting
        } else if self.outstanding() > 0 {
            Phase::Draining
        } else {
            Phase::Done
        }
    }

    pub open spec fn wf(&self) -> bool {
        let n = self.consumer_count() as int;
        let w = self.waiting().len() as int;
        &&& self.pool().wf()
        &&& w <= n
        &&& self.arrivals().len() == n
        &&& self.outstanding_tickets().finite()
        &&& self.free() + self.outstanding() == self.capacity()
        &&& self.completed_spec() + self.outstanding() + w == n
        &&& forall|k: int|
            0 <= k < w ==> #[trigger] self.waiting()[k] == self.arrivals()[self.ticket_at(k)]
        &&& forall|t: int| #[trigger] self.outstanding_tickets().contains(t) ==> 0 <= t < n
            && !self.is_waiting(t)
        &&& forall|t: int|
            0 <= t < n ==> (#[trigger] self.summaries()[t] is None <==> (self.is_waiting(t)
                || self.outstanding_tickets().contains(t)))
    }

    /// A cafe with every consumer waiting and every computer free, that admits the
    /// consumer that came last first.
    pub fn new(visitors: Vec<V>, available_computers: u32) -> (r: Cafe<V>)
        ensures
            r.wf(),
            r.order() == AdmissionOrder::LastFirst,
            r.arrivals() == visitors@,
            r.waiting() == visitors@,
            r.consumer_count() == visitors@.len(),
            r.capacity() == available_computers,
            r.free() == available_computers,
            r.completed_spec() == 0,
            r.outstanding() == 0,
            forall|t: int| 0 <= t < visitors@.len() ==> #[trigger] r.summaries()[t] is None,
    {
        Cafe::with_order(visitors, available_computers, AdmissionOrder::LastFirst)
    }

    /// A cafe with every consumer waiting and every computer free, that admits
    /// consumers in the given order.
    pub fn with_order(visitors: Vec<V>, available_computers: u32, order: AdmissionOrder) -> (r:
        Cafe<V>)
        ensures
            r.wf(),
            r.order() == order,
            r.arrivals() == visitors@,
            order == AdmissionOrder::LastFirst ==> r.waiting() == visitors@,
            order == AdmissionOrder::FirstFirst ==> r.waiting() == visitors@.reverse(),
            r.consumer_count() == visitors@.len(),
            r.capacity() == available_computers,
            r.free() == available_computers,
            r.completed_spec() == 0,
            r.outstanding() == 0,
            forall|t: int| 0 <= t < visitors@.len() ==> #[trigger] r.summaries()[t] is None,
    {
        let n = visitors.len();
        let ghost arrivals = visitors@;
        let mut record: Vec<Option<String>> = Vec::new();
        let mut i: usize = 0;
        while i < n
            invariant
                i <= n,
                record@.len() == i,
                forall|t: int| 0 <= t < i ==> #[trigger] record@[t] is None,
            decreases n - i,
        {
            record.push(None);
            i = i + 1;
        }
        let queue = match order {
            AdmissionOrder::LastFirst => visitors,
            AdmissionOrder::FirstFirst => reversed(visitors),
        };
        Cafe {
            visitors: queue,
            order,
            computers: ResourcePool::new(available_computers),
            record,
            completed: 0,
            arrivals: Ghost(arrivals),
            in_service: Ghost(Set::empty()),
        }
    }

    /// Admits the consumer at the end of the queue onto a free computer.
    fn allocate_computer(&mut self) -> (r: (usize, V))
        requires
            old(self).wf(),
            old(self).waiting().len() > 0,
            old(self).free() > 0,
        ensures
            final(self).wf(),
            r.0 == old(self).ticket_at(old(self).waiting().len() - 1),
            r.1 == old(self).waiting().last(),
            final(self).waiting() == old(self).waiting().drop_last(),
            final(self).arrivals() == old(self).arrivals(),
            final(self).order() == old(self).order(),
            final(self).summaries() == old(self).summaries(),
            final(self).capacity() == old(self).capacity(),
            final(self).free() == old(self).free() - 1,
            final(self).completed_spec() == old(self).completed_spec(),
            final(self).outstanding_tickets() == old(self).outstanding_tickets().insert(r.0 as int),
    {
        let ghost pre = *self;
        let reserved = self.computers.try_reserve();
        proof {
            assert(reserved);
        }
        let consumer = self.visitors.pop().unwrap();
        let ticket = match self.order {
            AdmissionOrder::LastFirst => self.visitors.len(),
            AdmissionOrder::FirstFirst => self.record.len() - 1 - self.visitors.len(),
        };
        proof {
            assert(pre.is_waiting(ticket as int));
            assert(!pre.outstanding_tickets().contains(ticket as int));
            self.in_service@ = self.in_service@.insert(ticket as int);
        }
        (ticket, consumer)
    }

    /// Decides the next step of the run: admit the next waiting consumer when a
    /// computer is free, else look for a completion without waiting while consumers
    /// wait, else wait for a completion while some are outstanding, else finish.
    pub fn next_action(&mut self) -> (r: Action<V>)
        requires
            old(self).wf(),
        ensures
            final(self).wf(),
            final(self).consumer_count() == old(self).consumer_count(),
            final(self).arrivals() == old(self).arrivals(),
            final(self).order() == old(self).order(),
            final(self).capacity() == old(self).capacity(),
            final(self).summaries() == old(self).summaries(),
            final(self).completed_spec() == old(self).completed_spec(),
            (r is Dispatch) <==> (old(self).waiting().len() > 0 && old(self).free() > 0),
            (r is Poll) <==> (old(self).waiting().len() > 0 && old(self).free() == 0),
            (r is Wait) <==> (old(self).waiting().len() == 0 && old(self).outstanding() > 0),
            (r is Finish) <==> (old(self).waiting().len() == 0 && old(self).outstanding() == 0),
            r is Finish ==> final(self).free() == final(self).capacity(),
            match r {
                Action::Dispatch { ticket, consumer } => {
                    &&& ticket == old(self).ticket_at(old(self).waiting().len() - 1)
                    &&& consumer == old(self).waiting().last()
                    &&& consumer == old(self).arrivals()[ticket as int]
                    &&& final(self).waiting() == old(self).waiting().drop_last()
                    &&& final(self).free() == old(self).free() - 1
                    &&& final(self).outstanding_tickets() == old(self).outstanding_tickets().insert(
                        ticket as int,
                    )
                },
                _ => *final(self) == *old(self),
            },
    {
        if self.visitors.len() > 0 {
            if self.computers.free_count() > 0 {
                let (ticket, consumer) = self.allocate_computer();
                Action::Dispatch { ticket, consumer }
            } else {
                Action::Poll
            }
        } else if self.completed < self.record.len() {
            Action::Wait
        } else {
            proof {
                vstd::set_lib::lemma_set_empty_equivalency_len(self.in_service@);
            }
            Action::Finish
        }
    }

    /// Handles the completion reported for `ticket`: records its summary and frees
    /// its computer.
    pub fn handle_msg(&mut self, ticket: usize, msg: String)
        requires
            old(self).wf(),
            old(self).is_outstanding_spec(ticket as int),
        ensures
            final(self).wf(),
            final(self).waiting() == old(self).waiting(),
            final(self).arrivals() == old(self).arrivals(),
            final(self).order() == old(self).order(),
            final(self).summaries() == old(self).summaries().update(ticket as int, Some(msg)),
            final(self).capacity() == old(self).capacity(),
            final(self).free() == old(self).free() + 1,
            final(self).free() <= final(self).capacity(),
            final(self).completed_spec() == old(self).completed_spec() + 1,
            final(self).outstanding_tickets() == old(self).outstanding_tickets().remove(
                ticket as int,
            ),
    {
        let consumers = self.record.len();
        proof {
            assert(self.in_service@.remove(ticket as int).len() + 1 == self.in_service@.len());
            assert(self.completed < consumers);
        }
        self.computers.release();
        self.record.set(ticket, Some(msg));
        self.completed = self.completed + 1;
        proof {
            self.in_service@ = self.in_service@.remove(ticket as int);
        }
    }

    /// Whether `ticket` was admitted and its completion has not been handled yet.
    pub fn is_outstanding(&self, ticket: usize) -> (r: bool)
        requires
            self.wf(),
        ensures
            r == self.is_outstanding_spec(ticket as int),
    {
        if ticket >= self.record.len() {
            return false;
        }
        let waiting = match self.order {
            AdmissionOrder::LastFirst => ticket < self.visitors.len(),
            AdmissionOrder::FirstFirst => ticket >= self.record.len() - self.visitors.len(),
        };
        !waiting && self.record[ticket].is_none()
    }

    pub fn phase(&self) -> (r: Phase)
        requires
            self.wf(),
        ensures
            r == self.phase_spec(),
    {
        if self.visitors.len() > 0 {
            Phase::Admitting
        } else if self.completed < self.record.len() {
            Phase::Draining
        } else {
            Phase::Done
        }
    }

    pub fn waiting_count(&self) -> (r: usize)
        ensures
            r == self.waiting().len(),
    {
        self.visitors.len()
    }

    pub fn outstanding_count(&self) -> (r: u32)
        requires
            self.wf(),
        ensures
            r == self.outstanding(),
    {
        self.computers.total_capacity() - self.computers.free_count()
    }

    pub fn completed_count(&self) -> (r: usize)
        ensures
            r == self.completed_spec(),
    {
        self.completed
    }

    pub fn computers(&self) -> (r: &ResourcePool)
        ensures
            *r == self.pool(),
    {
        &self.computers
    }

    /// For each ticket, the summary reported for it so far.
    pub fn record(&self) -> (r: &Vec<Option<String>>)
        ensures
            r@ == self.summaries(),
    {
        &self.record
    }
}


/// At every point of a run the free count lies between zero and the capacity, and
/// no more consumers are outstanding than there are computers.
pub proof fn lemma_pool_within_bounds<V>(c: &Cafe<V>)
    requires
        c.wf(),
    ensures
        0 <= c.free() <= c.capacity(),
        c.outstanding() <= c.capacity(),
        c.free() + c.outstanding() == c.capacity(),
{
}

/// With at least as many computers as consumers, a free computer is there for every
/// waiting consumer at every point of a run, so admission never waits for one.
pub proof fn lemma_enough_computers_never_wait<V>(c: &Cafe<V>)
    requires
        c.wf(),
        c.capacity() >= c.consumer_count(),
    ensures
        c.free() >= c.waiting().len(),
        c.waiting().len() > 0 ==> c.free() > 0,
{
}

/// When a run is over, every computer is free again and one summary has been handled
/// for each consumer the cafe was created with.
pub proof fn lemma_finished_run<V>(c: &Cafe<V>)
    requires
        c.wf(),
        c.phase_spec() is Done,
    ensures
        c.free() == c.capacity(),
        c.completed_spec() == c.consumer_count(),
        forall|t: int| 0 <= t < c.consumer_count() ==> #[trigger] c.summaries()[t] is Some,
{
    vstd::set_lib::lemma_set_empty_equivalency_len(c.outstanding_tickets());
}

/// Capacity and admission order do not change what a finished run has collected:
/// where each consumer's task reports the summary `report` gives for that consumer,
/// two finished runs over the same consumers hold the same record, the report of each
/// consumer under its ticket.
pub proof fn lemma_capacity_keeps_summaries<V>(
    a: &Cafe<V>,
    b: &Cafe<V>,
    report: spec_fn(V) -> String,
)
    requires
        a.wf(),
        b.wf(),
        a.phase_spec() is Done,
        b.phase_spec() is Done,
        a.arrivals() == b.arrivals(),
        forall|t: int| #[trigger]
            a.summaries()[t] is Some ==> a.summaries()[t] == Some(report(a.arrivals()[t])),
        forall|t: int| #[trigger]
            b.summaries()[t] is Some ==> b.summaries()[t] == Some(report(b.arrivals()[t])),
    ensures
        a.summaries() == b.summaries(),
        a.summaries() == Seq::new(a.consumer_count(), |t: int| Some(report(a.arrivals()[t]))),
{
    lemma_finished_run(a);
    lemma_finished_run(b);
    let expected = Seq::new(a.consumer_count(), |t: int| Some(report(a.arrivals()[t])));
    assert(a.summaries() =~= expected);
    assert(b.summaries() =~= expected);
}

} // verus!
