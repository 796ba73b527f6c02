//! Predefined implementors of [`Consume`], and the listener through which a
//! consumer is told.
use crate::report::Report;
use crate::{Consume, Controller, Id, Nanos, Notice, DEFAULT_DEBOUNCE};
use vstd::prelude::*;

verus! {

/// A consumer that does not do anything.
///
/// The inner value is the debounce duration, in nanoseconds. This consumer
/// is useful for accumulating progress messages and fetching them at a later
/// time.
pub struct Noop(pub Nanos);

impl Default for Noop {
    fn default() -> (n: Self)
        ensures
            n.0 == DEFAULT_DEBOUNCE,
    {
        Noop(DEFAULT_DEBOUNCE)
    }
}

impl Consume for Noop {
    fn debounce(&self) -> (d: Nanos)
        ensures
            d == self.0,
    {
        self.0
    }

    fn rpt(&mut self, _report: &Report, _id: Id, _parent: Option<Id>, _controller: &Controller)
        ensures
            *final(self) == *old(self),
    {
    }
}

/// A consumer together with the record of what it was told.
///
/// The consumer is told through the listener and in no other way, so the
/// record holds every notice that the consumer got since the listener was
/// made, in the order in which it got them.
pub struct Listener<C: Consume> {
    consumer: C,
    told: Ghost<Seq<Notice>>,
}

impl<C: Consume> Listener<C> {
    /// What the consumer was told so far, from the first notice to the last.
    pub closed spec fn told(&self) -> Seq<Notice> {
        self.told@
    }

    /// The consumer as it is now.
    pub closed spec fn inner(&self) -> C {
        self.consumer
    }

    /// A listener for a consumer that was told nothing yet.
    pub fn new(consumer: C) -> (l: Self)
        ensures
            l.inner() == consumer,
            l.told() == Seq::<Notice>::empty(),
    {
        Listener { consumer, told: Ghost(Seq::empty()) }
    }

    /// The debounce timeout of the consumer: what its own
    /// [`Consume::debounce`] gives.
    pub fn debounce(&self) -> (d: Nanos)
        ensures
            call_ensures(C::debounce, (&self.inner(),), d),
    {
        self.consumer.debounce()
    }

    /// Tell the consumer that the live node `id` has this report and this
    /// parent, and note that it was told.
    ///
    /// The consumer comes out as its own [`Consume::rpt`], called with
    /// these arguments, leaves it.
    pub fn rpt(&mut self, report: &Report, id: Id, parent: Option<Id>, controller: &Controller)
        requires
            controller@.wf(),
            controller@.nodes.contains_key(id),
            report@ == controller@.nodes[id].report,
            parent == controller@.nodes[id].parent,
        ensures
            final(self).told() == old(self).told().push(Notice::Report(id, report@, parent)),
            exists|r: &mut C|
                mut_ref_current(r) == old(self).inner() && mut_ref_future(r) == final(self).inner()
                    && #[trigger] call_ensures(C::rpt, (r, report, id, parent, controller), ()),
    {
        self.consumer.rpt(report, id, parent, controller);
        proof {
            self.told@ = self.told@.push(Notice::Report(id, report@, parent));
        }
    }

    /// Tell the consumer that the node `id` was closed, and note that it
    /// was told.
    ///
    /// The consumer comes out as its own [`Consume::closed`], called for
    /// the node, leaves it.
    pub fn closed(&mut self, id: Id)
        ensures
            final(self).told() == old(self).told().push(Notice::Closed(id)),
            exists|r: &mut C|
                mut_ref_current(r) == old(self).inner() && mut_ref_future(r) == final(self).inner()
                    && #[trigger] call_ensures(C::closed, (r, id), ()),
    {
        self.consumer.closed(id);
        proof {
            self.told@ = self.told@.push(Notice::Closed(id));
        }
    }

    /// The consumer, to look at.
    pub fn consumer(&self) -> (c: &C)
        ensures
            *c == self.inner(),
    {
        &self.consumer
    }

    /// The consumer, given back.
    pub fn into_inner(self) -> (c: C)
        ensures
            c == self.inner(),
    {
        self.consumer
    }
}

} // verus!
