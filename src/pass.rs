//! Running one emission: the host calls the snapshotted handlers one by one
//! and reports how each call ended. A handler that fails is recorded and the
//! pass goes on with the next one; nothing a handler does can shorten the
//! pass.

use vstd::prelude::*;
use crate::signal::HandlerRef;
use crate::runtime::Emission;

verus! {

/// The progress of one emission pass.
pub struct EmissionPass {
    order: Vec<HandlerRef>,
    next: usize,
    failed: Vec<HandlerRef>,
}

impl EmissionPass {
    /// The handlers of the pass, in the order they run.
    pub closed spec fn order(&self) -> Seq<HandlerRef> {
        self.order@
    }

    /// How many handlers have been called so far.
    pub closed spec fn position(&self) -> nat {
        self.next as nat
    }

    /// The handlers whose call failed, in the order they ran.
    pub closed spec fn failed(&self) -> Seq<HandlerRef> {
        self.failed@
    }

    pub open spec fn wf(&self) -> bool {
        self.position() <= self.order().len()
    }

    /// Starts the pass of an object-scoped emission: the object's handlers
    /// first, then the class-level ones. `accepted` is the verdict of the
    /// checker that the emission names, if it names one; a rejected object
    /// gets an empty pass.
    pub fn start(e: Emission, accepted: bool) -> (r: EmissionPass)
        ensures
            r.wf(),
            e.check is Some && !accepted ==> r.order() == Seq::<HandlerRef>::empty(),
            e.check is None || accepted ==> r.order() == e.object_handlers@ + e.class_handlers@,
            r.position() == 0,
            r.failed() == Seq::<HandlerRef>::empty(),
    {
        let Emission { check, object_handlers, class_handlers } = e;
        if check.is_some() && !accepted {
            return EmissionPass { order: Vec::new(), next: 0, failed: Vec::new() };
        }
        let mut order = object_handlers;
        let ghost first = order@;
        let mut i: usize = 0;
        while i < class_handlers.len()
            invariant
                0 <= i <= class_handlers.len(),
                order@ == first + class_handlers@.take(i as int),
            decreases class_handlers.len() - i,
        {
            order.push(class_handlers[i]);
            assert(class_handlers@.take(i as int + 1) =~= class_handlers@.take(i as int).push(
                class_handlers@[i as int],
            ));
            assert(order@ =~= first + class_handlers@.take(i as int + 1));
            i = i + 1;
        }
        assert(class_handlers@.take(i as int) =~= class_handlers@);
        EmissionPass { order, next: 0, failed: Vec::new() }
    }

    /// Starts the pass of a class-level emission.
    pub fn start_class(handlers: Vec<HandlerRef>) -> (r: EmissionPass)
        ensures
            r.wf(),
            r.order() == handlers@,
            r.position() == 0,
            r.failed() == Seq::<HandlerRef>::empty(),
    {
        EmissionPass { order: handlers, next: 0, failed: Vec::new() }
    }

    /// The handler to call now, or none when the pass is over.
    pub fn current(&self) -> (r: Option<HandlerRef>)
        requires
            self.wf(),
        ensures
            self.position() < self.order().len() ==> r == Some(self.order()[self.position() as int]),
            self.position() == self.order().len() ==> r is None,
    {
        if self.next < self.order.len() {
            Some(self.order[self.next])
        } else {
            None
        }
    }

    /// Records how the call of the current handler ended and moves on to the
    /// next handler, whether the call succeeded or not.
    pub fn finish_call(&mut self, succeeded: bool)
        requires
            old(self).wf(),
            old(self).position() < old(self).order().len(),
        ensures
            final(self).wf(),
            final(self).order() == old(self).order(),
            final(self).position() == old(self).position() + 1,
            succeeded ==> final(self).failed() == old(self).failed(),
            !succeeded ==> final(self).failed() == old(self).failed().push(
                old(self).order()[old(self).position() as int],
            ),
    {
        let at = self.next;
        let len = self.order.len();
        if at < len {
            if !succeeded {
                self.failed.push(self.order[at]);
            }
            self.next = at + 1;
        }
    }

    /// Whether every handler of the pass has been called.
    pub fn is_done(&self) -> (r: bool)
        requires
            self.wf(),
        ensures
            r == (self.position() == self.order().len()),
    {
        self.next >= self.order.len()
    }

    /// The handlers whose call failed so far, to be reported.
    pub fn failures(&self) -> (r: Vec<HandlerRef>)
        ensures
            r@ == self.failed(),
    {
        let mut r: Vec<HandlerRef> = Vec::new();
        let mut i: usize = 0;
        while i < self.failed.len()
            invariant
                0 <= i <= self.failed.len(),
                r@ == self.failed@.take(i as int),
            decreases self.failed.len() - i,
        {
            r.push(self.failed[i]);
            assert(self.failed@.take(i as int + 1) =~= self.failed@.take(i as int).push(
                self.failed@[i as int],
            ));
            i = i + 1;
        }
        assert(self.failed@.take(i as int) =~= self.failed@);
        r
    }
}

} // verus!
