//! The waiting queue: the response slots of the items in flight, oldest
//! first, together with the record of what has gone in and come out.

use crossbeam_channel::Receiver;
use std::collections::VecDeque;
use vstd::prelude::*;

verus! {

/// The worker that held an item ended before it gave the result.
#[derive(Clone, Copy, Debug, PartialEq, Eq, Structural)]
pub struct WorkerLost;

/// The response slots of the items in flight, in the order of dispatch. The
/// ghost record holds every input taken so far and every result given so
/// far; the inputs between the two are those in flight or abandoned.
#[verifier::reject_recursive_types(In)]
#[verifier::reject_recursive_types(Out)]
pub(crate) struct WaitingQueue<In, Out> {
    slots: VecDeque<Receiver<Out>>,
    bound: usize,
    open: bool,
    taken: Ghost<Seq<In>>,
    given: Ghost<Seq<Result<Out, WorkerLost>>>,
    abandoned: Ghost<nat>,
}

impl<In, Out> WaitingQueue<In, Out> {
    /// The queue is within its bound, the record accounts for every input
    /// taken, and a queue that has been abandoned holds no slot.
    pub(crate) closed spec fn wf(&self) -> bool {
        &&& self.slots@.len() <= self.bound
        &&& self.taken@.len() == self.given@.len() + self.slots@.len() + self.abandoned@
        &&& self.open ==> self.abandoned@ == 0
        &&& !self.open ==> self.slots@.len() == 0
    }

    /// Whether the queue still takes slots.
    pub(crate) closed spec fn open(&self) -> bool {
        self.open
    }

    /// The most slots that the queue may hold.
    pub(crate) closed spec fn bound(&self) -> nat {
        self.bound as nat
    }

    /// The slots in the queue, oldest first.
    pub(crate) closed spec fn slots(&self) -> Seq<Receiver<Out>> {
        self.slots@
    }

    /// The number of slots in the queue.
    pub(crate) closed spec fn len(&self) -> nat {
        self.slots@.len()
    }

    /// Every input taken so far, in order.
    pub(crate) closed spec fn taken(&self) -> Seq<In> {
        self.taken@
    }

    /// Every result given so far, in order.
    pub(crate) closed spec fn given(&self) -> Seq<Result<Out, WorkerLost>> {
        self.given@
    }

    /// The number of inputs whose slots were dropped unanswered.
    pub(crate) closed spec fn abandoned(&self) -> nat {
        self.abandoned@
    }

    /// What `wf` says, for those who cannot see into it.
    pub(crate) proof fn lemma_wf(&self)
        requires
            self.wf(),
        ensures
            self.len() == self.slots().len(),
            self.len() <= self.bound(),
            self.taken().len() == self.given().len() + self.len() + self.abandoned(),
            self.open() ==> self.abandoned() == 0,
            !self.open() ==> self.len() == 0,
    {
    }

    /// An empty queue that may hold `bound` slots.
    pub(crate) fn new(bound: usize) -> (q: Self)
        ensures
            q.wf(),
            q.bound() == bound,
            q.open(),
            q.len() == 0,
            q.taken() == Seq::<In>::empty(),
            q.given() == Seq::<Result<Out, WorkerLost>>::empty(),
            q.abandoned() == 0,
    {
        WaitingQueue {
            slots: VecDeque::new(),
            bound,
            open: true,
            taken: Ghost(Seq::empty()),
            given: Ghost(Seq::empty()),
            abandoned: Ghost(0),
        }
    }

    /// Whether the queue is below its bound.
    pub(crate) fn has_room(&self) -> (room: bool)
        requires
            self.wf(),
        ensures
            room == (self.len() < self.bound()),
    {
        self.slots.len() < self.bound
    }

    /// Whether the queue still takes slots.
    pub(crate) fn is_open(&self) -> (open: bool)
        ensures
            open == self.open(),
    {
        self.open
    }

    /// The number of slots in the queue.
    pub(crate) fn count(&self) -> (n: usize)
        ensures
            n == self.len(),
    {
        self.slots.len()
    }

    /// Whether the queue holds no slot.
    pub(crate) fn is_empty(&self) -> (empty: bool)
        ensures
            empty == (self.len() == 0),
    {
        self.slots.len() == 0
    }

    /// Appends the slot of an input that has just been taken.
    pub(crate) fn enqueue(&mut self, input: Ghost<In>, slot: Receiver<Out>)
        requires
            old(self).wf(),
            old(self).open(),
            old(self).len() < old(self).bound(),
        ensures
            final(self).wf(),
            final(self).open(),
            final(self).bound() == old(self).bound(),
            final(self).slots() == old(self).slots().push(slot),
            final(self).len() == old(self).len() + 1,
            final(self).taken() == old(self).taken().push(input@),
            final(self).given() == old(self).given(),
            final(self).abandoned() == old(self).abandoned(),
    {
        self.slots.push_back(slot);
        self.taken = Ghost(self.taken@.push(input@));
    }

    /// The oldest slot.
    pub(crate) fn front(&self) -> (slot: &Receiver<Out>)
        requires
            self.len() > 0,
        ensures
            *slot == self.slots()[0],
    {
        &self.slots[0]
    }

    /// Removes the oldest slot and records what it gave.
    pub(crate) fn settle(&mut self, result: Ghost<Result<Out, WorkerLost>>)
        requires
            old(self).wf(),
            old(self).len() > 0,
        ensures
            final(self).wf(),
            final(self).open(),
            final(self).bound() == old(self).bound(),
            final(self).slots() == old(self).slots().drop_first(),
            final(self).len() == old(self).len() - 1,
            final(self).taken() == old(self).taken(),
            final(self).given() == old(self).given().push(result@),
            final(self).abandoned() == old(self).abandoned(),
    {
        let _ = self.slots.pop_front();
        self.given = Ghost(self.given@.push(result@));
    }

    /// Records an input whose result was given at once, without a slot.
    pub(crate) fn pass(&mut self, input: Ghost<In>, result: Ghost<Result<Out, WorkerLost>>)
        requires
            old(self).wf(),
            old(self).open(),
        ensures
            final(self).wf(),
            final(self).open(),
            final(self).bound() == old(self).bound(),
            final(self).slots() == old(self).slots(),
            final(self).taken() == old(self).taken().push(input@),
            final(self).given() == old(self).given().push(result@),
            final(self).abandoned() == old(self).abandoned(),
    {
        self.taken = Ghost(self.taken@.push(input@));
        self.given = Ghost(self.given@.push(result@));
    }

    /// Drops every slot: the results of the items in flight are given up,
    /// and the queue takes no more.
    pub(crate) fn abandon(&mut self)
        requires
            old(self).wf(),
        ensures
            final(self).wf(),
            !final(self).open(),
            final(self).bound() == old(self).bound(),
            final(self).len() == 0,
            final(self).taken() == old(self).taken(),
            final(self).given() == old(self).given(),
            final(self).abandoned() == old(self).abandoned() + old(self).len(),
    {
        self.abandoned = Ghost(self.abandoned@ + self.slots@.len());
        self.slots.clear();
        self.open = false;
    }
}

} // verus!
