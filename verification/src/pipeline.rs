//! The engine: dispatch, ordering and backpressure.
//!
//! The engine owns the input, the sending end of the dispatch channel and the
//! waiting queue. It does not own the threads of the pool: `Pipeline::new`
//! hands out the workers, and whoever runs them joins them.

use crate::channel::{bounded, recv, send, share};
use crate::mapper::{computes, duplicable, may_give, Mapper};
use crate::queue::{WaitingQueue, WorkerLost};
use crate::worker::Worker;
use crossbeam_channel::{RecvError, Sender};
use vstd::prelude::*;
use vstd::std_specs::iter::IteratorSpec;

verus! {

/// What the consumer gets for what a response slot handed over: the result,
/// or the report that the worker ended without one.
pub fn deliver<Out>(got: Result<Out, RecvError>) -> (r: Result<Out, WorkerLost>)
    ensures
        match got {
            Ok(out) => r == Ok::<Out, WorkerLost>(out),
            Err(_) => r == Err::<Out, WorkerLost>(WorkerLost),
        },
{
    match got {
        Ok(out) => Ok(out),
        Err(_) => Err(WorkerLost),
    }
}

/// The room that one request has for new items: one without a pool, else
/// what the waiting queue lacks to be full.
pub open spec fn room(workers: nat, in_flight: nat) -> nat {
    if workers == 0 {
        1
    } else {
        (workers - in_flight) as nat
    }
}

/// How many items one request takes from an input that still has `left`:
/// what it has room for, or all that is left where that is less.
pub open spec fn refill_count(workers: nat, in_flight: nat, left: nat) -> nat {
    if left < room(workers, in_flight) {
        left
    } else {
        room(workers, in_flight)
    }
}

/// The measure by which the input `before` says that it ends has gone down
/// on the way to `after`.
pub open spec fn measure_down<I: Iterator>(before: I, after: I) -> bool {
    decreases_to!(before.decrease()->0 => after.decrease()->0)
}

/// An ordered pipeline over the input `I` with the capability `M`. Its pool
/// has a fixed number of workers; with none it applies the capability itself.
#[verifier::reject_recursive_types(I)]
#[verifier::reject_recursive_types(M)]
pub struct Pipeline<I, M> where I: Iterator, M: Mapper<I::Item> {
    mapper: M,
    input: I,
    queue: WaitingQueue<I::Item, M::Out>,
    dispatch: Option<Sender<(I::Item, Sender<M::Out>)>>,
    workers: usize,
}

impl<I, M> Pipeline<I, M> where I: Iterator, M: Mapper<I::Item> {
    /// What holds of every pipeline that `new` has made, whatever has been
    /// called on it since.
    pub closed spec fn wf(&self) -> bool {
        &&& self.queue.wf()
        &&& self.queue.bound() == self.workers
        &&& self.dispatch is Some <==> self.queue.open()
        &&& self.mapper.ready()
        &&& self.workers == 0 ==> self.queue.abandoned() == 0
        &&& self.workers == 0 ==> forall|k: int|
            0 <= k < self.queue.given().len() ==> (#[trigger] self.queue.given()[k] matches Ok(out)
                && may_give::<I::Item, M>(self.queue.taken()[k], out))
    }

    /// The size of the pool, which is the bound of the waiting queue.
    pub closed spec fn workers(&self) -> nat {
        self.workers as nat
    }

    /// The inputs taken so far, in order.
    pub closed spec fn pulled(&self) -> Seq<I::Item> {
        self.queue.taken()
    }

    /// The results given to the consumer so far, in order.
    pub closed spec fn outputs(&self) -> Seq<Result<M::Out, WorkerLost>> {
        self.queue.given()
    }

    /// The number of items dispatched and not yet collected.
    pub closed spec fn in_flight(&self) -> nat {
        self.queue.len()
    }

    /// Whether the pipeline has been closed.
    pub closed spec fn is_closed(&self) -> bool {
        !self.queue.open()
    }

    /// Whether the pipeline still holds the sending end of the dispatch
    /// channel. Once it has given the end up, every worker's next receive
    /// finds the channel closed.
    pub closed spec fn dispatching(&self) -> bool {
        self.dispatch is Some
    }

    /// The state of the pipeline's own instance of the capability.
    pub closed spec fn capability(&self) -> M {
        self.mapper
    }

    /// The input, as far as it has not been taken.
    pub closed spec fn input(&self) -> I {
        self.input
    }

    /// What one request does to a pipeline, whatever the input and the pool
    /// do: `r` is what the request gives and `after` the pipeline that it
    /// leaves.
    pub open spec fn requested(self, r: Option<Result<M::Out, WorkerLost>>, after: Self) -> bool {
        &&& after.workers() == self.workers()
        &&& after.is_closed() == self.is_closed()
        &&& after.dispatching() == self.dispatching()
        &&& self.pulled().is_prefix_of(after.pulled())
        &&& match r {
            Some(x) => after.outputs() == self.outputs().push(x),
            None => after.outputs() == self.outputs(),
        }
        &&& self.is_closed() ==> {
            &&& r is None
            &&& after.pulled() == self.pulled()
            &&& after.input() == self.input()
            &&& after.capability() == self.capability()
        }
        &&& !self.is_closed() ==> {
            &&& r is None <==> after.pulled().len() == self.outputs().len()
            &&& after.in_flight() == after.pulled().len() - after.outputs().len()
            &&& after.in_flight() <= after.workers()
            &&& after.pulled().len() - self.pulled().len() <= room(self.workers(), self.in_flight())
            &&& room(self.workers(), self.in_flight()) == 0 ==> after.input() == self.input()
        }
        &&& !self.is_closed() && self.workers() == 0 ==> match r {
            Some(x) => {
                &&& after.pulled().len() == self.pulled().len() + 1
                &&& x matches Ok(out) && self.capability().yields(
                    after.pulled().last(),
                    out,
                    &after.capability(),
                )
            },
            None => {
                &&& after.pulled() == self.pulled()
                &&& after.capability() == self.capability()
            },
        }
        &&& !self.is_closed() && self.workers() > 0 ==> after.capability() == self.capability()
    }

    /// Gives the next result, in the order of the input, or `None` when
    /// every input has been answered.
    ///
    /// With a pool, the request first refills the waiting queue from the
    /// input and then waits for the oldest item in flight; what comes back
    /// for it is whatever its slot handed over, a result or the report that
    /// its worker was lost. Without a pool, the request takes one input
    /// and applies the capability to it. A closed pipeline gives `None`.
    ///
    /// Of an input that keeps the laws of iterators more is known: which
    /// items the request takes, and that `None` comes only when none is left.
    pub fn next(&mut self) -> (r: Option<Result<M::Out, WorkerLost>>)
        requires
            old(self).wf(),
        ensures
            final(self).wf(),
            old(self).requested(r, *final(self)),
            !old(self).is_closed() && old(self).input().obeys_prophetic_iter_laws() ==> {
                let left = old(self).input().remaining();
                let k = refill_count(old(self).workers(), old(self).in_flight(), left.len());
                let after = final(self).input();
                &&& after.obeys_prophetic_iter_laws()
                &&& final(self).pulled() == old(self).pulled() + left.subrange(0, k as int)
                &&& after.remaining() == left.subrange(k as int, left.len() as int)
                &&& r is None ==> left.len() == 0
                &&& after.decrease() is Some <==> old(self).input().decrease() is Some
                &&& 0 < k == room(old(self).workers(), old(self).in_flight())
                    && after.decrease() is Some ==> measure_down(old(self).input(), after)
            },
    {
        proof {
            self.queue.lemma_wf();
        }
        if !self.queue.is_open() {
            return None;
        }
        if self.workers == 0 {
            match self.input.next() {
                Some(input) => {
                    let out = self.mapper.apply(input);
                    self.queue.pass(Ghost(input), Ghost(Ok(out)));
                    proof {
                        self.queue.lemma_wf();
                    }
                    Some(Ok(out))
                },
                None => None,
            }
        } else {
            self.refill();
            self.collect()
        }
    }

    /// Requests until the pipeline gives `None`, and gives all that came, in
    /// order: for an open pipeline one result for every input in flight and
    /// every input left. Without a pool, the results of a pure capability
    /// are its function mapped over the input.
    ///
    /// The input must keep the laws of iterators and have a measure by which
    /// it ends.
    pub fn drain(&mut self) -> (all: Vec<Result<M::Out, WorkerLost>>)
        requires
            old(self).wf(),
            old(self).input().obeys_prophetic_iter_laws(),
            old(self).input().decrease() is Some,
        ensures
            final(self).wf(),
            final(self).workers() == old(self).workers(),
            final(self).is_closed() == old(self).is_closed(),
            final(self).dispatching() == old(self).dispatching(),
            final(self).input().obeys_prophetic_iter_laws(),
            final(self).input().decrease() is Some,
            final(self).outputs() == old(self).outputs() + all@,
            final(self).in_flight() == 0,
            old(self).workers() > 0 ==> final(self).capability() == old(self).capability(),
            old(self).is_closed() ==> {
                &&& all@.len() == 0
                &&& final(self).pulled() == old(self).pulled()
            },
            !old(self).is_closed() ==> {
                &&& all@.len() == old(self).in_flight() + old(self).input().remaining().len()
                &&& final(self).pulled() == old(self).pulled() + old(self).input().remaining()
                &&& final(self).outputs().len() == final(self).pulled().len()
                &&& final(self).input().remaining().len() == 0
            },
            !old(self).is_closed() && old(self).workers() == 0 ==> forall|
                f: spec_fn(I::Item) -> M::Out,
            | #[trigger]
                computes::<I::Item, M>(f) ==> all@ == old(self).input().remaining().map_values(
                    |v: I::Item| Ok::<M::Out, WorkerLost>(f(v)),
                ),
    {
        let mut all: Vec<Result<M::Out, WorkerLost>> = Vec::new();
        let ghost left = self.input.remaining();
        let ghost ended = false;
        proof {
            self.queue.lemma_wf();
        }
        loop
            invariant
                self.wf(),
                self.input.obeys_prophetic_iter_laws(),
                self.input.decrease() is Some,
                self.workers() == old(self).workers(),
                self.is_closed() == old(self).is_closed(),
                self.dispatching() == old(self).dispatching(),
                self.outputs() == old(self).outputs() + all@,
                left == old(self).input().remaining(),
                self.workers() > 0 ==> self.capability() == old(self).capability(),
                self.is_closed() ==> self.pulled() == old(self).pulled() && all@.len() == 0,
                !self.is_closed() ==> self.pulled() + self.input.remaining() == old(self).pulled()
                    + left,
                ended ==> self.input.remaining().len() == 0,
            ensures
                self.in_flight() == 0,
                !self.is_closed() ==> self.outputs().len() == self.pulled().len()
                    && self.input.remaining().len() == 0,
            decreases
                    (if ended {
                        0nat
                    } else {
                        1nat
                    }),
                    (if ended {
                        0nat
                    } else {
                        self.input.decrease()->0
                    }),
                    self.in_flight(),
        {
            let ghost prev = *self;
            proof {
                self.queue.lemma_wf();
            }
            match self.next() {
                Some(x) => {
                    all.push(x);
                    proof {
                        self.queue.lemma_wf();
                        if self.pulled().len() - prev.pulled().len() < room(
                            prev.workers(),
                            prev.in_flight(),
                        ) {
                            ended = true;
                        }
                    }
                },
                None => {
                    proof {
                        self.queue.lemma_wf();
                    }
                    break ;
                },
            }
        }
        proof {
            self.queue.lemma_wf();
            old(self).queue.lemma_wf();
            if !self.is_closed() && self.workers() == 0 {
                assert forall|f: spec_fn(I::Item) -> M::Out| #[trigger]
                    computes::<I::Item, M>(f) implies all@ == left.map_values(
                    |v: I::Item| Ok::<M::Out, WorkerLost>(f(v)),
                ) by {
                    old(self).lemma_sequential_map(f);
                    self.lemma_sequential_map(f);
                    let mapped = left.map_values(|v: I::Item| Ok::<M::Out, WorkerLost>(f(v)));
                    assert forall|k: int| 0 <= k < all@.len() implies all@[k] == mapped[k] by {
                        assert(self.outputs()[old(self).outputs().len() + k] == all@[k]);
                    }
                }
            }
        }
        all
    }

    /// Closes the pipeline: the sending end of the dispatch channel is given
    /// up, so that every worker's next receive fails and the worker ends, and
    /// the results of the items in flight are given up. A second call changes
    /// nothing.
    pub fn close(&mut self)
        requires
            old(self).wf(),
        ensures
            final(self).wf(),
            final(self).is_closed(),
            !final(self).dispatching(),
            final(self).in_flight() == 0,
            final(self).workers() == old(self).workers(),
            final(self).pulled() == old(self).pulled(),
            final(self).outputs() == old(self).outputs(),
            final(self).capability() == old(self).capability(),
            final(self).input() == old(self).input(),
    {
        proof {
            self.queue.lemma_wf();
        }
        if self.queue.is_open() {
            self.dispatch = None;
            self.queue.abandon();
        }
    }

    /// The size of the pool.
    pub fn worker_count(&self) -> (n: usize)
        ensures
            n == self.workers(),
    {
        self.workers
    }

    /// The number of items dispatched and not yet collected.
    pub fn pending(&self) -> (n: usize)
        requires
            self.wf(),
        ensures
            n == self.in_flight(),
            n <= self.workers(),
    {
        proof {
            self.queue.lemma_wf();
        }
        self.queue.count()
    }

    /// Whether the pipeline has been closed.
    pub fn closed(&self) -> (b: bool)
        ensures
            b == self.is_closed(),
    {
        !self.queue.is_open()
    }

    /// Takes items from the input and dispatches them until the waiting
    /// queue is full or the input has no more. An item that no worker takes
    /// over keeps its slot, which then reports the loss in its turn.
    fn refill(&mut self)
        requires
            old(self).wf(),
            old(self).workers() > 0,
            !old(self).is_closed(),
        ensures
            final(self).wf(),
            final(self).workers() == old(self).workers(),
            !final(self).is_closed(),
            final(self).capability() == old(self).capability(),
            final(self).outputs() == old(self).outputs(),
            old(self).pulled().is_prefix_of(final(self).pulled()),
            final(self).in_flight() - old(self).in_flight() == final(self).pulled().len()
                - old(self).pulled().len(),
            final(self).in_flight() <= final(self).workers(),
            room(old(self).workers(), old(self).in_flight()) == 0 ==> final(self).input()
                == old(self).input(),
            old(self).input().obeys_prophetic_iter_laws() ==> {
                let left = old(self).input().remaining();
                let k = refill_count(old(self).workers(), old(self).in_flight(), left.len());
                let after = final(self).input();
                &&& after.obeys_prophetic_iter_laws()
                &&& final(self).pulled() == old(self).pulled() + left.subrange(0, k as int)
                &&& after.remaining() == left.subrange(k as int, left.len() as int)
                &&& after.decrease() is Some <==> old(self).input().decrease() is Some
                &&& 0 < k == room(old(self).workers(), old(self).in_flight())
                    && after.decrease() is Some ==> measure_down(old(self).input(), after)
            },
    {
        proof {
            self.queue.lemma_wf();
        }
        let ghost lawful = self.input.obeys_prophetic_iter_laws();
        let ghost left = self.input.remaining();
        let ghost before = self.queue.taken();
        let ghost start = self.queue.len();
        let ghost taken: int = 0;
        loop
            invariant_except_break
                taken == 0 ==> self.input == old(self).input,
                lawful && taken > 0 && self.input.decrease() is Some ==> measure_down(
                    old(self).input,
                    self.input,
                ),
            invariant
                self.wf(),
                self.workers > 0,
                self.queue.open(),
                self.dispatch == old(self).dispatch,
                self.workers == old(self).workers,
                self.mapper == old(self).mapper,
                self.queue.given() == old(self).queue.given(),
                self.queue.len() == start + taken,
                0 <= taken,
                start == old(self).queue.len(),
                before == old(self).queue.taken(),
                lawful == old(self).input.obeys_prophetic_iter_laws(),
                left == old(self).input.remaining(),
                before.is_prefix_of(self.queue.taken()),
                self.queue.taken().len() == before.len() + taken,
                lawful ==> {
                    &&& self.input.obeys_prophetic_iter_laws()
                    &&& taken <= left.len()
                    &&& self.queue.taken() == before + left.subrange(0, taken)
                    &&& self.input.remaining() == left.subrange(taken, left.len() as int)
                    &&& self.input.decrease() is Some <==> old(self).input.decrease() is Some
                },
            ensures
                lawful ==> taken == refill_count(old(self).workers as nat, start, left.len()),
                start == self.workers ==> self.input == old(self).input,
                lawful && self.queue.len() == self.workers && taken > 0 && self.input.decrease()
                    is Some ==> measure_down(old(self).input, self.input),
            decreases self.workers - self.queue.len(),
        {
            proof {
                self.queue.lemma_wf();
            }
            if !self.queue.has_room() {
                break ;
            }
            match self.input.next() {
                Some(input) => {
                    let (respond, slot) = bounded(1);
                    self.queue.enqueue(Ghost(input), slot);
                    proof {
                        if lawful {
                            assert(left.subrange(taken, left.len() as int).drop_first()
                                =~= left.subrange(taken + 1, left.len() as int));
                        }
                        taken = taken + 1;
                    }
                    match &self.dispatch {
                        Some(to) => {
                            let _ = send(to, (input, respond));
                        },
                        None => {},
                    }
                },
                None => {
                    break ;
                },
            }
        }
        proof {
            self.queue.lemma_wf();
        }
    }

    /// Waits for the oldest item in flight and gives what its slot handed
    /// over; `None` where nothing is in flight.
    fn collect(&mut self) -> (r: Option<Result<M::Out, WorkerLost>>)
        requires
            old(self).wf(),
            old(self).workers() > 0,
            !old(self).is_closed(),
        ensures
            final(self).wf(),
            final(self).workers() == old(self).workers(),
            !final(self).is_closed(),
            final(self).capability() == old(self).capability(),
            final(self).input() == old(self).input(),
            final(self).pulled() == old(self).pulled(),
            r is None <==> old(self).in_flight() == 0,
            match r {
                Some(x) => {
                    &&& final(self).outputs() == old(self).outputs().push(x)
                    &&& final(self).in_flight() == old(self).in_flight() - 1
                },
                None => {
                    &&& final(self).outputs() == old(self).outputs()
                    &&& final(self).in_flight() == 0
                },
            },
    {
        proof {
            self.queue.lemma_wf();
        }
        if self.queue.is_empty() {
            None
        } else {
            let r = deliver(recv(self.queue.front()));
            self.queue.settle(Ghost(r));
            Some(r)
        }
    }

    /// A pipeline holds the sending end of the dispatch channel exactly as
    /// long as it is open.
    pub proof fn lemma_dispatching(self)
        requires
            self.wf(),
        ensures
            self.dispatching() <==> !self.is_closed(),
    {
    }

    /// Bounded concurrency: the items in flight never outnumber the workers.
    /// Once the pipeline is closed, nothing is in flight.
    pub proof fn lemma_bounded(self)
        requires
            self.wf(),
        ensures
            self.in_flight() <= self.workers(),
            self.is_closed() ==> self.in_flight() == 0,
    {
        self.queue.lemma_wf();
    }

    /// Count: as long as the pipeline is open, every input taken has been
    /// answered or is in flight, and nothing else has been answered. Without
    /// a pool every input taken has been answered. Once the pipeline is
    /// closed, no more has been answered than was taken.
    pub proof fn lemma_count(self)
        requires
            self.wf(),
        ensures
            !self.is_closed() ==> self.pulled().len() == self.outputs().len() + self.in_flight(),
            self.workers() == 0 ==> self.pulled().len() == self.outputs().len(),
            self.outputs().len() <= self.pulled().len(),
    {
        self.queue.lemma_wf();
    }

    /// Without a pool, every result is a value, and one that the capability
    /// may give for the input in the same place.
    pub proof fn lemma_sequential_results(self, k: int)
        requires
            self.wf(),
            self.workers() == 0,
            0 <= k < self.outputs().len(),
        ensures
            self.outputs()[k] matches Ok(out) && may_give::<I::Item, M>(self.pulled()[k], out),
    {
    }

    /// Without a pool, the results of a pure capability are its function
    /// mapped over the inputs taken, in the same order.
    pub proof fn lemma_sequential_map(self, f: spec_fn(I::Item) -> M::Out)
        requires
            self.wf(),
            self.workers() == 0,
            computes::<I::Item, M>(f),
        ensures
            self.outputs() == self.pulled().map_values(
                |v: I::Item| Ok::<M::Out, WorkerLost>(f(v)),
            ),
    {
        self.queue.lemma_wf();
        let mapped = self.pulled().map_values(|v: I::Item| Ok::<M::Out, WorkerLost>(f(v)));
        assert forall|k: int| 0 <= k < self.outputs().len() implies self.outputs()[k]
            == mapped[k] by {
            self.lemma_sequential_results(k);
        }
    }

    /// Without a pool, two pipelines with the same pure capability that have
    /// taken the same inputs have given the same results.
    pub proof fn lemma_sequential_deterministic(self, other: Self, f: spec_fn(I::Item) -> M::Out)
        requires
            self.wf(),
            other.wf(),
            self.workers() == 0,
            other.workers() == 0,
            computes::<I::Item, M>(f),
            self.pulled() == other.pulled(),
        ensures
            self.outputs() == other.outputs(),
    {
        self.lemma_sequential_map(f);
        other.lemma_sequential_map(f);
    }
}

impl<I, M> Pipeline<I, M> where I: Iterator, M: Mapper<I::Item> + Clone {
    /// Makes a pipeline with a pool of `n_workers` workers, and the workers
    /// themselves, each with its own duplicate of the capability. The
    /// workers are not running yet: each is to be given a thread that calls
    /// its `run`. A request waits as long as none of them runs; where they
    /// are dropped instead, every item is answered by `Err(WorkerLost)`. With
    /// `n_workers == 0` there is none, and the pipeline applies the
    /// capability itself.
    ///
    /// The capability must be ready to be applied, and with a pool its
    /// duplicates must be so too.
    pub fn new(n_workers: usize, mapper: M, input: I) -> (made: (
        Pipeline<I, M>,
        Vec<Worker<I::Item, M>>,
    ))
        requires
            mapper.ready(),
            n_workers > 0 ==> duplicable::<I::Item, M>(),
        ensures
            made.0.wf(),
            made.0.workers() == n_workers,
            !made.0.is_closed(),
            made.0.dispatching(),
            made.0.in_flight() == 0,
            made.0.pulled() == Seq::<I::Item>::empty(),
            made.0.outputs() == Seq::<Result<M::Out, WorkerLost>>::empty(),
            made.0.capability() == mapper,
            made.0.input() == input,
            made.1@.len() == n_workers,
            forall|i: int|
                0 <= i < n_workers ==> cloned::<M>(mapper, (#[trigger] made.1@[i]).capability()),
    {
        let (dispatch, jobs) = bounded(0);
        let mut seats: Vec<Worker<I::Item, M>> = Vec::new();
        let mut i: usize = 0;
        while i < n_workers
            invariant
                i <= n_workers,
                seats@.len() == i,
                mapper.ready(),
                n_workers > 0 ==> duplicable::<I::Item, M>(),
                forall|j: int|
                    0 <= j < i ==> cloned::<M>(mapper, (#[trigger] seats@[j]).capability()),
            decreases n_workers - i,
        {
            let duplicate = mapper.clone();
            assert(cloned::<M>(mapper, duplicate));
            seats.push(Worker::new(duplicate, share(&jobs)));
            i = i + 1;
        }
        let pipeline = Pipeline {
            mapper,
            input,
            queue: WaitingQueue::new(n_workers),
            dispatch: Some(dispatch),
            workers: n_workers,
        };
        (pipeline, seats)
    }
}

/// PipelineMap can be imported to add the plmap function to iterators.
pub trait PipelineMap<I, M> where I: Iterator, M: Mapper<I::Item> + Clone {
    /// The iterator that `plmap` hands to the pipeline: the receiver itself.
    spec fn as_input(self) -> I;

    /// Makes a pipeline over this iterator with a pool of `n_workers`
    /// workers, and the workers themselves: `Pipeline::new`.
    fn plmap(self, n_workers: usize, m: M) -> (made: (Pipeline<I, M>, Vec<Worker<I::Item, M>>))
        requires
            m.ready(),
            n_workers > 0 ==> duplicable::<I::Item, M>(),
        ensures
            made.0.wf(),
            made.0.workers() == n_workers,
            !made.0.is_closed(),
            made.0.dispatching(),
            made.0.in_flight() == 0,
            made.0.pulled() == Seq::<I::Item>::empty(),
            made.0.outputs() == Seq::<Result<M::Out, WorkerLost>>::empty(),
            made.0.capability() == m,
            made.0.input() == self.as_input(),
            made.1@.len() == n_workers,
            forall|i: int|
                0 <= i < n_workers ==> cloned::<M>(m, (#[trigger] made.1@[i]).capability()),
    ;
}

impl<I, M> PipelineMap<I, M> for I where I: Iterator, M: Mapper<I::Item> + Clone {
    open spec fn as_input(self) -> I {
        self
    }

    fn plmap(self, n_workers: usize, m: M) -> (made: (Pipeline<I, M>, Vec<Worker<I::Item, M>>)) {
        Pipeline::new(n_workers, m, self)
    }
}

} // verus!
