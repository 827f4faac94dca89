//! The pipeline whose pool is bound to a scope, so that the capability and
//! the input may borrow from the caller.

use crate::mapper::{computes, duplicable, Mapper};
use crate::pipeline::{measure_down, refill_count, room, Pipeline};
use crate::queue::WorkerLost;
use crate::scope::{join, start};
use crossbeam_utils::thread::{Scope, ScopedJoinHandle};
use vstd::prelude::*;
use vstd::std_specs::iter::IteratorSpec;

verus! {

/// The count of workers that ended by a fault, after one more join: `clean`
/// is what the join said.
pub fn tally(lost: usize, clean: bool) -> (n: usize)
    requires
        lost < usize::MAX,
    ensures
        clean ==> n == lost,
        !clean ==> n == lost + 1,
{
    if clean {
        lost
    } else {
        lost + 1
    }
}

/// A pipeline together with the threads of its pool. The threads are started
/// on a scope of the caller's, which joins them at its end at the latest;
/// `shutdown` joins them at once.
#[verifier::reject_recursive_types(I)]
#[verifier::reject_recursive_types(M)]
pub struct ScopedPipeline<'scope, 'env, I, M> where
    I: Iterator,
    I::Item: Send + 'env,
    M: Mapper<I::Item> + Clone + Send + 'env,
    M::Out: Send + 'env,
 {
    engine: Pipeline<I, M>,
    _worker_scope: &'scope Scope<'env>,
    workers: Vec<ScopedJoinHandle<'scope, ()>>,
}

impl<'scope, 'env, I, M> ScopedPipeline<'scope, 'env, I, M> where
    I: Iterator,
    I::Item: Send + 'env,
    M: Mapper<I::Item> + Clone + Send + 'env,
    M::Out: Send + 'env,
 {
    /// What holds of every scoped pipeline that `new` has made, whatever has
    /// been called on it since.
    pub closed spec fn wf(&self) -> bool {
        &&& self.engine.wf()
        &&& self.workers@.len() <= self.engine.workers()
    }

    /// The engine: what has been taken, what has been given, what is in
    /// flight.
    pub closed spec fn engine(&self) -> Pipeline<I, M> {
        self.engine
    }

    /// The number of threads that have been started and not yet joined.
    pub closed spec fn running(&self) -> nat {
        self.workers@.len()
    }

    /// The engine of a scoped pipeline is a pipeline, with all that holds of
    /// one, and no more threads run than the pool has workers.
    pub proof fn lemma_engine(self)
        requires
            self.wf(),
        ensures
            self.engine().wf(),
            self.running() <= self.engine().workers(),
    {
    }

    /// Makes a pipeline with a pool of `n_workers` workers and starts a
    /// thread on `worker_scope` for each. Where the operating system refuses
    /// one of the threads, the threads that run are ended and joined, and
    /// there is no pipeline. Without a pool no thread is asked for, and there
    /// always is one.
    ///
    /// The capability must be ready to be applied, and with a pool its
    /// duplicates must be so too.
    pub fn new(worker_scope: &'scope Scope<'env>, n_workers: usize, mapper: M, input: I) -> (made:
        Option<ScopedPipeline<'scope, 'env, I, M>>)
        requires
            mapper.ready(),
            n_workers > 0 ==> duplicable::<I::Item, M>(),
        ensures
            made matches Some(p) ==> {
                &&& p.wf()
                &&& p.running() == n_workers
                &&& p.engine().workers() == n_workers
                &&& !p.engine().is_closed()
                &&& p.engine().dispatching()
                &&& p.engine().in_flight() == 0
                &&& p.engine().pulled() == Seq::<I::Item>::empty()
                &&& p.engine().outputs() == Seq::<Result<M::Out, WorkerLost>>::empty()
                &&& p.engine().capability() == mapper
                &&& p.engine().input() == input
            },
            n_workers == 0 ==> made is Some,
    {
        let (engine, seats) = Pipeline::new(n_workers, mapper, input);
        let mut seats = seats;
        let mut workers: Vec<ScopedJoinHandle<'scope, ()>> = Vec::new();
        let mut refused = false;
        while !refused && seats.len() > 0
            invariant
                workers@.len() + seats@.len() <= n_workers,
                !refused ==> workers@.len() + seats@.len() == n_workers,
                refused ==> n_workers > 0,
            decreases seats@.len(),
        {
            match seats.pop() {
                Some(seat) => {
                    match start(worker_scope, seat) {
                        Some(handle) => {
                            workers.push(handle);
                        },
                        None => {
                            refused = true;
                        },
                    }
                },
                None => {},
            }
        }
        let mut p = ScopedPipeline { engine, _worker_scope: worker_scope, workers };
        if refused {
            let _ = p.shutdown();
            None
        } else {
            Some(p)
        }
    }

    /// Gives the next result, in the order of the input, or `None` when
    /// every input has been answered: the engine's `next`.
    pub fn next(&mut self) -> (r: Option<Result<M::Out, WorkerLost>>)
        requires
            old(self).wf(),
        ensures
            final(self).wf(),
            final(self).running() == old(self).running(),
            old(self).engine().requested(r, final(self).engine()),
            !old(self).engine().is_closed() && old(self).engine().input().obeys_prophetic_iter_laws()
                ==> {
                let before = old(self).engine();
                let left = before.input().remaining();
                let k = refill_count(before.workers(), before.in_flight(), left.len());
                let after = final(self).engine().input();
                &&& after.obeys_prophetic_iter_laws()
                &&& final(self).engine().pulled() == before.pulled() + left.subrange(0, k as int)
                &&& after.remaining() == left.subrange(k as int, left.len() as int)
                &&& r is None ==> left.len() == 0
                &&& after.decrease() is Some <==> before.input().decrease() is Some
                &&& 0 < k == room(before.workers(), before.in_flight()) && after.decrease() is Some
                    ==> measure_down(before.input(), after)
            },
    {
        self.engine.next()
    }

    /// Requests until the pipeline gives `None`, and gives all that came, in
    /// order: the engine's `drain`.
    pub fn drain(&mut self) -> (all: Vec<Result<M::Out, WorkerLost>>)
        requires
            old(self).wf(),
            old(self).engine().input().obeys_prophetic_iter_laws(),
            old(self).engine().input().decrease() is Some,
        ensures
            final(self).wf(),
            final(self).running() == old(self).running(),
            final(self).engine().workers() == old(self).engine().workers(),
            final(self).engine().is_closed() == old(self).engine().is_closed(),
            final(self).engine().dispatching() == old(self).engine().dispatching(),
            final(self).engine().input().obeys_prophetic_iter_laws(),
            final(self).engine().input().decrease() is Some,
            final(self).engine().outputs() == old(self).engine().outputs() + all@,
            final(self).engine().in_flight() == 0,
            old(self).engine().workers() > 0 ==> final(self).engine().capability()
                == old(self).engine().capability(),
            old(self).engine().is_closed() ==> {
                &&& all@.len() == 0
                &&& final(self).engine().pulled() == old(self).engine().pulled()
            },
            !old(self).engine().is_closed() ==> {
                let before = old(self).engine();
                let left = before.input().remaining();
                &&& all@.len() == before.in_flight() + left.len()
                &&& final(self).engine().pulled() == before.pulled() + left
                &&& final(self).engine().outputs().len() == final(self).engine().pulled().len()
                &&& final(self).engine().input().remaining().len() == 0
            },
            !old(self).engine().is_closed() && old(self).engine().workers() == 0 ==> forall|
                f: spec_fn(I::Item) -> M::Out,
            | #[trigger]
                computes::<I::Item, M>(f) ==> all@ == old(self).engine().input().remaining().map_values(
                    |v: I::Item| Ok::<M::Out, WorkerLost>(f(v)),
                ),
    {
        self.engine.drain()
    }

    /// Ends the pool: closes the pipeline, so that every worker's next
    /// receive fails, and joins every thread. Says how many of them had ended
    /// by a fault, counted by `tally` from what each join said. A second call
    /// finds no thread and says 0.
    pub fn shutdown(&mut self) -> (lost: usize)
        requires
            old(self).wf(),
        ensures
            final(self).wf(),
            final(self).running() == 0,
            lost <= old(self).running(),
            final(self).engine().is_closed(),
            !final(self).engine().dispatching(),
            final(self).engine().in_flight() == 0,
            final(self).engine().workers() == old(self).engine().workers(),
            final(self).engine().pulled() == old(self).engine().pulled(),
            final(self).engine().outputs() == old(self).engine().outputs(),
            final(self).engine().capability() == old(self).engine().capability(),
            final(self).engine().input() == old(self).engine().input(),
    {
        self.engine.close();
        let ghost closed = self.engine;
        let total: usize = self.workers.len();
        let mut lost: usize = 0;
        while self.workers.len() > 0
            invariant
                self.engine == closed,
                total == old(self).workers@.len(),
                lost + self.workers@.len() <= total,
            decreases self.workers@.len(),
        {
            match self.workers.pop() {
                Some(handle) => {
                    lost = tally(lost, join(handle));
                },
                None => {},
            }
        }
        lost
    }

    /// The size of the pool.
    pub fn worker_count(&self) -> (n: usize)
        ensures
            n == self.engine().workers(),
    {
        self.engine.worker_count()
    }

    /// The number of items dispatched and not yet collected.
    pub fn pending(&self) -> (n: usize)
        requires
            self.wf(),
        ensures
            n == self.engine().in_flight(),
            n <= self.engine().workers(),
    {
        self.engine.pending()
    }

    /// Whether the pipeline has been closed.
    pub fn closed(&self) -> (b: bool)
        ensures
            b == self.engine().is_closed(),
    {
        self.engine.closed()
    }

    /// The number of threads that have been started and not yet joined.
    pub fn running_count(&self) -> (n: usize)
        ensures
            n == self.running(),
    {
        self.workers.len()
    }
}

/// ScopedPipelineMap can be imported to add the scoped_plmap function to
/// iterators.
pub trait ScopedPipelineMap<'scope, 'env, I, M> where
    I: Iterator,
    I::Item: Send + 'env,
    M: Mapper<I::Item> + Clone + Send + 'env,
    M::Out: Send + 'env,
 {
    /// The iterator that `scoped_plmap` hands to the pipeline: the receiver
    /// itself.
    spec fn as_input(self) -> I;

    /// Makes a pipeline over this iterator with a pool of `n_workers`
    /// workers on `worker_scope`: `ScopedPipeline::new`.
    fn scoped_plmap(self, worker_scope: &'scope Scope<'env>, n_workers: usize, m: M) -> (made:
        Option<ScopedPipeline<'scope, 'env, I, M>>)
        requires
            m.ready(),
            n_workers > 0 ==> duplicable::<I::Item, M>(),
        ensures
            made matches Some(p) ==> {
                &&& p.wf()
                &&& p.running() == n_workers
                &&& p.engine().workers() == n_workers
                &&& !p.engine().is_closed()
                &&& p.engine().dispatching()
                &&& p.engine().in_flight() == 0
                &&& p.engine().pulled() == Seq::<I::Item>::empty()
                &&& p.engine().outputs() == Seq::<Result<M::Out, WorkerLost>>::empty()
                &&& p.engine().capability() == m
                &&& p.engine().input() == self.as_input()
            },
            n_workers == 0 ==> made is Some,
    ;
}

impl<'scope, 'env, I, M> ScopedPipelineMap<'scope, 'env, I, M> for I where
    I: Iterator,
    I::Item: Send + 'env,
    M: Mapper<I::Item> + Clone + Send + 'env,
    M::Out: Send + 'env,
 {
    open spec fn as_input(self) -> I {
        self
    }

    fn scoped_plmap(self, worker_scope: &'scope Scope<'env>, n_workers: usize, m: M) -> (made:
        Option<ScopedPipeline<'scope, 'env, I, M>>) {
        ScopedPipeline::new(worker_scope, n_workers, m, self)
    }
}

} // verus!
