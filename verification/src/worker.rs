//! One member of the pool: a duplicate of the capability and the receiving
//! end of the dispatch channel.

use crate::channel::{recv, send};
use crate::mapper::Mapper;
use crossbeam_channel::{Receiver, Sender};
use vstd::prelude::*;

verus! {

/// Applies the capability to one input and sends the result to the slot that
/// waits for it. A slot that nobody waits for any more is no fault: the
/// result is dropped.
pub fn serve<In, M: Mapper<In>>(mapper: &mut M, input: In, respond: Sender<M::Out>)
    requires
        old(mapper).ready(),
    ensures
        final(mapper).ready(),
        exists|out: M::Out| old(mapper).yields(input, out, final(mapper)),
{
    let out = mapper.apply(input);
    let _ = send(&respond, out);
}

/// A worker that has not started: it owns its duplicate of the capability,
/// which no other thread ever touches.
#[verifier::reject_recursive_types(In)]
#[verifier::reject_recursive_types(M)]
pub struct Worker<In, M: Mapper<In>> {
    mapper: M,
    jobs: Receiver<(In, Sender<M::Out>)>,
}

impl<In, M: Mapper<In>> Worker<In, M> {
    #[verifier::type_invariant]
    spec fn inv(self) -> bool {
        self.mapper.ready()
    }

    /// The state of the worker's duplicate of the capability.
    pub closed spec fn capability(&self) -> M {
        self.mapper
    }

    pub(crate) fn new(mapper: M, jobs: Receiver<(In, Sender<M::Out>)>) -> (worker: Self)
        requires
            mapper.ready(),
        ensures
            worker.capability() == mapper,
    {
        Worker { mapper, jobs }
    }

    /// The worker's loop: waits for a job, serves it, and waits again. It
    /// ends when the dispatch channel is closed. The loop's measure is the
    /// room left in a count of the jobs served; a worker whose count is full
    /// stops as if the channel had closed.
    pub fn run(self) {
        proof {
            use_type_invariant(&self);
        }
        let mut mapper = self.mapper;
        let jobs = self.jobs;
        let mut served: u64 = 0;
        while served < u64::MAX
            invariant
                mapper.ready(),
            decreases u64::MAX - served,
        {
            match recv(&jobs) {
                Ok((input, respond)) => {
                    serve(&mut mapper, input, respond);
                    served = served + 1;
                },
                Err(_) => {
                    return ;
                },
            }
        }
    }
}

} // verus!
