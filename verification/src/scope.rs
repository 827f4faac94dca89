//! The threads of a pool that is bound to a scope.

use crate::mapper::Mapper;
use crate::worker::Worker;
use crossbeam_utils::thread::{Scope, ScopedJoinHandle};
use vstd::prelude::*;

verus! {

/// `crossbeam_utils::thread::Scope`, a scope that joins the threads started
/// on it before it ends.
#[verifier::external_type_specification]
#[verifier::external_body]
pub struct ExScope<'env>(Scope<'env>);

/// `crossbeam_utils::thread::ScopedJoinHandle`, the handle by which a thread
/// of a scope is joined.
#[verifier::external_type_specification]
#[verifier::external_body]
#[verifier::reject_recursive_types(T)]
pub struct ExScopedJoinHandle<'scope, T>(ScopedJoinHandle<'scope, T>);

/// Calls `Scope::builder` and `ScopedThreadBuilder::spawn`, which starts a
/// thread that the scope joins at its end at the latest, and gives the handle
/// to join it earlier. The thread runs the worker's loop. Where the operating
/// system refuses the thread, the answer is `None` and the worker is dropped.
/// Which of the two happens is for the operating system to say, so nothing
/// is claimed of the answer.
#[verifier::external_body]
pub(crate) fn start<'scope, 'env, In, M>(
    scope: &'scope Scope<'env>,
    worker: Worker<In, M>,
) -> (handle: Option<ScopedJoinHandle<'scope, ()>>) where
    In: Send + 'env,
    M: Mapper<In> + Send + 'env,
    M::Out: Send + 'env,
 {
    scope.builder().spawn(move |_| worker.run()).ok()
}

/// Calls `ScopedJoinHandle::join`, which waits until the thread has ended,
/// and says whether it ended by returning rather than by a fault. The handle
/// must not be that of the calling thread; the library joins from the thread
/// that owns the pipeline, which is none of the pool's. Nothing is claimed of
/// the answer.
#[verifier::external_body]
pub(crate) fn join<'scope>(handle: ScopedJoinHandle<'scope, ()>) -> (clean: bool) {
    handle.join().is_ok()
}

} // verus!
