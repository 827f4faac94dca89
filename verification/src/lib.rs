//! Parallel pipelined map over iterators.
//!
//! A pipeline pulls items from an input iterator, hands them to a fixed pool
//! of workers over a rendezvous channel, and gives the results back in the
//! order of the input. Every item in flight has a response slot in a queue
//! whose length never exceeds the number of workers; the consumer always
//! collects from the front of that queue, so a slow item holds back the ones
//! behind it.
//!
//! ```
//! use plmap::ScopedPipelineMap;
//!
//! crossbeam_utils::thread::scope(|s| {
//!     // Map over an iterator in parallel with 5 worker threads.
//!     let mut pipeline = (0..100).scoped_plmap(s, 5, |x: i32| x * 2).unwrap();
//!     while let Some(result) = pipeline.next() {
//!         println!("i={:?}", result);
//!     }
//!     pipeline.shutdown();
//! })
//! .unwrap();
//! ```
//!
//! The modules: `mapper` has the capability, `channel` and `scope` the calls
//! into the crates that carry messages and run threads, `worker` a member of
//! the pool, `queue` the waiting queue, `pipeline` the engine, and
//! `scoped_pipeline` the engine together with the threads of its pool.

pub mod channel;
pub mod mapper;
pub mod pipeline;
pub mod queue;
pub mod scope;
pub mod scoped_pipeline;
pub mod worker;

pub use mapper::{computes, duplicable, may_give, Mapper};
pub use pipeline::{deliver, measure_down, refill_count, room, Pipeline, PipelineMap};
pub use queue::WorkerLost;
pub use scoped_pipeline::{tally, ScopedPipeline, ScopedPipelineMap};
pub use worker::{serve, Worker};
