//! A fixed-size worker pool, modeled as a verified dispatch and lifecycle
//! engine.
//!
//! The pool owns a sequence of workers and a FIFO queue of control messages.
//! Submitters enqueue jobs; workers repeatedly take the front message and
//! either run the job or, on a terminate token, exit. Shutdown enqueues one
//! terminate token per worker, lets the workers drain the queue, and then
//! joins every worker. The contracts here prove the engine's guarantees:
//! the pool keeps exactly the requested number of workers, every submitted
//! job is dispatched exactly once and in submission order, all jobs submitted
//! before shutdown are dispatched before shutdown returns, and after shutdown
//! every worker has stopped and been joined.

pub mod message;
pub mod pool;
pub mod worker;
