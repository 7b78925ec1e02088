//! A worker pool whose coordination logic is verified: a fixed set of workers
//! draws jobs from one shared queue, and teardown closes the queue, lets the
//! workers drain it and joins them in order. The crate holds the queue, the
//! worker state machine and the pool's bookkeeping; spawning threads and
//! running the jobs is left to the caller, who reports back what happened.
//!
//! Beside the pool stands what its jobs compute for one connection: reading
//! a request out of bytes and writing the response, with a byte builder, a
//! few operations on byte text and a JSON object writer underneath.

pub mod builder;
pub mod http;
pub mod json;
pub mod laws;
pub mod model;
pub mod pool;
pub mod queue;
pub mod text;
pub mod worker;
