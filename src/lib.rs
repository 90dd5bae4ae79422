//! Concurrency building blocks for a small server: a single-flight cache and
//! the job accounting of a worker pool.

pub mod cache;
mod signal;
pub mod thread_pool;
