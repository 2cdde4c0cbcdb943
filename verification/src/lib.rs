//! A fixed-size worker pool core, verified.
//!
//! The `pool` module holds the coordination logic of the pool: which
//! submissions are accepted, which job a worker claims next, when a worker
//! terminates, and the accounting that shows no job is ever lost or run
//! twice. The `http` module holds the request routing and response
//! formatting that the surrounding server performs inside each job.
//!
//! Threads, channels and sockets live outside the library: an embedding
//! spawns one thread per worker, performs the blocking receive, and drives
//! this model with the events it observes.

pub mod http;
pub mod pool;
