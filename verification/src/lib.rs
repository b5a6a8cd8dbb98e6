//! Verified core of a consistent-hashing TCP load balancer: the hash ring that
//! picks a backend for a client, the job queue and lifecycle of the worker
//! pool, the connection-forwarding protocol and the health-probe schedule.
//!
//! Sockets and threads live with the caller; this crate decides what they do.

pub mod config;
pub mod error;
pub mod forward;
pub mod hashing;
pub mod health_checker;
pub mod message;
pub mod pool;
pub mod queue;
pub mod responder;
pub mod ring;
pub mod scheduling;
pub mod worker;

pub use message::Message;
pub use pool::ThreadPool;
