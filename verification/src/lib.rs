//! A work-dispatch broker: waiting workers are paired with submitted jobs, and
//! each job is correlated with its eventual result by an opaque request id.
//!
//! A worker asks for the next job and waits. A client submits a job: the
//! broker hands it to the worker that has waited longest and is still there,
//! under a fresh request id, and the client waits for the result. The worker
//! completes the job under that id, and the result goes to the client.
//!
//! - [`engine`] holds the broker and its operations;
//! - [`model`] is the broker as a state machine over plain values, with a
//!   record of every hand-off to a worker or a client; the contracts of the
//!   engine are stated over it, and [`laws`] holds what is proved of it;
//! - [`queue`] and [`table`] are the queue of waiting workers and the table of
//!   pending responses;
//! - [`rendezvous`] is the single-use slot on which a worker or a client
//!   waits;
//! - [`ident`], [`message`] and [`outcome`] are the request ids, the jobs and
//!   responses, and the outcomes of the operations;
//! - [`inspect`] names a long poll so that its end can be reported;
//! - [`worker`] is what a worker does to a job;
//! - [`text`] compares byte strings and text.

pub mod engine;
pub mod ident;
pub mod inspect;
pub mod laws;
pub mod message;
pub mod model;
pub mod outcome;
pub mod queue;
pub mod rendezvous;
pub mod table;
pub mod text;
pub mod worker;

pub use inspect::{inspect_drop, InspectDrop};
