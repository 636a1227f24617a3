//! A lightweight at-least-once message queue: named queues, delayed
//! delivery, receive with a visibility timeout, and queue statistics.
//!
//! - `queue`, `error`: the records and errors that callers see.
//! - `ident`: message identifiers, which carry the time of sending.
//! - `timing`, `plan`, `keys`: what an operation derives from one reading of
//!   the store: times, scores, the size check, the names of the store's keys.
//! - `reply`: reading what the store answers.
//! - `model`: the state of a queue and its operations as mathematics.
//! - `store`, `rsmq`: the queue in memory, specified against the model.
//! - `lemmas`, `laws`: what is proved of the model.

pub mod error;
pub mod queue;
pub mod ident;
pub mod timing;
pub mod keys;
pub mod plan;
pub mod reply;
pub mod model;
pub mod lemmas;
pub mod laws;
pub mod store;
pub mod rsmq;
