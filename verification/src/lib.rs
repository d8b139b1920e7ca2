//! Multi-producer, multi-consumer channels: the verified core of their
//! buffers, state machines and bookkeeping.
pub mod async_queue;
pub mod channel;
pub mod id;
pub mod laws;
pub mod notifier;
mod random;
pub mod record;
pub mod ring;
pub mod select;
pub mod step_laws;
pub mod sync;
pub mod tracker;
pub mod wait_group;
