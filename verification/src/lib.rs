//! A watch engine for filesystem changes.
//!
//! The engine turns what a notification backend reports into the events a
//! caller's callback receives, and decides when a watch ends. It does no I/O
//! and never blocks: whoever drives it performs what it asks for and reports
//! back what happened.
//!
//! - [`kind`]: the taxonomy of raw change kinds.
//! - [`event`]: classification of a raw kind into ordered category tags.
//! - [`record`]: the raw event that comes in and the normalized event that
//!   goes out.
//! - [`request`]: the configuration of a watch, the backend and scope it
//!   selects, and the filter policy of its ignore flags.
//! - [`debounce`]: coalescing of bursts of raw events per path.
//! - [`error`]: the ways a watch can fail.
//! - [`engine`]: the watch loop as a state machine from reports to actions.
//! - [`guarantees`]: what is proved of every run of that machine.

pub mod debounce;
pub mod engine;
pub mod error;
pub mod event;
pub mod guarantees;
pub mod kind;
pub mod record;
pub mod request;
