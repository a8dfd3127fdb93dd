//! A recurring detect, notify and purge pipeline over a search backend.
//!
//! Every part here is free of I/O: the caller performs the searches,
//! notifications and deletes that the state machines ask for and feeds
//! their outcomes back in.

mod json;

pub mod record;
pub mod evaluation;
pub mod aggregator;
pub mod scheduler;
pub mod flush;
pub mod config;
pub mod store;
pub mod rule;
