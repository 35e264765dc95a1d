//! Decision logic of a small desktop presence agent: detecting user
//! activity, recognising tracked applications among the running processes,
//! and scheduling the reports sent to the collection endpoint.

pub mod activity;
pub mod classifier;
pub mod endpoint;
pub mod path;
pub mod processes;
pub mod scheduler;
pub mod text;
