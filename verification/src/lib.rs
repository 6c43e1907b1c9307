//! A routine timer: an ordered list of tasks with planned durations whose
//! current allotments are continuously re-derived so that the whole list
//! keeps fitting its time budget.
//!
//! Every function in this crate is verified with Verus against the contract
//! written on it.

pub mod config;
pub mod flex;
pub mod keys;
pub mod list_pointer;
pub mod logging;
pub mod parse_new_task;
pub mod routine;
pub mod session;
pub mod task;
pub mod text;
pub mod time;

pub use time::{Duration, Timestamp};
