//! A single-user task tracker: a table of tasks, a strict one-active-task
//! workflow, and a fixed rule for which pending task comes next.

pub mod command;
pub mod date;
pub mod db;
pub mod error;
pub mod render;
pub mod scheduler;
pub mod status;
pub mod store;
pub mod task;
