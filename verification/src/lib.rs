//! A small request server's logic: request parsing and routing, the task
//! model and its execution steps, the worker status table, and the wire
//! rendering of responses.

pub mod endpoints;
pub mod error_responses;
pub mod handle_connection;
pub mod load_test;
pub mod responses;
pub mod status;
pub mod task_queue;
pub mod text;
