//! In-memory core of a task-execution service: a lifecycle state machine for
//! asynchronous units of work, a task store with per-owner authorization and
//! delayed eviction, an output-capture pipeline that turns raw process output
//! into ordered chunk events, and a connection registry that fans those events
//! out to live listeners.

pub mod connection_manager;
pub mod pipeline;
pub mod project_files;
pub mod routes;
pub mod state;
pub mod task;
pub mod ws;
