//! Supervisor logic for a hot-reload development helper.
//!
//! The library models the decision core of a tool that runs an interactive
//! build command as a child process and triggers a hot reload whenever a
//! source file changes: the debounce policy, the source-file filter, the
//! child argument assembly, and the ordering of the event loop. The
//! process-, terminal- and filesystem-facing glue lives outside the library.

pub mod command;
pub mod config;
pub mod dispatch;
pub mod history;
pub mod source_filter;
