//! The decisions and bookkeeping of the runc shim: its process and container tables,
//! the task service built on them, and the helpers they share.
pub mod io;
pub mod process;
pub mod common;
pub mod container;
pub mod task;
pub mod event;
pub mod laws;
pub mod lifecycle;
pub mod runtime;
