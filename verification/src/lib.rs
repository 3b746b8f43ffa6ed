//! Core of an interactive front-end for a native process debugger.
//!
//! The debugger engine itself is an external capability: it launches or
//! attaches to a target process, drives its execution, and reports what
//! happened through an asynchronous event stream.  This crate owns the part
//! worth getting right: the session state snapshot the presentation layer
//! reads, the controller decisions that gate every request sent to the
//! engine, the event-bridge rules that fold engine events into the snapshot,
//! and the process-lifetime source cache.  Everything here is plain data and
//! verified logic; the binary around it performs the engine calls and hands
//! the results back in as values.

pub mod breakpoints;
pub mod cli;
pub mod events;
pub mod launch;
pub mod sequences;
pub mod session;
pub mod source_cache;
pub mod state;
pub mod variables;
pub mod widgets;
