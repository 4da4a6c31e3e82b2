//! Verified core of a desktop launcher for performance-measurement tasks.
//!
//! The crate covers the pieces with genuine design content: building a
//! launchable command line from a selected task kind and its option flags,
//! the registry of task records and its persistence format, the pane
//! workspace tree with splitting and resizing, and the message-driven
//! update protocol that mutates them.  File and process handling live
//! outside the library and exchange plain values with it.

pub mod codec;
pub mod events;
pub mod pane;
pub mod state;
pub mod task;
pub mod update;
pub mod workspace;
