//! Session snapshot and watch subsystem of an editor-integration service.
//!
//! The crate keeps an in-memory context snapshot (referenced code snippets,
//! markdown notes and session limits) consistent with a session directory on
//! disk. Every function here is verified; file and network access live with
//! the caller, which hands the library what it has read.
//!
//! - [`snapshot`], [`cache`], [`path`]: the data model.
//! - [`layout`], [`uri`]: where a workspace keeps its files, and which file
//!   a snippet names.
//! - [`session_io`]: building a snapshot from what was read of a session.
//! - [`store`]: the cell through which snapshots are published.
//! - [`change`]: classifying changed paths and batching them.
//! - [`update`], [`watch_set`]: incremental updates and the watch-set.
//! - [`watcher`]: the watch loop's decisions.
//! - [`laws`]: what holds of all of these together.
//! - [`document_store`], [`model`], [`cli`]: the open document, the request
//!   to the completion model, the command line.
//! - [`text`]: text primitives.

pub mod cache;
pub mod change;
pub mod cli;
pub mod document_store;
pub mod laws;
pub mod layout;
pub mod model;
pub mod path;
pub mod session_io;
pub mod snapshot;
pub mod store;
pub mod text;
pub mod update;
pub mod uri;
pub mod watch_set;
pub mod watcher;
