//! The decision logic of a desktop launcher for locally hosted web
//! applications: where installed apps live on disk, which release asset
//! fits the host, which processes belong to a launched app, and how the
//! backup folders are kept in sync.
//!
//! Everything that touches the file system, the network or the process
//! table is performed by the surrounding application; the functions here
//! take what was observed as plain values and return what is to be done.

pub mod backup;
pub mod catalog;
pub mod commands;
pub mod paths;
pub mod process_tree;
pub mod processes;
pub mod release;
pub mod status;
pub mod text;
