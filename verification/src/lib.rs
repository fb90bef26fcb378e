//! The decisions of a desktop shell around the `dsh` web service, and of the
//! tool that assembles its runtime.
//!
//! Every item here is a function from plain values to plain values. Windows,
//! sockets, processes and the file system belong to the program that calls it.

pub mod text;
pub mod search;
pub mod json;
pub mod paths;
pub mod config;

pub mod status;
pub mod settings;
pub mod theme;
pub mod session_log;
pub mod probe;
pub mod boot;
pub mod process;

pub mod package;
pub mod resolve;
pub mod tree;
pub mod vendor;
pub mod vendor_laws;
pub mod vendor_places;
pub mod vendor_ends;
pub mod archive;
pub mod prune;
pub mod file_tree;
pub mod node_fetch;
pub mod assemble;
