//! Builder for launching an OpenVPN client process.
//!
//! The library turns a declarative description of an OpenVPN invocation
//! (configuration file, remote endpoints, plugin, output-capture policy)
//! into the exact ordered argument list the binary is started with, and
//! into a readable rendering of the full command line.

pub mod command;
pub mod format;
pub mod laws;
pub mod numeric;
pub mod remote;
