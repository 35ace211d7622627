//! The errors that the scheduler's own logic reports.
use vstd::prelude::*;

verus! {

/// An error of the scheduler's logic. Errors of file access, of the TOML and
/// XML readers and of the plugin host are reported by the program around it.
#[derive(Debug, Clone, Copy, PartialEq, Eq, Structural)]
pub enum Error {
    /// The configuration lacks a value it needs, or holds one of the wrong type.
    ParseConfig,
    /// A node holds text that names no mode.
    ParseNode,
    /// No node has the asked-for name.
    NodeNotFound,
    /// The scheduler was started without one of its parts.
    SchedulerMissing(SchedulerPart),
    /// Another failure.
    Other,
}

/// A part that the scheduler needs before it can start.
#[derive(Debug, Clone, Copy, PartialEq, Eq, Structural)]
pub enum SchedulerPart {
    Config,
    Controller,
}

} // verus!
