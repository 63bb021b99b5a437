//! The parser: a pure walk of raw argument tokens against the definition
//! tree. The matching algorithm and its mathematical model live in the
//! submodules; `command_parsed` holds the flat result record.

pub mod command_parsed;
pub mod model;
pub mod utils;

pub use command_parsed::CommandParsed;

use vstd::prelude::*;

verus! {

/// A command name with nested parses and flags — a tree-shaped record for
/// callers that want to keep results of several parses together.
#[derive(Debug)]
pub struct Parsed {
    pub command: String,
    pub subcommands: Vec<Parsed>,
    pub flags: Vec<String>,
}

} // verus!
