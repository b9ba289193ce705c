//! The command surface as plain data: what an invocation asks for, once the
//! argument strings have been read.

use vstd::prelude::*;

verus! {

/// One invocation of the tool.
#[derive(Debug, PartialEq, Eq)]
pub struct Cli {
    pub command: Commands,
}

/// The three subcommands and their arguments.
#[derive(Debug, PartialEq, Eq)]
pub enum Commands {
    /// Apply a configuration file to a target environment, with optional
    /// extra variables given as text to be parsed.
    Apply { config: String, target: String, vars: Option<String> },
    /// Validate a configuration file's provider inputs.
    Validate { config: String },
    /// Synthesize a configuration file from an existing playbook and
    /// inventory.
    Import { playbook: String, inventory: String, name: String },
}

} // verus!
