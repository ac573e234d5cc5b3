//! The commands of the command-line tool, as plain values.

use vstd::prelude::*;

verus! {

/// What the tool is asked to do.
#[derive(Debug, Clone, PartialEq, Eq)]
pub enum TemplarCommand {
    /// Run the configured templates.
    Run(Run),
    /// Write the Lua module that exposes the tool's functions.
    Generate(Generate),
}

/// Where to write the generated Lua module, if not to the default place.
#[derive(Debug, Clone, PartialEq, Eq)]
pub struct Generate {
    pub file_path: Option<String>,
}

/// Which configuration file to run, if not the default one.
#[derive(Debug, Clone, PartialEq, Eq)]
pub struct Run {
    pub config_path: Option<String>,
}

} // verus!
