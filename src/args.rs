//! The commands that the tool understands.
use vstd::prelude::*;

verus! {

/// One invocation of the tool.
pub struct Args {
    /// The command to run.
    pub command: Commands,
}

/// The commands of the tool.
pub enum Commands {
    /// Create a new note of the given name.
    Create { name: String },
    /// Point a branch of the source note (`"default"` when none is given) at
    /// the target note; both are named by the start of their file names.
    Link { source: String, target: String, branch: Option<String> },
}

} // verus!
