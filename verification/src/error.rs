use vstd::prelude::*;

use crate::resource_pool::{DebugBufferID, DebugNodeID};

verus! {

/// A non-fatal warning from the compiler.
///
/// This is returned whenever the graph is technically valid, but may
/// not have the behavior the user intended.
#[derive(Debug, Clone, Copy, PartialEq, Eq, Structural)]
pub enum CompilerWarning {
    /// The master output buffer was not found in the schedule because no nodes
    /// in the graph are connected to the root node.
    ///
    /// This will result in an output of silence.
    NothingConnectedToRoot,
}

/// An internal error that happened in the compiler.
///
/// If one of these errors is returned, then it should be handled by
/// reverting the graph back to its previous working state.
#[derive(Debug, Clone, Copy)]
pub enum CompilerError {
    /// The user node with the given index does not exist.
    UserNodeDoesNotExist(usize),
    /// The same node has appeared twice in the schedule.
    NodeAppearsTwice(DebugNodeID),
    /// The same buffer has appeared twice in the same task.
    BufferAppearsTwice(DebugBufferID),
}

} // verus!
