use vstd::prelude::*;

use crate::resource_pool::{DebugBufferID, DebugNodeID};

verus! {

/// A buffer of the resource pool as the schedule refers to it: the debug
/// identifier that the buffer was created with, and its slot in the pool's
/// list of buffers of that type (`debug_id.buffer_type`).
#[derive(Debug, Clone, Copy, PartialEq, Eq, Structural)]
pub struct SharedBuffer {
    pub debug_id: DebugBufferID,
    pub slot: usize,
}

impl SharedBuffer {
    /// The debug identifier of this buffer.
    pub fn debug_id(&self) -> (r: DebugBufferID)
        ensures
            r == self.debug_id,
    {
        self.debug_id
    }
}

/// A node that the user added to the graph, with the number of its
/// "process replacing" ports.
#[derive(Debug, Clone, Copy)]
pub struct SharedUserNode {
    pub node: DebugNodeID,
    pub num_mono_replacing_ports: u32,
    pub num_stereo_replacing_ports: u32,
}

/// A delay compensation node that the compiler inserted, with its delay in frames.
#[derive(Debug, Clone, Copy)]
pub struct SharedDelayNode {
    pub node: DebugNodeID,
    pub delay: u32,
    pub is_in_graph: bool,
}

/// A sum node that the compiler inserted, with its number of inputs.
#[derive(Debug, Clone, Copy)]
pub struct SharedSumNode {
    pub node: DebugNodeID,
    pub num_inputs: u32,
    pub is_in_graph: bool,
}

} // verus!
