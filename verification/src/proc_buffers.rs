use vstd::prelude::*;

use crate::resource_pool::DebugBufferID;
use crate::shared::SharedBuffer;

verus! {

/// A buffer assigned to one port of a node.
///
/// Note that the index that this buffer appears in a list is ***NOT*** necessarily
/// the same as the index of the port which this buffer is assigned to. If a node
/// cares about what buffers are assigned to which ports, it uses `port_index()`.
#[derive(Debug, Clone, Copy, PartialEq, Eq, Structural)]
pub struct ProcBuffer {
    pub buffer: SharedBuffer,
    pub port_index: usize,
}

/// A buffer assigned to a mono port.
pub type MonoProcBuffer = ProcBuffer;

/// A buffer assigned to a stereo port.
pub type StereoProcBuffer = ProcBuffer;

impl ProcBuffer {
    /// The buffer `buffer`, assigned to the port `port_index`.
    pub fn new(buffer: SharedBuffer, port_index: usize) -> (r: Self)
        ensures
            r.buffer == buffer,
            r.port_index == port_index,
    {
        ProcBuffer { buffer, port_index }
    }

    /// The index of the port that this buffer is assigned to.
    pub fn port_index(&self) -> (r: usize)
        ensures
            r == self.port_index,
    {
        self.port_index
    }

    /// The debug identifier of the buffer.
    pub fn debug_id(&self) -> (r: DebugBufferID)
        ensures
            r == self.buffer.debug_id,
    {
        self.buffer.debug_id
    }
}

} // verus!
