use vstd::prelude::*;

verus! {

/// A reference to a node in the graph: its index.
#[derive(Debug, Clone, Copy, PartialEq, Eq, Structural)]
pub struct NodeRef(pub usize);

impl NodeRef {
    /// The index of the node that this reference points to.
    pub fn index(&self) -> (r: usize)
        ensures
            r == self.0,
    {
        self.0
    }
}

/// The type of an audio port.
#[derive(Debug, Clone, Copy, PartialEq, Eq, Structural)]
pub enum PortType {
    MonoAudio,
    StereoAudio,
}

/// Identifies one port of a node: its type and its index among the ports of
/// that type.
#[derive(Debug, Clone, Copy, PartialEq, Eq, Structural)]
pub struct PortIdent {
    pub port_type: PortType,
    pub index: u16,
}

/// Delay compensation that the graph asks for on one input buffer: the buffer
/// coming from `source_port` of `source_node` must be delayed by `delay` frames.
#[derive(Debug, Clone, Copy, PartialEq, Eq, Structural)]
pub struct DelayCompInfo {
    pub source_node: NodeRef,
    pub source_port: PortIdent,
    pub delay: u64,
}

/// One buffer feeding an input port, with the delay compensation it needs.
#[derive(Debug, Clone, Copy, PartialEq, Eq, Structural)]
pub struct ScheduledInputBuffer {
    pub buffer_id: usize,
    pub delay_comp: Option<DelayCompInfo>,
}

/// The buffers feeding one input port of a scheduled node.
pub struct ScheduledInput {
    pub port: PortIdent,
    pub buffers: Vec<ScheduledInputBuffer>,
}

/// The buffer that one output port of a scheduled node writes to.
#[derive(Debug, Clone, Copy, PartialEq, Eq, Structural)]
pub struct ScheduledOutput {
    pub port: PortIdent,
    pub buffer_id: usize,
}

/// One entry of the graph's topologically ordered schedule: a node with the
/// buffers assigned to its input and output ports.
pub struct ScheduledNode {
    pub node: NodeRef,
    pub inputs: Vec<ScheduledInput>,
    pub outputs: Vec<ScheduledOutput>,
}

} // verus!
