//! The compiler, resource pool and schedule verifier of an audio graph engine,
//! with the sample-accurate delay lines, the planning of output blocks, the
//! host request queue, and the identifiers the engine hands out.

pub mod compiler;
pub mod error;
pub mod executor;
pub mod graph_state;
pub mod host;
pub mod interface;
pub mod node;
pub mod plugin;
pub mod plugin_instance_pool;
pub mod lists;
pub mod proc_buffers;
pub mod process;
pub mod resource_pool;
pub mod rt_processor_pool;
pub mod schedule;
pub mod shared;
pub mod task;
pub mod schedule_limits;
pub mod schedule_verifier;

pub use error::{CompilerError, CompilerWarning};
pub use graph_state::{NodeRef, PortIdent, PortType};
pub use proc_buffers::{MonoProcBuffer, ProcBuffer, StereoProcBuffer};
pub use resource_pool::{DebugBufferID, DebugBufferType, DebugNodeID, DebugNodeType};

use vstd::prelude::*;

verus! {

/// How many port buffers a buffer list holds before it spills to the heap.
pub const SMALLVEC_ALLOC_PORT_BUFFERS: usize = 4;

/// How many copy or clear entries a "mimic process replacing" list holds
/// before it spills to the heap.
pub const SMALLVEC_ALLOC_MPR_BUFFERS: usize = 4;

} // verus!
