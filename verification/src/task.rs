use vstd::prelude::*;

use crate::lists::{BufferList, BufferPairList, ProcBufferList};
use crate::proc_buffers::ProcBuffer;
use crate::resource_pool::DebugNodeID;
use crate::shared::SharedBuffer;

verus! {

/// The buffers assigned to the ports of one node for one task.
pub struct ProcBufferAssignment {
    pub mono_replacing: ProcBufferList,
    pub indep_mono_in: ProcBufferList,
    pub indep_mono_out: ProcBufferList,
    pub stereo_replacing: ProcBufferList,
    pub indep_stereo_in: ProcBufferList,
    pub indep_stereo_out: ProcBufferList,
}

/// The spec-level contents of a `ProcBufferAssignment`.
#[verifier::ext_equal]
pub struct AssignmentModel {
    pub mono_replacing: Seq<ProcBuffer>,
    pub indep_mono_in: Seq<ProcBuffer>,
    pub indep_mono_out: Seq<ProcBuffer>,
    pub stereo_replacing: Seq<ProcBuffer>,
    pub indep_stereo_in: Seq<ProcBuffer>,
    pub indep_stereo_out: Seq<ProcBuffer>,
}

impl ProcBufferAssignment {
    /// The assignment as plain sequences.
    pub open spec fn model(&self) -> AssignmentModel {
        AssignmentModel {
            mono_replacing: self.mono_replacing@,
            indep_mono_in: self.indep_mono_in@,
            indep_mono_out: self.indep_mono_out@,
            stereo_replacing: self.stereo_replacing@,
            indep_stereo_in: self.indep_stereo_in@,
            indep_stereo_out: self.indep_stereo_out@,
        }
    }
}

/// Run one node with the given buffers.
pub struct AudioGraphNodeTask {
    pub node: DebugNodeID,
    pub proc_buffer_assignment: ProcBufferAssignment,
}

/// Buffer copies and clears that stand in for "process replacing" behavior
/// when a node's input and output port do not share a buffer.
pub enum MimicProcessReplacingTask {
    /// Copy each first mono buffer into the second.
    CopyMonoBuffers(BufferPairList),
    /// Copy each first stereo buffer into the second.
    CopyStereoBuffers(BufferPairList),
    /// Clear each mono buffer to silence.
    ClearMonoBuffers(BufferList),
    /// Clear each stereo buffer to silence.
    ClearStereoBuffers(BufferList),
}

/// One step of a schedule.
pub enum AudioGraphTask {
    Node(AudioGraphNodeTask),
    MimicProcessReplacing(MimicProcessReplacingTask),
}

/// The spec-level contents of an `AudioGraphTask`.
#[verifier::ext_equal]
pub enum TaskModel {
    Node(DebugNodeID, AssignmentModel),
    CopyMono(Seq<(SharedBuffer, SharedBuffer)>),
    CopyStereo(Seq<(SharedBuffer, SharedBuffer)>),
    ClearMono(Seq<SharedBuffer>),
    ClearStereo(Seq<SharedBuffer>),
}

impl AudioGraphTask {
    /// The task as plain sequences.
    pub open spec fn model(&self) -> TaskModel {
        match self {
            AudioGraphTask::Node(t) => TaskModel::Node(t.node, t.proc_buffer_assignment.model()),
            AudioGraphTask::MimicProcessReplacing(m) => match m {
                MimicProcessReplacingTask::CopyMonoBuffers(l) => TaskModel::CopyMono(l@),
                MimicProcessReplacingTask::CopyStereoBuffers(l) => TaskModel::CopyStereo(l@),
                MimicProcessReplacingTask::ClearMonoBuffers(l) => TaskModel::ClearMono(l@),
                MimicProcessReplacingTask::ClearStereoBuffers(l) => TaskModel::ClearStereo(l@),
            },
        }
    }
}

/// The spec-level contents of a list of tasks.
pub open spec fn tasks_model(s: Seq<AudioGraphTask>) -> Seq<TaskModel> {
    s.map_values(|t: AudioGraphTask| t.model())
}

} // verus!
