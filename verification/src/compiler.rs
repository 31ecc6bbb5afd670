use vstd::prelude::*;

use crate::error::{CompilerError, CompilerWarning};
use crate::interface::GraphInterface;
use crate::schedule::Schedule;
use crate::graph_state::{
    DelayCompInfo, NodeRef, PortIdent, PortType, ScheduledInput, ScheduledInputBuffer,
    ScheduledNode, ScheduledOutput,
};
use crate::lists::{BufferList, BufferPairList, ProcBufferList};
use crate::proc_buffers::ProcBuffer;
use crate::resource_pool::{
    block_type, find_key, grown_buffers, keys_unique, temp_type, DebugBufferID, DebugBufferType, DebugNodeID, DebugNodeType,
    DelayCompNodeKey, GraphResourcePool, PoolModel, SumNodeKey,
};
use crate::shared::{SharedBuffer, SharedDelayNode, SharedSumNode, SharedUserNode};
use crate::task::{
    AssignmentModel, AudioGraphNodeTask, AudioGraphTask, MimicProcessReplacingTask,
    ProcBufferAssignment, TaskModel, tasks_model,
};

verus! {

// ---------------------------------------------------------------------------
// The model of a compilation in progress.
// ---------------------------------------------------------------------------

/// Everything a compilation has built so far: the pool, the counters that
/// name new delay compensation and sum nodes, the highest buffer index used of
/// each type, the tasks, and the root output buffer once the root node was seen.
#[verifier::ext_equal]
pub struct CompileModel {
    pub pool: PoolModel,
    pub next_delay_comp_node_id: int,
    pub next_sum_node_id: int,
    pub max_mono: int,
    pub max_stereo: int,
    pub max_temp_mono: int,
    pub max_temp_stereo: int,
    pub tasks: Seq<TaskModel>,
    pub root_out: Option<SharedBuffer>,
}

/// The buffers gathered for the node of one schedule entry, and the next free
/// temporary buffer of each type.
#[verifier::ext_equal]
pub struct EntryModel {
    pub mono_in: Seq<ProcBuffer>,
    pub mono_out: Seq<ProcBuffer>,
    pub stereo_in: Seq<ProcBuffer>,
    pub stereo_out: Seq<ProcBuffer>,
    pub next_temp_mono: int,
    pub next_temp_stereo: int,
}

/// An entry before any of its ports were looked at.
pub open spec fn empty_entry() -> EntryModel {
    EntryModel {
        mono_in: Seq::empty(),
        mono_out: Seq::empty(),
        stereo_in: Seq::empty(),
        stereo_out: Seq::empty(),
        next_temp_mono: 0,
        next_temp_stereo: 0,
    }
}

impl EntryModel {
    /// The independent input buffers gathered so far for ports of type `pt`.
    pub open spec fn ins(self, pt: PortType) -> Seq<ProcBuffer> {
        match pt {
            PortType::MonoAudio => self.mono_in,
            PortType::StereoAudio => self.stereo_in,
        }
    }

    /// The independent output buffers gathered so far for ports of type `pt`.
    pub open spec fn outs(self, pt: PortType) -> Seq<ProcBuffer> {
        match pt {
            PortType::MonoAudio => self.mono_out,
            PortType::StereoAudio => self.stereo_out,
        }
    }

    /// The index of the next temporary buffer of type `pt` this entry may use.
    pub open spec fn next_temp(self, pt: PortType) -> int {
        match pt {
            PortType::MonoAudio => self.next_temp_mono,
            PortType::StereoAudio => self.next_temp_stereo,
        }
    }

    /// The entry with the input buffers of type `pt` replaced by `s`.
    pub open spec fn with_ins(self, pt: PortType, s: Seq<ProcBuffer>) -> EntryModel {
        match pt {
            PortType::MonoAudio => EntryModel { mono_in: s, ..self },
            PortType::StereoAudio => EntryModel { stereo_in: s, ..self },
        }
    }

    /// The entry with the output buffers of type `pt` replaced by `s`.
    pub open spec fn with_outs(self, pt: PortType, s: Seq<ProcBuffer>) -> EntryModel {
        match pt {
            PortType::MonoAudio => EntryModel { mono_out: s, ..self },
            PortType::StereoAudio => EntryModel { stereo_out: s, ..self },
        }
    }

    /// The entry with the next temporary buffer index of type `pt` set to `n`.
    pub open spec fn with_next_temp(self, pt: PortType, n: int) -> EntryModel {
        match pt {
            PortType::MonoAudio => EntryModel { next_temp_mono: n, ..self },
            PortType::StereoAudio => EntryModel { next_temp_stereo: n, ..self },
        }
    }
}

impl CompileModel {
    /// The highest block buffer index of type `pt` used so far.
    pub open spec fn max_block(self, pt: PortType) -> int {
        match pt {
            PortType::MonoAudio => self.max_mono,
            PortType::StereoAudio => self.max_stereo,
        }
    }

    /// Record that the block buffer `id` of type `pt` is used.
    pub open spec fn raise_max(self, pt: PortType, id: int) -> CompileModel {
        if id > self.max_block(pt) {
            match pt {
                PortType::MonoAudio => CompileModel { max_mono: id, ..self },
                PortType::StereoAudio => CompileModel { max_stereo: id, ..self },
            }
        } else {
            self
        }
    }

    /// Record the temporary buffers used by the entry `e`.
    pub open spec fn raise_temp_max(self, e: EntryModel) -> CompileModel {
        let c = if e.next_temp_mono != 0 && e.next_temp_mono - 1 > self.max_temp_mono {
            CompileModel { max_temp_mono: e.next_temp_mono - 1, ..self }
        } else {
            self
        };
        if e.next_temp_stereo != 0 && e.next_temp_stereo - 1 > c.max_temp_stereo {
            CompileModel { max_temp_stereo: e.next_temp_stereo - 1, ..c }
        } else {
            c
        }
    }

    /// Ask the pool for a buffer; the pool as it is afterwards, and the buffer.
    pub open spec fn get_buffer(self, ty: DebugBufferType, index: int) -> (CompileModel, SharedBuffer) {
        let (p, b) = self.pool.get_buffer(ty, index);
        (CompileModel { pool: p, ..self }, b)
    }
}

// ---------------------------------------------------------------------------
// Inserted nodes.
// ---------------------------------------------------------------------------

/// The kind of the delay compensation node for ports of type `pt`.
pub open spec fn delay_node_type(pt: PortType) -> DebugNodeType {
    match pt {
        PortType::MonoAudio => DebugNodeType::MonoDelayComp,
        PortType::StereoAudio => DebugNodeType::StereoDelayComp,
    }
}

/// The kind of the sum node for ports of type `pt`.
pub open spec fn sum_node_type(pt: PortType) -> DebugNodeType {
    match pt {
        PortType::MonoAudio => DebugNodeType::MonoSum,
        PortType::StereoAudio => DebugNodeType::StereoSum,
    }
}

/// The key of the delay compensation node on the connection `dci` into
/// `port` of `node`.
pub open spec fn delay_comp_key(dci: DelayCompInfo, node: NodeRef, port: PortIdent) -> DelayCompNodeKey {
    DelayCompNodeKey {
        src_node_id: dci.source_node.0 as u32,
        src_node_port: dci.source_port,
        dst_node_id: node.0 as u32,
        dst_node_port: port,
    }
}

/// Using the delay compensation node for `key` with `delay` frames: an existing
/// node with that delay is kept, otherwise a new node named by the counter
/// `next` takes its place. The node is flagged as in the graph. Returns the
/// nodes, the counter, and the node used.
pub open spec fn use_delay_node(
    nodes: Seq<(DelayCompNodeKey, SharedDelayNode)>,
    key: DelayCompNodeKey,
    delay: u32,
    ty: DebugNodeType,
    next: int,
) -> (Seq<(DelayCompNodeKey, SharedDelayNode)>, int, DebugNodeID) {
    let j = find_key(nodes, key);
    let fresh = DebugNodeID { node_type: ty, index: next as u64, name: None };
    if j >= 0 && nodes[j].1.delay == delay {
        let old = nodes[j].1;
        (
            nodes.update(j, (key, SharedDelayNode { node: old.node, delay: old.delay, is_in_graph: true })),
            next,
            old.node,
        )
    } else if j >= 0 {
        (nodes.update(j, (key, SharedDelayNode { node: fresh, delay, is_in_graph: true })), next + 1, fresh)
    } else {
        (nodes.push((key, SharedDelayNode { node: fresh, delay, is_in_graph: true })), next + 1, fresh)
    }
}

/// Using the sum node for `key` with `num_inputs` inputs, as for delay nodes.
pub open spec fn use_sum_node(
    nodes: Seq<(SumNodeKey, SharedSumNode)>,
    key: SumNodeKey,
    num_inputs: u32,
    ty: DebugNodeType,
    next: int,
) -> (Seq<(SumNodeKey, SharedSumNode)>, int, DebugNodeID) {
    let j = find_key(nodes, key);
    let fresh = DebugNodeID { node_type: ty, index: next as u64, name: None };
    if j >= 0 && nodes[j].1.num_inputs == num_inputs {
        let old = nodes[j].1;
        (
            nodes.update(j, (key, SharedSumNode { node: old.node, num_inputs: old.num_inputs, is_in_graph: true })),
            next,
            old.node,
        )
    } else if j >= 0 {
        (nodes.update(j, (key, SharedSumNode { node: fresh, num_inputs, is_in_graph: true })), next + 1, fresh)
    } else {
        (nodes.push((key, SharedSumNode { node: fresh, num_inputs, is_in_graph: true })), next + 1, fresh)
    }
}

/// No buffers at all.
pub open spec fn no_buffers() -> Seq<ProcBuffer> {
    Seq::empty()
}

/// The assignment with `replacing`, `ins` and `outs` on ports of type `pt`
/// and nothing on the other type.
pub open spec fn assignment_of(
    pt: PortType,
    replacing: Seq<ProcBuffer>,
    ins: Seq<ProcBuffer>,
    outs: Seq<ProcBuffer>,
) -> AssignmentModel {
    match pt {
        PortType::MonoAudio => AssignmentModel {
            mono_replacing: replacing,
            indep_mono_in: ins,
            indep_mono_out: outs,
            stereo_replacing: no_buffers(),
            indep_stereo_in: no_buffers(),
            indep_stereo_out: no_buffers(),
        },
        PortType::StereoAudio => AssignmentModel {
            mono_replacing: no_buffers(),
            indep_mono_in: no_buffers(),
            indep_mono_out: no_buffers(),
            stereo_replacing: replacing,
            indep_stereo_in: ins,
            indep_stereo_out: outs,
        },
    }
}

/// The task of a delay compensation node: `input` delayed into `delayed`.
pub open spec fn delay_task(pt: PortType, node: DebugNodeID, input: SharedBuffer, delayed: SharedBuffer) -> TaskModel {
    TaskModel::Node(
        node,
        assignment_of(
            pt,
            no_buffers(),
            seq![ProcBuffer { buffer: input, port_index: 0 }],
            seq![ProcBuffer { buffer: delayed, port_index: 0 }],
        ),
    )
}

/// The task of a sum node: `indep` added onto `through`.
pub open spec fn sum_task(pt: PortType, node: DebugNodeID, through: SharedBuffer, indep: Seq<ProcBuffer>) -> TaskModel {
    TaskModel::Node(
        node,
        assignment_of(pt, seq![ProcBuffer { buffer: through, port_index: 0 }], indep, no_buffers()),
    )
}

// ---------------------------------------------------------------------------
// Inputs and outputs of one entry.
// ---------------------------------------------------------------------------

/// Insert a delay compensation node that delays the block buffer `buffer_id`
/// into the next temporary buffer; the index of that temporary buffer is returned.
pub open spec fn insert_delay_comp(
    c: CompileModel,
    e: EntryModel,
    pt: PortType,
    dci: DelayCompInfo,
    node: NodeRef,
    port: PortIdent,
    buffer_id: int,
) -> (CompileModel, EntryModel, int) {
    let t = e.next_temp(pt);
    let (c1, delayed) = c.get_buffer(temp_type(pt), t);
    let key = delay_comp_key(dci, node, port);
    let (nodes, next, id) = use_delay_node(
        c1.pool.delay_comp_nodes,
        key,
        dci.delay as u32,
        delay_node_type(pt),
        c1.next_delay_comp_node_id,
    );
    let c2 = CompileModel {
        pool: PoolModel { delay_comp_nodes: nodes, ..c1.pool },
        next_delay_comp_node_id: next,
        ..c1
    };
    let (c3, input) = c2.get_buffer(block_type(pt), buffer_id);
    (
        CompileModel { tasks: c3.tasks.push(delay_task(pt, id, input, delayed)), ..c3 },
        e.with_next_temp(pt, t + 1),
        t,
    )
}

/// The buffer that reaches an input port from `b`: the block buffer itself,
/// or a temporary buffer holding it delayed.
pub open spec fn input_buffer(
    c: CompileModel,
    e: EntryModel,
    pt: PortType,
    b: ScheduledInputBuffer,
    node: NodeRef,
    port: PortIdent,
) -> (CompileModel, EntryModel, SharedBuffer) {
    match b.delay_comp {
        Some(dci) => {
            let (c1, e1, t) = insert_delay_comp(c, e, pt, dci, node, port, b.buffer_id as int);
            let (c2, buf) = c1.get_buffer(temp_type(pt), t);
            (c2, e1, buf)
        },
        None => {
            let (c1, buf) = c.get_buffer(block_type(pt), b.buffer_id as int);
            (c1, e, buf)
        },
    }
}

/// The first `n` buffers of a port fed by several: the first one passes
/// through, the others are gathered as inputs of a sum node.
pub open spec fn sum_inputs(
    c: CompileModel,
    e: EntryModel,
    pt: PortType,
    node: NodeRef,
    port: PortIdent,
    bufs: Seq<ScheduledInputBuffer>,
    n: int,
) -> (CompileModel, EntryModel, Option<SharedBuffer>, Seq<ProcBuffer>)
    decreases n,
{
    if n <= 0 {
        (c, e, None, no_buffers())
    } else {
        let (c1, e1, through, indep) = sum_inputs(c, e, pt, node, port, bufs, n - 1);
        let b = bufs[n - 1];
        let (c2, e2, buf) = input_buffer(c1.raise_max(pt, b.buffer_id as int), e1, pt, b, node, port);
        if n - 1 == 0 {
            (c2, e2, Some(buf), indep)
        } else {
            (c2, e2, through, indep.push(ProcBuffer { buffer: buf, port_index: (n - 1) as usize }))
        }
    }
}

/// One input port of the node `node`.
pub open spec fn input_port(
    c: CompileModel,
    e: EntryModel,
    node: NodeRef,
    port: PortIdent,
    bufs: Seq<ScheduledInputBuffer>,
) -> (CompileModel, EntryModel) {
    let pt = port.port_type;
    if bufs.len() == 1 {
        let b = bufs[0];
        let (c1, e1, buf) = input_buffer(c.raise_max(pt, b.buffer_id as int), e, pt, b, node, port);
        (c1, e1.with_ins(pt, e1.ins(pt).push(ProcBuffer { buffer: buf, port_index: port.index as usize })))
    } else {
        let (c1, e1, through, indep) = sum_inputs(c, e, pt, node, port, bufs, bufs.len() as int);
        match through {
            None => (c1, e1),
            Some(t) => {
                let key = SumNodeKey { node_id: node.0 as u32, port };
                let (nodes, next, id) = use_sum_node(
                    c1.pool.sum_nodes,
                    key,
                    bufs.len() as u32,
                    sum_node_type(pt),
                    c1.next_sum_node_id,
                );
                (
                    CompileModel {
                        pool: PoolModel { sum_nodes: nodes, ..c1.pool },
                        next_sum_node_id: next,
                        tasks: c1.tasks.push(sum_task(pt, id, t, indep)),
                        ..c1
                    },
                    e1.with_ins(pt, e1.ins(pt).push(ProcBuffer { buffer: t, port_index: port.index as usize })),
                )
            },
        }
    }
}

/// The first `n` input ports of the node `node`.
pub open spec fn input_ports(
    c: CompileModel,
    e: EntryModel,
    node: NodeRef,
    inputs: Seq<ScheduledInput>,
    n: int,
) -> (CompileModel, EntryModel)
    decreases n,
{
    if n <= 0 {
        (c, e)
    } else {
        let (c1, e1) = input_ports(c, e, node, inputs, n - 1);
        input_port(c1, e1, node, inputs[n - 1].port, inputs[n - 1].buffers@)
    }
}

/// The first `n` output ports.
pub open spec fn output_ports(c: CompileModel, e: EntryModel, outputs: Seq<ScheduledOutput>, n: int) -> (
    CompileModel,
    EntryModel,
)
    decreases n,
{
    if n <= 0 {
        (c, e)
    } else {
        let (c1, e1) = output_ports(c, e, outputs, n - 1);
        let o = outputs[n - 1];
        let pt = o.port.port_type;
        let (c2, buf) = c1.raise_max(pt, o.buffer_id as int).get_buffer(block_type(pt), o.buffer_id as int);
        (c2, e1.with_outs(pt, e1.outs(pt).push(ProcBuffer { buffer: buf, port_index: o.port.index as usize })))
    }
}

// ---------------------------------------------------------------------------
// "Process replacing" ports.
// ---------------------------------------------------------------------------

/// The position of the first buffer of `s` at or after `j` assigned to port
/// `p`, or -1.
pub open spec fn find_port_from(s: Seq<ProcBuffer>, p: int, j: int) -> int
    decreases s.len() - j,
{
    if j < 0 || j >= s.len() {
        -1
    } else if s[j].port_index == p {
        j
    } else {
        find_port_from(s, p, j + 1)
    }
}

/// The position in `s` of the first buffer assigned to port `p`, or -1.
pub open spec fn find_port(s: Seq<ProcBuffer>, p: int) -> int {
    find_port_from(s, p, 0)
}

/// The buffers of a node's ports of one type once its "process replacing"
/// ports are served: what is left of the inputs and outputs, the buffers of
/// the replacing ports, and the copies and clears that mimic process replacing.
#[verifier::ext_equal]
pub struct MimicModel {
    pub ins: Seq<ProcBuffer>,
    pub outs: Seq<ProcBuffer>,
    pub replacing: Seq<ProcBuffer>,
    pub copies: Seq<(SharedBuffer, SharedBuffer)>,
    pub clears: Seq<SharedBuffer>,
}

/// Serve the replacing ports `0..n`. For a port with both an input and an
/// output buffer, the input is copied into the output, which becomes the
/// replacing buffer; with only an output buffer, the output is cleared and
/// becomes the replacing buffer; with only an input buffer, it becomes the
/// replacing buffer.
pub open spec fn mimic_replacing(ins: Seq<ProcBuffer>, outs: Seq<ProcBuffer>, n: int) -> MimicModel
    decreases n,
{
    if n <= 0 {
        MimicModel { ins, outs, replacing: no_buffers(), copies: Seq::empty(), clears: Seq::empty() }
    } else {
        let m = mimic_replacing(ins, outs, n - 1);
        let p = n - 1;
        let in_i = find_port(m.ins, p);
        let out_i = find_port(m.outs, p);
        if out_i >= 0 && in_i >= 0 {
            MimicModel {
                ins: m.ins.remove(in_i),
                outs: m.outs.remove(out_i),
                replacing: m.replacing.push(m.outs[out_i]),
                copies: m.copies.push((m.ins[in_i].buffer, m.outs[out_i].buffer)),
                clears: m.clears,
            }
        } else if out_i >= 0 {
            MimicModel {
                outs: m.outs.remove(out_i),
                replacing: m.replacing.push(m.outs[out_i]),
                clears: m.clears.push(m.outs[out_i].buffer),
                ..m
            }
        } else if in_i >= 0 {
            MimicModel { ins: m.ins.remove(in_i), replacing: m.replacing.push(m.ins[in_i]), ..m }
        } else {
            m
        }
    }
}

/// `tasks` with `t` appended when `nonempty`.
pub open spec fn push_if(tasks: Seq<TaskModel>, nonempty: bool, t: TaskModel) -> Seq<TaskModel> {
    if nonempty {
        tasks.push(t)
    } else {
        tasks
    }
}

/// The tasks of the user node `user` with the gathered buffers `e`: first the
/// clears, then the copies that mimic process replacing, then the node itself.
/// The root node also writes the root output buffer.
pub open spec fn finish_entry(c: CompileModel, e: EntryModel, user: SharedUserNode, is_root: bool) -> CompileModel {
    let root = c.pool.root_output_buffer;
    let stereo_out = if is_root {
        e.stereo_out.push(ProcBuffer { buffer: root, port_index: 0 })
    } else {
        e.stereo_out
    };
    let root_out = if is_root {
        Some(root)
    } else {
        c.root_out
    };
    let mm = mimic_replacing(e.mono_in, e.mono_out, user.num_mono_replacing_ports as int);
    let ms = mimic_replacing(e.stereo_in, stereo_out, user.num_stereo_replacing_ports as int);
    let t1 = push_if(c.tasks, mm.clears.len() > 0, TaskModel::ClearMono(mm.clears));
    let t2 = push_if(t1, ms.clears.len() > 0, TaskModel::ClearStereo(ms.clears));
    let t3 = push_if(t2, mm.copies.len() > 0, TaskModel::CopyMono(mm.copies));
    let t4 = push_if(t3, ms.copies.len() > 0, TaskModel::CopyStereo(ms.copies));
    let node_task = TaskModel::Node(
        user.node,
        AssignmentModel {
            mono_replacing: mm.replacing,
            indep_mono_in: mm.ins,
            indep_mono_out: mm.outs,
            stereo_replacing: ms.replacing,
            indep_stereo_in: ms.ins,
            indep_stereo_out: ms.outs,
        },
    );
    CompileModel { tasks: t4.push(node_task), root_out, ..c }
}

// ---------------------------------------------------------------------------
// Whole entries and the whole schedule.
// ---------------------------------------------------------------------------

/// One entry of the schedule: its inputs, its outputs, then its user node,
/// or the error that the user node does not exist.
pub open spec fn entry_step(c: CompileModel, entry: ScheduledNode, root: NodeRef) -> (
    CompileModel,
    Option<CompilerError>,
) {
    let (c1, e1) = input_ports(c, empty_entry(), entry.node, entry.inputs@, entry.inputs@.len() as int);
    let (c2, e2) = output_ports(c1, e1, entry.outputs@, entry.outputs@.len() as int);
    let c3 = c2.raise_temp_max(e2);
    let index = entry.node.0 as int;
    if index < c3.pool.user_nodes.len() && c3.pool.user_nodes[index] is Some {
        (finish_entry(c3, e2, c3.pool.user_nodes[index]->0, entry.node == root), None)
    } else {
        (c3, Some(CompilerError::UserNodeDoesNotExist(entry.node.0)))
    }
}

/// The first `n` entries of the schedule, stopping at the first error.
pub open spec fn entry_steps(c: CompileModel, entries: Seq<ScheduledNode>, root: NodeRef, n: int) -> (
    CompileModel,
    Option<CompilerError>,
)
    decreases n,
{
    if n <= 0 {
        (c, None)
    } else {
        let (c1, err) = entry_steps(c, entries, root, n - 1);
        if err is Some {
            (c1, err)
        } else {
            entry_step(c1, entries[n - 1], root)
        }
    }
}

// ---------------------------------------------------------------------------
// Sizes that bound the counters.
// ---------------------------------------------------------------------------

/// The number of buffers feeding the first `n` input ports.
pub open spec fn port_buffer_count(inputs: Seq<ScheduledInput>, n: int) -> int
    decreases n,
{
    if n <= 0 {
        0
    } else {
        port_buffer_count(inputs, n - 1) + inputs[n - 1].buffers@.len()
    }
}

/// The number of buffers feeding the input ports of `entry`.
pub open spec fn entry_buffer_count(entry: ScheduledNode) -> int {
    port_buffer_count(entry.inputs@, entry.inputs@.len() as int)
}

/// The number of buffers feeding input ports in the first `n` entries.
pub open spec fn schedule_buffer_count(entries: Seq<ScheduledNode>, n: int) -> int
    decreases n,
{
    if n <= 0 {
        0
    } else {
        schedule_buffer_count(entries, n - 1) + entry_buffer_count(entries[n - 1])
    }
}

/// Counting the buffers of more input ports never gives fewer.
pub proof fn lemma_port_buffer_count_monotone(inputs: Seq<ScheduledInput>, i: int, n: int)
    requires
        0 <= i <= n,
    ensures
        0 <= port_buffer_count(inputs, i) <= port_buffer_count(inputs, n),
    decreases n,
{
    if i < n {
        lemma_port_buffer_count_monotone(inputs, i, n - 1);
    } else if n > 0 {
        lemma_port_buffer_count_monotone(inputs, n - 1, n - 1);
    }
}

/// Counting the input buffers of more entries never gives fewer.
pub proof fn lemma_schedule_buffer_count_monotone(entries: Seq<ScheduledNode>, i: int, n: int)
    requires
        0 <= i <= n,
    ensures
        0 <= schedule_buffer_count(entries, i) <= schedule_buffer_count(entries, n),
    decreases n,
{
    if n > 0 {
        lemma_port_buffer_count_monotone(
            entries[n - 1].inputs@,
            0,
            entries[n - 1].inputs@.len() as int,
        );
    }
    if i < n {
        lemma_schedule_buffer_count_monotone(entries, i, n - 1);
    } else if n > 0 {
        lemma_schedule_buffer_count_monotone(entries, n - 1, n - 1);
    }
}

/// A buffer index that the pool can grow to, with room for one more.
pub open spec fn buffer_id_ok(id: usize) -> bool {
    id < usize::MAX - 1
}

/// Every buffer feeding `input` has an index the pool can grow to.
pub open spec fn input_ids_ok(input: ScheduledInput) -> bool {
    forall|b: int| 0 <= b < input.buffers@.len() ==> buffer_id_ok(#[trigger] input.buffers@[b].buffer_id)
}

/// Every buffer of `entry` has an index the pool can grow to.
pub open spec fn entry_ids_ok(entry: ScheduledNode) -> bool {
    &&& forall|j: int| 0 <= j < entry.inputs@.len() ==> input_ids_ok(#[trigger] entry.inputs@[j])
    &&& forall|j: int| 0 <= j < entry.outputs@.len() ==> buffer_id_ok(#[trigger] entry.outputs@[j].buffer_id)
}

/// Every buffer index in the schedule is one the pool can grow to, and no
/// entry is fed by more buffers than a `usize` counts.
pub open spec fn schedule_ok(entries: Seq<ScheduledNode>) -> bool {
    &&& forall|k: int| 0 <= k < entries.len() ==> entry_ids_ok(#[trigger] entries[k])
    &&& forall|k: int| 0 <= k < entries.len() ==> #[trigger] entry_buffer_count(entries[k]) < usize::MAX
}

// ---------------------------------------------------------------------------
// Executable state of a compilation.
// ---------------------------------------------------------------------------

/// What a compilation has built so far, besides the pool.
pub struct CompileProgress {
    pub next_delay_comp_node_id: u64,
    pub next_sum_node_id: u64,
    pub max_mono: usize,
    pub max_stereo: usize,
    pub max_temp_mono: usize,
    pub max_temp_stereo: usize,
    pub tasks: Vec<AudioGraphTask>,
    pub root_out: Option<SharedBuffer>,
}

impl CompileProgress {
    /// The compilation this progress stands for, together with the pool.
    pub open spec fn model(&self, pool: PoolModel) -> CompileModel {
        CompileModel {
            pool,
            next_delay_comp_node_id: self.next_delay_comp_node_id as int,
            next_sum_node_id: self.next_sum_node_id as int,
            max_mono: self.max_mono as int,
            max_stereo: self.max_stereo as int,
            max_temp_mono: self.max_temp_mono as int,
            max_temp_stereo: self.max_temp_stereo as int,
            tasks: tasks_model(self.tasks@),
            root_out: self.root_out,
        }
    }

    /// Record that the block buffer `id` of type `pt` is used.
    fn raise_max(&mut self, pt: PortType, id: usize)
        ensures
            forall|pm: PoolModel| #[trigger] final(self).model(pm) == old(self).model(pm).raise_max(pt, id as int),
            final(self).next_delay_comp_node_id == old(self).next_delay_comp_node_id,
            final(self).next_sum_node_id == old(self).next_sum_node_id,
            final(self).max_mono <= if pt == PortType::MonoAudio && id > old(self).max_mono { id } else { old(self).max_mono },
            final(self).max_stereo <= if pt == PortType::StereoAudio && id > old(self).max_stereo { id } else { old(self).max_stereo },
    {
        match pt {
            PortType::MonoAudio => {
                if id > self.max_mono {
                    self.max_mono = id;
                }
            },
            PortType::StereoAudio => {
                if id > self.max_stereo {
                    self.max_stereo = id;
                }
            },
        }
        proof {
            assert forall|pm: PoolModel| #[trigger] self.model(pm) == old(self).model(pm).raise_max(pt, id as int) by {
                assert(self.model(pm) =~= old(self).model(pm).raise_max(pt, id as int));
            }
        }
    }

    /// Append a task.
    fn push_task(&mut self, t: AudioGraphTask)
        ensures
            forall|pm: PoolModel| #[trigger] final(self).model(pm) == (CompileModel {
                tasks: old(self).model(pm).tasks.push(t.model()),
                ..old(self).model(pm)
            }),
            final(self).next_delay_comp_node_id == old(self).next_delay_comp_node_id,
            final(self).next_sum_node_id == old(self).next_sum_node_id,
            final(self).max_mono == old(self).max_mono,
            final(self).max_stereo == old(self).max_stereo,
    {
        let ghost t0 = self.tasks@;
        self.tasks.push(t);
        proof {
            assert(tasks_model(self.tasks@) =~= tasks_model(t0).push(t.model()));
            assert forall|pm: PoolModel| #[trigger] self.model(pm) == (CompileModel {
                tasks: old(self).model(pm).tasks.push(t.model()),
                ..old(self).model(pm)
            }) by {
                assert(self.model(pm) =~= (CompileModel {
                    tasks: old(self).model(pm).tasks.push(t.model()),
                    ..old(self).model(pm)
                }));
            }
        }
    }
}

/// The executable counterpart of `EntryModel`.
pub struct EntryState {
    pub mono_in: ProcBufferList,
    pub mono_out: ProcBufferList,
    pub stereo_in: ProcBufferList,
    pub stereo_out: ProcBufferList,
    pub next_temp_mono: usize,
    pub next_temp_stereo: usize,
}

impl EntryState {
    /// The entry this state stands for.
    pub open spec fn model(&self) -> EntryModel {
        EntryModel {
            mono_in: self.mono_in@,
            mono_out: self.mono_out@,
            stereo_in: self.stereo_in@,
            stereo_out: self.stereo_out@,
            next_temp_mono: self.next_temp_mono as int,
            next_temp_stereo: self.next_temp_stereo as int,
        }
    }

    fn new() -> (r: Self)
        ensures
            r.model() == empty_entry(),
    {
        EntryState {
            mono_in: ProcBufferList::new(),
            mono_out: ProcBufferList::new(),
            stereo_in: ProcBufferList::new(),
            stereo_out: ProcBufferList::new(),
            next_temp_mono: 0,
            next_temp_stereo: 0,
        }
    }

    fn next_temp(&self, pt: PortType) -> (r: usize)
        ensures
            r as int == self.model().next_temp(pt),
    {
        match pt {
            PortType::MonoAudio => self.next_temp_mono,
            PortType::StereoAudio => self.next_temp_stereo,
        }
    }

    fn set_next_temp(&mut self, pt: PortType, n: usize)
        ensures
            final(self).model() == old(self).model().with_next_temp(pt, n as int),
    {
        match pt {
            PortType::MonoAudio => {
                self.next_temp_mono = n;
            },
            PortType::StereoAudio => {
                self.next_temp_stereo = n;
            },
        }
        assert(self.model() =~= old(self).model().with_next_temp(pt, n as int));
    }

    fn push_in(&mut self, pt: PortType, b: ProcBuffer)
        ensures
            final(self).model() == old(self).model().with_ins(pt, old(self).model().ins(pt).push(b)),
    {
        match pt {
            PortType::MonoAudio => self.mono_in.push(b),
            PortType::StereoAudio => self.stereo_in.push(b),
        }
        assert(self.model() =~= old(self).model().with_ins(pt, old(self).model().ins(pt).push(b)));
    }

    fn push_out(&mut self, pt: PortType, b: ProcBuffer)
        ensures
            final(self).model() == old(self).model().with_outs(pt, old(self).model().outs(pt).push(b)),
    {
        match pt {
            PortType::MonoAudio => self.mono_out.push(b),
            PortType::StereoAudio => self.stereo_out.push(b),
        }
        assert(self.model() =~= old(self).model().with_outs(pt, old(self).model().outs(pt).push(b)));
    }
}

// ---------------------------------------------------------------------------
// Executable steps.
// ---------------------------------------------------------------------------

/// An assignment with buffers on ports of type `pt` only.
fn make_assignment(pt: PortType, replacing: ProcBufferList, ins: ProcBufferList, outs: ProcBufferList) -> (r:
    ProcBufferAssignment)
    ensures
        r.model() == assignment_of(pt, replacing@, ins@, outs@),
{
    let r = match pt {
        PortType::MonoAudio => ProcBufferAssignment {
            mono_replacing: replacing,
            indep_mono_in: ins,
            indep_mono_out: outs,
            stereo_replacing: ProcBufferList::new(),
            indep_stereo_in: ProcBufferList::new(),
            indep_stereo_out: ProcBufferList::new(),
        },
        PortType::StereoAudio => ProcBufferAssignment {
            mono_replacing: ProcBufferList::new(),
            indep_mono_in: ProcBufferList::new(),
            indep_mono_out: ProcBufferList::new(),
            stereo_replacing: replacing,
            indep_stereo_in: ins,
            indep_stereo_out: outs,
        },
    };
    assert(r.model() =~= assignment_of(pt, replacing@, ins@, outs@));
    r
}

/// A list holding the single buffer `b` on port 0.
fn single_buffer_list(b: SharedBuffer) -> (r: ProcBufferList)
    ensures
        r@ == seq![ProcBuffer { buffer: b, port_index: 0 }],
{
    let mut l = ProcBufferList::new();
    l.push(ProcBuffer { buffer: b, port_index: 0 });
    assert(l@ =~= seq![ProcBuffer { buffer: b, port_index: 0 }]);
    l
}

/// Use the delay compensation node for `key` (see `use_delay_node`).
fn use_delay_node_exec(
    pool: &mut GraphResourcePool,
    next: &mut u64,
    key: DelayCompNodeKey,
    delay: u32,
    ty: DebugNodeType,
) -> (r: DebugNodeID)
    requires
        old(pool).model().wf(),
        *old(next) < u64::MAX,
    ensures
        ({
            let (nodes, n, id) = use_delay_node(
                old(pool).model().delay_comp_nodes,
                key,
                delay,
                ty,
                *old(next) as int,
            );
            &&& final(pool).model() == (PoolModel { delay_comp_nodes: nodes, ..old(pool).model() })
            &&& *final(next) as int == n
            &&& r == id
        }),
        final(pool).model().wf(),
        *final(next) <= *old(next) + 1,
{
    let ghost s = pool.model().delay_comp_nodes;
    proof {
        crate::resource_pool::lemma_find_key(s, key);
    }
    match pool.find_delay_comp_node(key) {
        Some(j) => {
            let old_node = pool.delay_comp_nodes[j].1;
            if old_node.delay == delay {
                let v = SharedDelayNode { node: old_node.node, delay: old_node.delay, is_in_graph: true };
                pool.delay_comp_nodes.set(j, (key, v));
                proof {
                    crate::resource_pool::lemma_keys_unique_update(s, j as int, v);
                    assert(pool.model() =~= (PoolModel { delay_comp_nodes: s.update(j as int, (key, v)), ..old(pool).model() }));
                }
                old_node.node
            } else {
                let id = DebugNodeID { node_type: ty, index: *next, name: None };
                *next = *next + 1;
                let v = SharedDelayNode { node: id, delay, is_in_graph: true };
                pool.delay_comp_nodes.set(j, (key, v));
                proof {
                    crate::resource_pool::lemma_keys_unique_update(s, j as int, v);
                    assert(pool.model() =~= (PoolModel { delay_comp_nodes: s.update(j as int, (key, v)), ..old(pool).model() }));
                }
                id
            }
        },
        None => {
            let id = DebugNodeID { node_type: ty, index: *next, name: None };
            *next = *next + 1;
            let v = SharedDelayNode { node: id, delay, is_in_graph: true };
            pool.delay_comp_nodes.push((key, v));
            proof {
                crate::resource_pool::lemma_keys_unique_push(s, key, v);
                assert(pool.model() =~= (PoolModel { delay_comp_nodes: s.push((key, v)), ..old(pool).model() }));
            }
            id
        },
    }
}

/// Use the sum node for `key` (see `use_sum_node`).
fn use_sum_node_exec(
    pool: &mut GraphResourcePool,
    next: &mut u64,
    key: SumNodeKey,
    num_inputs: u32,
    ty: DebugNodeType,
) -> (r: DebugNodeID)
    requires
        old(pool).model().wf(),
        *old(next) < u64::MAX,
    ensures
        ({
            let (nodes, n, id) = use_sum_node(
                old(pool).model().sum_nodes,
                key,
                num_inputs,
                ty,
                *old(next) as int,
            );
            &&& final(pool).model() == (PoolModel { sum_nodes: nodes, ..old(pool).model() })
            &&& *final(next) as int == n
            &&& r == id
        }),
        final(pool).model().wf(),
        *final(next) <= *old(next) + 1,
{
    let ghost s = pool.model().sum_nodes;
    proof {
        crate::resource_pool::lemma_find_key(s, key);
    }
    match pool.find_sum_node(key) {
        Some(j) => {
            let old_node = pool.sum_nodes[j].1;
            if old_node.num_inputs == num_inputs {
                let v = SharedSumNode { node: old_node.node, num_inputs: old_node.num_inputs, is_in_graph: true };
                pool.sum_nodes.set(j, (key, v));
                proof {
                    crate::resource_pool::lemma_keys_unique_update(s, j as int, v);
                    assert(pool.model() =~= (PoolModel { sum_nodes: s.update(j as int, (key, v)), ..old(pool).model() }));
                }
                old_node.node
            } else {
                let id = DebugNodeID { node_type: ty, index: *next, name: None };
                *next = *next + 1;
                let v = SharedSumNode { node: id, num_inputs, is_in_graph: true };
                pool.sum_nodes.set(j, (key, v));
                proof {
                    crate::resource_pool::lemma_keys_unique_update(s, j as int, v);
                    assert(pool.model() =~= (PoolModel { sum_nodes: s.update(j as int, (key, v)), ..old(pool).model() }));
                }
                id
            }
        },
        None => {
            let id = DebugNodeID { node_type: ty, index: *next, name: None };
            *next = *next + 1;
            let v = SharedSumNode { node: id, num_inputs, is_in_graph: true };
            pool.sum_nodes.push((key, v));
            proof {
                crate::resource_pool::lemma_keys_unique_push(s, key, v);
                assert(pool.model() =~= (PoolModel { sum_nodes: s.push((key, v)), ..old(pool).model() }));
            }
            id
        },
    }
}

/// `delay_node_type` and `sum_node_type`, executable.
fn node_types(pt: PortType) -> (r: (DebugNodeType, DebugNodeType))
    ensures
        r.0 == delay_node_type(pt),
        r.1 == sum_node_type(pt),
{
    match pt {
        PortType::MonoAudio => (DebugNodeType::MonoDelayComp, DebugNodeType::MonoSum),
        PortType::StereoAudio => (DebugNodeType::StereoDelayComp, DebugNodeType::StereoSum),
    }
}

/// Insert a mono or stereo delay compensation node into the schedule. This
/// returns the index of the temporary buffer that holds the delayed signal.
fn insert_delay_comp_node(
    pool: &mut GraphResourcePool,
    p: &mut CompileProgress,
    e: &mut EntryState,
    pt: PortType,
    dci: DelayCompInfo,
    node: NodeRef,
    port: PortIdent,
    buffer_id: usize,
) -> (r: usize)
    requires
        old(pool).model().wf(),
        buffer_id_ok(buffer_id),
        old(e).model().next_temp(pt) < usize::MAX - 1,
        old(p).next_delay_comp_node_id < u64::MAX,
    ensures
        ({
            let (c, e2, t) = insert_delay_comp(
                old(p).model(old(pool).model()),
                old(e).model(),
                pt,
                dci,
                node,
                port,
                buffer_id as int,
            );
            &&& final(p).model(final(pool).model()) == c
            &&& final(e).model() == e2
            &&& r as int == t
        }),
        final(pool).model().wf(),
        final(p).next_delay_comp_node_id <= old(p).next_delay_comp_node_id + 1,
        final(p).next_sum_node_id == old(p).next_sum_node_id,
        final(p).max_mono == old(p).max_mono,
        final(p).max_stereo == old(p).max_stereo,
{
    let ghost c0 = p.model(pool.model());
    let t = e.next_temp(pt);
    let ghost pool0 = pool.model();
    let delayed = pool.get_temp_buffer(pt, t);
    proof {
        crate::resource_pool::lemma_get_buffer_wf(pool0, temp_type(pt), t as int);
    }
    let ghost c1 = p.model(pool.model());
    assert(c1 =~= c0.get_buffer(temp_type(pt), t as int).0);
    e.set_next_temp(pt, t + 1);
    let key = DelayCompNodeKey {
        src_node_id: dci.source_node.0 as u32,
        src_node_port: dci.source_port,
        dst_node_id: node.0 as u32,
        dst_node_port: port,
    };
    let (ty, _) = node_types(pt);
    let id = use_delay_node_exec(pool, &mut p.next_delay_comp_node_id, key, dci.delay as u32, ty);
    let ghost c2 = p.model(pool.model());
    let ghost pool2 = pool.model();
    let input = pool.get_block_buffer(pt, buffer_id);
    proof {
        crate::resource_pool::lemma_get_buffer_wf(pool2, block_type(pt), buffer_id as int);
    }
    let ghost c3 = p.model(pool.model());
    assert(c3 =~= c2.get_buffer(block_type(pt), buffer_id as int).0);
    let task = AudioGraphTask::Node(
        AudioGraphNodeTask {
            node: id,
            proc_buffer_assignment: make_assignment(
                pt,
                ProcBufferList::new(),
                single_buffer_list(input),
                single_buffer_list(delayed),
            ),
        },
    );
    assert(task.model() =~= delay_task(pt, id, input, delayed));
    p.push_task(task);
    proof {
        let (c, e2, tt) = insert_delay_comp(c0, old(e).model(), pt, dci, node, port, buffer_id as int);
        assert(delay_comp_key(dci, node, port) == key);
        assert(c2 =~= (CompileModel {
            pool: PoolModel { delay_comp_nodes: c2.pool.delay_comp_nodes, ..c1.pool },
            next_delay_comp_node_id: c2.next_delay_comp_node_id,
            ..c1
        }));
        assert(p.model(pool.model()) =~= c);
    }
    t
}

/// The buffer that reaches an input port from `b` (see `input_buffer`).
fn input_buffer_exec(
    pool: &mut GraphResourcePool,
    p: &mut CompileProgress,
    e: &mut EntryState,
    pt: PortType,
    b: ScheduledInputBuffer,
    node: NodeRef,
    port: PortIdent,
) -> (r: SharedBuffer)
    requires
        old(pool).model().wf(),
        buffer_id_ok(b.buffer_id),
        old(e).model().next_temp(pt) < usize::MAX - 1,
        old(p).next_delay_comp_node_id < u64::MAX,
    ensures
        ({
            let (c, e2, buf) = input_buffer(old(p).model(old(pool).model()), old(e).model(), pt, b, node, port);
            &&& final(p).model(final(pool).model()) == c
            &&& final(e).model() == e2
            &&& r == buf
        }),
        final(pool).model().wf(),
        final(p).next_delay_comp_node_id <= old(p).next_delay_comp_node_id + 1,
        final(p).next_sum_node_id == old(p).next_sum_node_id,
        final(p).max_mono == old(p).max_mono,
        final(p).max_stereo == old(p).max_stereo,
        final(e).model().next_temp(pt) <= old(e).model().next_temp(pt) + 1,
{
    match b.delay_comp {
        Some(dci) => {
            let t = insert_delay_comp_node(pool, p, e, pt, dci, node, port, b.buffer_id);
            let ghost c1 = p.model(pool.model());
            let ghost pool1 = pool.model();
            let buf = pool.get_temp_buffer(pt, t);
            proof {
                crate::resource_pool::lemma_get_buffer_wf(pool1, temp_type(pt), t as int);
                assert(p.model(pool.model()) =~= c1.get_buffer(temp_type(pt), t as int).0);
            }
            buf
        },
        None => {
            let ghost c0 = p.model(pool.model());
            let ghost pool0 = pool.model();
            let buf = pool.get_block_buffer(pt, b.buffer_id);
            proof {
                crate::resource_pool::lemma_get_buffer_wf(pool0, block_type(pt), b.buffer_id as int);
                assert(p.model(pool.model()) =~= c0.get_buffer(block_type(pt), b.buffer_id as int).0);
            }
            buf
        },
    }
}

/// One input port of the node `node` (see `input_port`).
fn input_port_exec(
    pool: &mut GraphResourcePool,
    p: &mut CompileProgress,
    e: &mut EntryState,
    node: NodeRef,
    input: &ScheduledInput,
)
    requires
        old(pool).model().wf(),
        input_ids_ok(*input),
        old(e).model().next_temp(input.port.port_type) + input.buffers@.len() <= usize::MAX - 1,
        old(p).next_delay_comp_node_id + input.buffers@.len() <= u64::MAX,
        old(p).next_sum_node_id + input.buffers@.len() <= u64::MAX,
        old(p).max_mono <= usize::MAX - 2,
        old(p).max_stereo <= usize::MAX - 2,
    ensures
        ({
            let (c, e2) = input_port(old(p).model(old(pool).model()), old(e).model(), node, input.port, input.buffers@);
            &&& final(p).model(final(pool).model()) == c
            &&& final(e).model() == e2
        }),
        final(pool).model().wf(),
        final(p).next_delay_comp_node_id <= old(p).next_delay_comp_node_id + input.buffers@.len(),
        final(p).next_sum_node_id <= old(p).next_sum_node_id + input.buffers@.len(),
        final(p).max_mono <= usize::MAX - 2,
        final(p).max_stereo <= usize::MAX - 2,
        final(e).model().next_temp(input.port.port_type) <= old(e).model().next_temp(input.port.port_type) + input.buffers@.len(),
        final(e).model().next_temp_mono <= old(e).model().next_temp_mono + input.buffers@.len(),
        final(e).model().next_temp_stereo <= old(e).model().next_temp_stereo + input.buffers@.len(),
{
    let port = input.port;
    let pt = port.port_type;
    let n = input.buffers.len();
    let ghost c0 = p.model(pool.model());
    let ghost e0 = e.model();
    if n == 1 {
        let b = input.buffers[0];
        assert(buffer_id_ok(input.buffers@[0].buffer_id));
        p.raise_max(pt, b.buffer_id);
        let buf = input_buffer_exec(pool, p, e, pt, b, node, port);
        e.push_in(pt, ProcBuffer { buffer: buf, port_index: port.index as usize });
    } else {
        let num_inputs = n as u32;
        let mut through: Option<SharedBuffer> = None;
        let mut indep = ProcBufferList::new();
        let mut i: usize = 0;
        while i < n
            invariant
                n == input.buffers@.len(),
                i <= n,
                port == input.port,
                pt == port.port_type,
                input_ids_ok(*input),
                pool.model().wf(),
                ({
                    let (c, ee, th, ind) = sum_inputs(c0, e0, pt, node, port, input.buffers@, i as int);
                    &&& p.model(pool.model()) == c
                    &&& e.model() == ee
                    &&& through == th
                    &&& indep@ == ind
                }),
                p.next_delay_comp_node_id <= c0.next_delay_comp_node_id + i,
                c0.next_delay_comp_node_id + n <= u64::MAX,
                p.next_sum_node_id == c0.next_sum_node_id,
                p.max_mono <= usize::MAX - 2,
                p.max_stereo <= usize::MAX - 2,
                e.model().next_temp(pt) <= e0.next_temp(pt) + i,
                e.model().next_temp_mono <= e0.next_temp_mono + i,
                e.model().next_temp_stereo <= e0.next_temp_stereo + i,
                e0.next_temp(pt) + n <= usize::MAX - 1,
            decreases n - i,
        {
            let b = input.buffers[i];
            assert(buffer_id_ok(input.buffers@[i as int].buffer_id));
            let ghost cm_i = p.model(pool.model());
            let ghost em_i = e.model();
            p.raise_max(pt, b.buffer_id);
            let buf = input_buffer_exec(pool, p, e, pt, b, node, port);
            if i == 0 {
                through = Some(buf);
            } else {
                indep.push(ProcBuffer { buffer: buf, port_index: i });
            }
            proof {
                assert(input.buffers@[i as int] == b);
            }
            i = i + 1;
        }
        let ghost c1 = p.model(pool.model());
        match through {
            None => {},
            Some(t) => {
                let key = SumNodeKey { node_id: node.0 as u32, port };
                let (_, sty) = node_types(pt);
                let ghost pool1 = pool.model();
                let id = use_sum_node_exec(pool, &mut p.next_sum_node_id, key, num_inputs, sty);
                let ghost c2 = p.model(pool.model());
                assert(c2 =~= (CompileModel {
                    pool: PoolModel { sum_nodes: c2.pool.sum_nodes, ..c1.pool },
                    next_sum_node_id: c2.next_sum_node_id,
                    ..c1
                }));
                let task = AudioGraphTask::Node(
                    AudioGraphNodeTask {
                        node: id,
                        proc_buffer_assignment: make_assignment(pt, single_buffer_list(t), indep, ProcBufferList::new()),
                    },
                );
                assert(task.model() =~= sum_task(pt, id, t, indep@));
                p.push_task(task);
                e.push_in(pt, ProcBuffer { buffer: t, port_index: port.index as usize });
                proof {
                    let (c, e2) = input_port(c0, e0, node, port, input.buffers@);
                    assert(p.model(pool.model()) =~= c);
                }
            },
        }
    }
}

/// All input ports of `entry` (see `input_ports`).
fn input_ports_exec(pool: &mut GraphResourcePool, p: &mut CompileProgress, e: &mut EntryState, entry: &ScheduledNode)
    requires
        old(pool).model().wf(),
        old(e).model() == empty_entry(),
        entry_ids_ok(*entry),
        entry_buffer_count(*entry) < usize::MAX,
        old(p).next_delay_comp_node_id + entry_buffer_count(*entry) <= u64::MAX,
        old(p).next_sum_node_id + entry_buffer_count(*entry) <= u64::MAX,
        old(p).max_mono <= usize::MAX - 2,
        old(p).max_stereo <= usize::MAX - 2,
    ensures
        ({
            let (c, e2) = input_ports(
                old(p).model(old(pool).model()),
                empty_entry(),
                entry.node,
                entry.inputs@,
                entry.inputs@.len() as int,
            );
            &&& final(p).model(final(pool).model()) == c
            &&& final(e).model() == e2
        }),
        final(pool).model().wf(),
        final(p).next_delay_comp_node_id <= old(p).next_delay_comp_node_id + entry_buffer_count(*entry),
        final(p).next_sum_node_id <= old(p).next_sum_node_id + entry_buffer_count(*entry),
        final(p).max_mono <= usize::MAX - 2,
        final(p).max_stereo <= usize::MAX - 2,
        final(e).model().next_temp_mono <= entry_buffer_count(*entry),
        final(e).model().next_temp_stereo <= entry_buffer_count(*entry),
{
    let ghost c0 = p.model(pool.model());
    let ghost total = entry_buffer_count(*entry);
    let n = entry.inputs.len();
    let mut k: usize = 0;
    while k < n
        invariant
            n == entry.inputs@.len(),
            k <= n,
            entry_ids_ok(*entry),
            total == entry_buffer_count(*entry),
            total < usize::MAX,
            c0.next_delay_comp_node_id + total <= u64::MAX,
            c0.next_sum_node_id + total <= u64::MAX,
            pool.model().wf(),
            ({
                let (c, ee) = input_ports(c0, empty_entry(), entry.node, entry.inputs@, k as int);
                &&& p.model(pool.model()) == c
                &&& e.model() == ee
            }),
            p.next_delay_comp_node_id <= c0.next_delay_comp_node_id + port_buffer_count(entry.inputs@, k as int),
            p.next_sum_node_id <= c0.next_sum_node_id + port_buffer_count(entry.inputs@, k as int),
            p.max_mono <= usize::MAX - 2,
            p.max_stereo <= usize::MAX - 2,
            e.model().next_temp_mono <= port_buffer_count(entry.inputs@, k as int),
            e.model().next_temp_stereo <= port_buffer_count(entry.inputs@, k as int),
        decreases n - k,
    {
        proof {
            lemma_port_buffer_count_monotone(entry.inputs@, k + 1, n as int);
            assert(input_ids_ok(entry.inputs@[k as int]));
        }
        input_port_exec(pool, p, e, entry.node, &entry.inputs[k]);
        k = k + 1;
    }
}

/// All output ports of `entry` (see `output_ports`).
fn output_ports_exec(pool: &mut GraphResourcePool, p: &mut CompileProgress, e: &mut EntryState, entry: &ScheduledNode)
    requires
        old(pool).model().wf(),
        entry_ids_ok(*entry),
        old(p).max_mono <= usize::MAX - 2,
        old(p).max_stereo <= usize::MAX - 2,
    ensures
        ({
            let (c, e2) = output_ports(
                old(p).model(old(pool).model()),
                old(e).model(),
                entry.outputs@,
                entry.outputs@.len() as int,
            );
            &&& final(p).model(final(pool).model()) == c
            &&& final(e).model() == e2
        }),
        final(pool).model().wf(),
        final(p).next_delay_comp_node_id == old(p).next_delay_comp_node_id,
        final(p).next_sum_node_id == old(p).next_sum_node_id,
        final(p).max_mono <= usize::MAX - 2,
        final(p).max_stereo <= usize::MAX - 2,
{
    let ghost c0 = p.model(pool.model());
    let ghost e0 = e.model();
    let n = entry.outputs.len();
    let mut k: usize = 0;
    while k < n
        invariant
            n == entry.outputs@.len(),
            k <= n,
            entry_ids_ok(*entry),
            pool.model().wf(),
            ({
                let (c, ee) = output_ports(c0, e0, entry.outputs@, k as int);
                &&& p.model(pool.model()) == c
                &&& e.model() == ee
            }),
            p.next_delay_comp_node_id == c0.next_delay_comp_node_id,
            p.next_sum_node_id == c0.next_sum_node_id,
            p.max_mono <= usize::MAX - 2,
            p.max_stereo <= usize::MAX - 2,
        decreases n - k,
    {
        let o = entry.outputs[k];
        assert(buffer_id_ok(entry.outputs@[k as int].buffer_id));
        let pt = o.port.port_type;
        p.raise_max(pt, o.buffer_id);
        let ghost c1 = p.model(pool.model());
        let ghost pool1 = pool.model();
        let buf = pool.get_block_buffer(pt, o.buffer_id);
        proof {
            crate::resource_pool::lemma_get_buffer_wf(pool1, block_type(pt), o.buffer_id as int);
            assert(p.model(pool.model()) =~= c1.get_buffer(block_type(pt), o.buffer_id as int).0);
        }
        e.push_out(pt, ProcBuffer { buffer: buf, port_index: o.port.index as usize });
        k = k + 1;
    }
}

/// The position of the first buffer of `list` assigned to port `port_index`.
fn find_port_exec(list: &ProcBufferList, port_index: usize) -> (r: Option<usize>)
    ensures
        match r {
            Some(j) => j as int == find_port(list@, port_index as int) && j < list@.len(),
            None => find_port(list@, port_index as int) == -1,
        },
{
    let n = list.len();
    let mut j: usize = 0;
    while j < n
        invariant
            n == list@.len(),
            j <= n,
            find_port(list@, port_index as int) == find_port_from(list@, port_index as int, j as int),
        decreases n - j,
    {
        if list.get(j).port_index == port_index {
            return Some(j);
        }
        j = j + 1;
    }
    None
}

/// Serve the "process replacing" ports `0..num_ports` (see `mimic_replacing`).
fn mimic_replacing_exec(ins: &mut ProcBufferList, outs: &mut ProcBufferList, num_ports: u32) -> (r: (
    ProcBufferList,
    BufferPairList,
    BufferList,
))
    ensures
        ({
            let m = mimic_replacing(old(ins)@, old(outs)@, num_ports as int);
            &&& final(ins)@ == m.ins
            &&& final(outs)@ == m.outs
            &&& r.0@ == m.replacing
            &&& r.1@ == m.copies
            &&& r.2@ == m.clears
        }),
{
    let ghost ins0 = ins@;
    let ghost outs0 = outs@;
    let mut replacing = ProcBufferList::new();
    let mut copies = BufferPairList::new();
    let mut clears = BufferList::new();
    let n = num_ports as usize;
    let mut i: usize = 0;
    while i < n
        invariant
            n == num_ports as int,
            i <= n,
            ({
                let m = mimic_replacing(ins0, outs0, i as int);
                &&& ins@ == m.ins
                &&& outs@ == m.outs
                &&& replacing@ == m.replacing
                &&& copies@ == m.copies
                &&& clears@ == m.clears
            }),
        decreases n - i,
    {
        let in_buffer_i = find_port_exec(ins, i);
        let out_buffer_i = find_port_exec(outs, i);
        match out_buffer_i {
            Some(out_i) => {
                match in_buffer_i {
                    Some(in_i) => {
                        let in_buffer = ins.remove(in_i);
                        let out_buffer = outs.remove(out_i);
                        copies.push((in_buffer.buffer, out_buffer.buffer));
                        replacing.push(out_buffer);
                    },
                    None => {
                        let out_buffer = outs.remove(out_i);
                        clears.push(out_buffer.buffer);
                        replacing.push(out_buffer);
                    },
                }
            },
            None => {
                if let Some(in_i) = in_buffer_i {
                    let in_buffer = ins.remove(in_i);
                    replacing.push(in_buffer);
                }
            },
        }
        i = i + 1;
    }
    (replacing, copies, clears)
}

/// The tasks of the user node of an entry (see `finish_entry`).
fn finish_entry_exec(pool: &GraphResourcePool, p: &mut CompileProgress, e: EntryState, user: SharedUserNode, is_root: bool)
    requires
        pool.model().wf(),
    ensures
        final(p).model(pool.model()) == finish_entry(old(p).model(pool.model()), e.model(), user, is_root),
        final(p).next_delay_comp_node_id == old(p).next_delay_comp_node_id,
        final(p).next_sum_node_id == old(p).next_sum_node_id,
        final(p).max_mono == old(p).max_mono,
        final(p).max_stereo == old(p).max_stereo,
{
    let ghost c0 = p.model(pool.model());
    let ghost em = e.model();
    let EntryState { mut mono_in, mut mono_out, mut stereo_in, mut stereo_out, .. } = e;
    let root = pool.root_output_buffer;
    if is_root {
        stereo_out.push(ProcBuffer { buffer: root, port_index: 0 });
        p.root_out = Some(root);
    }
    let ghost c1 = p.model(pool.model());
    assert(c1 =~= CompileModel { root_out: if is_root { Some(root) } else { c0.root_out }, ..c0 });
    let (mono_replacing, copy_mono, clear_mono) = mimic_replacing_exec(
        &mut mono_in,
        &mut mono_out,
        user.num_mono_replacing_ports,
    );
    let (stereo_replacing, copy_stereo, clear_stereo) = mimic_replacing_exec(
        &mut stereo_in,
        &mut stereo_out,
        user.num_stereo_replacing_ports,
    );
    let ghost pm = pool.model();
    if clear_mono.len() > 0 {
        p.push_task(AudioGraphTask::MimicProcessReplacing(MimicProcessReplacingTask::ClearMonoBuffers(clear_mono)));
    }
    if clear_stereo.len() > 0 {
        p.push_task(AudioGraphTask::MimicProcessReplacing(MimicProcessReplacingTask::ClearStereoBuffers(clear_stereo)));
    }
    if copy_mono.len() > 0 {
        p.push_task(AudioGraphTask::MimicProcessReplacing(MimicProcessReplacingTask::CopyMonoBuffers(copy_mono)));
    }
    if copy_stereo.len() > 0 {
        p.push_task(AudioGraphTask::MimicProcessReplacing(MimicProcessReplacingTask::CopyStereoBuffers(copy_stereo)));
    }
    let task = AudioGraphTask::Node(
        AudioGraphNodeTask {
            node: user.node,
            proc_buffer_assignment: ProcBufferAssignment {
                mono_replacing,
                indep_mono_in: mono_in,
                indep_mono_out: mono_out,
                stereo_replacing,
                indep_stereo_in: stereo_in,
                indep_stereo_out: stereo_out,
            },
        },
    );
    p.push_task(task);
    proof {
        let target = finish_entry(c0, em, user, is_root);
        assert(p.model(pool.model()).tasks =~= target.tasks);
        assert(p.model(pool.model()) =~= target);
    }
}

/// One entry of the schedule (see `entry_step`).
fn entry_step_exec(pool: &mut GraphResourcePool, p: &mut CompileProgress, entry: &ScheduledNode, root: NodeRef) -> (r:
    Option<CompilerError>)
    requires
        old(pool).model().wf(),
        entry_ids_ok(*entry),
        entry_buffer_count(*entry) < usize::MAX,
        old(p).next_delay_comp_node_id + entry_buffer_count(*entry) <= u64::MAX,
        old(p).next_sum_node_id + entry_buffer_count(*entry) <= u64::MAX,
        old(p).max_mono <= usize::MAX - 2,
        old(p).max_stereo <= usize::MAX - 2,
    ensures
        ({
            let (c, err) = entry_step(old(p).model(old(pool).model()), *entry, root);
            &&& final(p).model(final(pool).model()) == c
            &&& r == err
        }),
        final(pool).model().wf(),
        final(p).next_delay_comp_node_id <= old(p).next_delay_comp_node_id + entry_buffer_count(*entry),
        final(p).next_sum_node_id <= old(p).next_sum_node_id + entry_buffer_count(*entry),
        final(p).max_mono <= usize::MAX - 2,
        final(p).max_stereo <= usize::MAX - 2,
{
    let ghost c0 = p.model(pool.model());
    let mut e = EntryState::new();
    input_ports_exec(pool, p, &mut e, entry);
    output_ports_exec(pool, p, &mut e, entry);
    let ghost c2 = p.model(pool.model());
    if e.next_temp_mono != 0 {
        if e.next_temp_mono - 1 > p.max_temp_mono {
            p.max_temp_mono = e.next_temp_mono - 1;
        }
    }
    if e.next_temp_stereo != 0 {
        if e.next_temp_stereo - 1 > p.max_temp_stereo {
            p.max_temp_stereo = e.next_temp_stereo - 1;
        }
    }
    assert(p.model(pool.model()) =~= c2.raise_temp_max(e.model()));
    let index = entry.node.index();
    let found = if index < pool.user_nodes.len() {
        pool.user_nodes[index]
    } else {
        None
    };
    match found {
        Some(user) => {
            finish_entry_exec(pool, p, e, user, entry.node == root);
            None
        },
        None => Some(CompilerError::UserNodeDoesNotExist(index)),
    }
}

// ---------------------------------------------------------------------------
// The whole compilation.
// ---------------------------------------------------------------------------

/// The pool with every delay compensation and sum node flagged as unused.
pub open spec fn flagged_pool(pool: PoolModel) -> PoolModel {
    PoolModel {
        delay_comp_nodes: pool.delay_comp_nodes.map_values(
            |p: (DelayCompNodeKey, SharedDelayNode)| crate::resource_pool::unflag_delay(p),
        ),
        sum_nodes: pool.sum_nodes.map_values(|p: (SumNodeKey, SharedSumNode)| crate::resource_pool::unflag_sum(p)),
        ..pool
    }
}

/// The pool with the delay compensation and sum nodes that are not flagged as
/// in the graph dropped.
pub open spec fn unused_dropped(pool: PoolModel) -> PoolModel {
    PoolModel {
        delay_comp_nodes: pool.delay_comp_nodes.filter(
            |p: (DelayCompNodeKey, SharedDelayNode)| crate::resource_pool::delay_in_graph(p),
        ),
        sum_nodes: pool.sum_nodes.filter(|p: (SumNodeKey, SharedSumNode)| crate::resource_pool::sum_in_graph(p)),
        ..pool
    }
}

/// `s` cut down to the buffers `0..=max`.
pub open spec fn shrink_to_max(s: Seq<crate::resource_pool::DebugBufferID>, max: int) -> Seq<
    crate::resource_pool::DebugBufferID,
> {
    if s.len() > max {
        crate::resource_pool::shrunk_buffers(s, s.len() - (max + 1))
    } else {
        s
    }
}

/// The pool with the buffers that the schedule does not use removed.
pub open spec fn unused_buffers_removed(c: CompileModel) -> CompileModel {
    CompileModel {
        pool: PoolModel {
            mono_block_buffers: shrink_to_max(c.pool.mono_block_buffers, c.max_mono),
            stereo_block_buffers: shrink_to_max(c.pool.stereo_block_buffers, c.max_stereo),
            temp_mono_block_buffers: shrink_to_max(c.pool.temp_mono_block_buffers, c.max_temp_mono),
            temp_stereo_block_buffers: shrink_to_max(c.pool.temp_stereo_block_buffers, c.max_temp_stereo),
            ..c.pool
        },
        ..c
    }
}

/// The state a compilation starts from.
pub open spec fn initial_compile(pool: PoolModel, next_delay: int, next_sum: int) -> CompileModel {
    CompileModel {
        pool: flagged_pool(pool),
        next_delay_comp_node_id: next_delay,
        next_sum_node_id: next_sum,
        max_mono: 0,
        max_stereo: 0,
        max_temp_mono: 0,
        max_temp_stereo: 0,
        tasks: Seq::empty(),
        root_out: None,
    }
}

/// What compiling `entries` does: the state afterwards, and either the tasks
/// of the schedule with its root output buffer and warning, or the error.
pub open spec fn compile_spec(
    pool: PoolModel,
    next_delay: int,
    next_sum: int,
    entries: Seq<ScheduledNode>,
    root: NodeRef,
) -> (CompileModel, Result<(Seq<TaskModel>, SharedBuffer, Option<CompilerWarning>), CompilerError>) {
    let (c1, err) = entry_steps(initial_compile(pool, next_delay, next_sum), entries, root, entries.len() as int);
    match err {
        Some(e) => (c1, Err(e)),
        None => {
            let (c2, root_buf, warning) = match c1.root_out {
                Some(b) => (c1, b, None),
                None => {
                    let m = c1.max_stereo + 1;
                    let (c, b) = CompileModel { max_stereo: m, ..c1 }.get_buffer(DebugBufferType::StereoBlock, m);
                    (c, b, Some(CompilerWarning::NothingConnectedToRoot))
                },
            };
            let c3 = unused_buffers_removed(c2);
            match crate::schedule_verifier::verify_spec(c3.tasks) {
                Err(e) => (c3, Err(e)),
                Ok(_) => (CompileModel { pool: unused_dropped(c3.pool), ..c3 }, Ok((c3.tasks, root_buf, warning))),
            }
        },
    }
}

/// Run the entries of the schedule in order, stopping at the first error.
fn compile_entries(pool: &mut GraphResourcePool, p: &mut CompileProgress, schedule: &Vec<ScheduledNode>, root: NodeRef) -> (r:
    Option<CompilerError>)
    requires
        old(pool).model().wf(),
        schedule_ok(schedule@),
        old(p).next_delay_comp_node_id + schedule_buffer_count(schedule@, schedule@.len() as int) <= u64::MAX,
        old(p).next_sum_node_id + schedule_buffer_count(schedule@, schedule@.len() as int) <= u64::MAX,
        old(p).max_mono <= usize::MAX - 2,
        old(p).max_stereo <= usize::MAX - 2,
    ensures
        ({
            let (c, err) = entry_steps(old(p).model(old(pool).model()), schedule@, root, schedule@.len() as int);
            &&& final(p).model(final(pool).model()) == c
            &&& r == err
        }),
        final(pool).model().wf(),
        final(p).max_mono <= usize::MAX - 2,
        final(p).max_stereo <= usize::MAX - 2,
{
    let ghost c0 = p.model(pool.model());
    let ghost entries = schedule@;
    let ghost total = schedule_buffer_count(entries, entries.len() as int);
    let n = schedule.len();
    let mut k: usize = 0;
    while k < n
        invariant
            n == entries.len(),
            entries == schedule@,
            k <= n,
            schedule_ok(entries),
            total == schedule_buffer_count(entries, n as int),
            c0 == old(p).model(old(pool).model()),
            c0.next_delay_comp_node_id + total <= u64::MAX,
            c0.next_sum_node_id + total <= u64::MAX,
            pool.model().wf(),
            ({
                let (c, err) = entry_steps(c0, entries, root, k as int);
                &&& p.model(pool.model()) == c
                &&& err is None
            }),
            p.next_delay_comp_node_id <= c0.next_delay_comp_node_id + schedule_buffer_count(entries, k as int),
            p.next_sum_node_id <= c0.next_sum_node_id + schedule_buffer_count(entries, k as int),
            p.max_mono <= usize::MAX - 2,
            p.max_stereo <= usize::MAX - 2,
        decreases n - k,
    {
        proof {
            lemma_schedule_buffer_count_monotone(entries, k + 1, n as int);
            assert(entry_ids_ok(entries[k as int]));
            assert(entry_buffer_count(entries[k as int]) < usize::MAX);
        }
        let err = entry_step_exec(pool, p, &schedule[k], root);
        if let Some(e) = err {
            proof {
                lemma_entry_steps_stop(c0, entries, root, k + 1, n as int);
            }
            return Some(e);
        }
        k = k + 1;
    }
    None
}

/// The root output buffer of the schedule: the one the root node writes, or,
/// when the root node is not in the schedule, a fresh stereo buffer of
/// silence, with a warning.
fn root_out_or_silence(pool: &mut GraphResourcePool, p: &mut CompileProgress) -> (r: (SharedBuffer, Option<CompilerWarning>))
    requires
        old(pool).model().wf(),
        old(p).max_stereo <= usize::MAX - 2,
    ensures
        ({
            let c1 = old(p).model(old(pool).model());
            let (c2, root_buf, warning) = match c1.root_out {
                Some(b) => (c1, b, None),
                None => {
                    let m = c1.max_stereo + 1;
                    let (c, b) = CompileModel { max_stereo: m, ..c1 }.get_buffer(DebugBufferType::StereoBlock, m);
                    (c, b, Some(CompilerWarning::NothingConnectedToRoot))
                },
            };
            &&& final(p).model(final(pool).model()) == c2
            &&& r == (root_buf, warning)
        }),
        final(pool).model().wf(),
        final(p).tasks == old(p).tasks,
{
    match p.root_out {
        Some(buffer) => (buffer, None),
        None => {
            let ghost c1 = p.model(pool.model());
            p.max_stereo = p.max_stereo + 1;
            let ghost pool1 = pool.model();
            let b = pool.get_stereo_audio_block_buffer(p.max_stereo);
            proof {
                crate::resource_pool::lemma_get_buffer_wf(pool1, DebugBufferType::StereoBlock, p.max_stereo as int);
                let m = c1.max_stereo + 1;
                assert(p.model(pool.model()) =~= CompileModel { max_stereo: m, ..c1 }.get_buffer(DebugBufferType::StereoBlock, m).0);
            }
            (b, Some(CompilerWarning::NothingConnectedToRoot))
        },
    }
}

/// Remove the buffers past the highest one the schedule uses, of each type.
fn remove_unused_buffers(pool: &mut GraphResourcePool, p: &CompileProgress)
    requires
        old(pool).model().wf(),
    ensures
        p.model(final(pool).model()) == unused_buffers_removed(p.model(old(pool).model())),
        final(pool).model().wf(),
{
    let ghost c2 = p.model(pool.model());
    if pool.mono_block_buffers.len() > p.max_mono {
        let n_remove = pool.mono_block_buffers.len() - (p.max_mono + 1);
        pool.remove_mono_block_buffers(n_remove);
    }
    if pool.stereo_block_buffers.len() > p.max_stereo {
        let n_remove = pool.stereo_block_buffers.len() - (p.max_stereo + 1);
        pool.remove_stereo_block_buffers(n_remove);
    }
    if pool.temp_mono_block_buffers.len() > p.max_temp_mono {
        let n_remove = pool.temp_mono_block_buffers.len() - (p.max_temp_mono + 1);
        pool.remove_temp_mono_block_buffers(n_remove);
    }
    if pool.temp_stereo_block_buffers.len() > p.max_temp_stereo {
        let n_remove = pool.temp_stereo_block_buffers.len() - (p.max_temp_stereo + 1);
        pool.remove_temp_stereo_block_buffers(n_remove);
    }
    let ghost c3 = p.model(pool.model());
    proof {
        assert(c3 =~= unused_buffers_removed(c2));
        crate::resource_pool::lemma_shrink_wf(c2.pool, c3.pool);
    }
}

/// Compile the graph's schedule `schedule` into the tasks that the realtime
/// thread runs, reusing the delay compensation and sum nodes and the buffers
/// of earlier compilations where possible.
///
/// On success the schedule comes with a warning when nothing is connected to
/// the root node (the output is then silence). An error leaves the pool as far
/// as the compilation got, for the caller to revert to its previous state.
pub fn compile_graph(graph: &mut GraphInterface, schedule: &Vec<ScheduledNode>) -> (r: Result<
    (Schedule, Option<CompilerWarning>),
    CompilerError,
>)
    requires
        old(graph).resource_pool.model().wf(),
        schedule_ok(schedule@),
        old(graph).next_delay_comp_node_id + schedule_buffer_count(schedule@, schedule@.len() as int) <= u64::MAX,
        old(graph).next_sum_node_id + schedule_buffer_count(schedule@, schedule@.len() as int) <= u64::MAX,
    ensures
        ({
            let (c, res) = compile_spec(
                old(graph).resource_pool.model(),
                old(graph).next_delay_comp_node_id as int,
                old(graph).next_sum_node_id as int,
                schedule@,
                old(graph).root_node_ref,
            );
            &&& final(graph).resource_pool.model() == c.pool
            &&& final(graph).next_delay_comp_node_id as int == c.next_delay_comp_node_id
            &&& final(graph).next_sum_node_id as int == c.next_sum_node_id
            &&& final(graph).root_node_ref == old(graph).root_node_ref
            &&& match r {
                Ok((s, w)) => res == Ok::<_, CompilerError>((tasks_model(s.tasks@), s.root_out_buffer, w)),
                Err(e) => res == Err::<(Seq<TaskModel>, SharedBuffer, Option<CompilerWarning>), _>(e),
            }
        }),
        final(graph).resource_pool.model().wf(),
        user_kinds_ok(old(graph).resource_pool.model()) && inserted_kinds_ok(old(graph).resource_pool.model())
            ==> user_kinds_ok(final(graph).resource_pool.model()) && inserted_kinds_ok(
            final(graph).resource_pool.model(),
        ),
{
    let ghost pool0 = graph.resource_pool.model();
    let root = graph.root_node_ref;
    proof {
        if user_kinds_ok(pool0) && inserted_kinds_ok(pool0) {
            lemma_compile_keeps_kinds(
                pool0,
                graph.next_delay_comp_node_id as int,
                graph.next_sum_node_id as int,
                schedule@,
                root,
            );
        }
    }

    // Flag all delay comp and sum nodes as unused so we can detect which ones
    // should be removed later.
    graph.resource_pool.flag_unused();
    proof {
        lemma_flagged_wf(pool0);
        assert(graph.resource_pool.model() =~= flagged_pool(pool0));
    }

    let mut p = CompileProgress {
        next_delay_comp_node_id: graph.next_delay_comp_node_id,
        next_sum_node_id: graph.next_sum_node_id,
        max_mono: 0,
        max_stereo: 0,
        max_temp_mono: 0,
        max_temp_stereo: 0,
        tasks: Vec::new(),
        root_out: None,
    };
    let ghost c0 = p.model(graph.resource_pool.model());
    assert(c0 =~= initial_compile(pool0, graph.next_delay_comp_node_id as int, graph.next_sum_node_id as int));

    let err = compile_entries(&mut graph.resource_pool, &mut p, schedule, root);
    if let Some(e) = err {
        graph.next_delay_comp_node_id = p.next_delay_comp_node_id;
        graph.next_sum_node_id = p.next_sum_node_id;
        return Err(e);
    }

    let (root_out_buffer, status) = root_out_or_silence(&mut graph.resource_pool, &mut p);

    // Remove buffers that are no longer needed.
    remove_unused_buffers(&mut graph.resource_pool, &p);

    graph.next_delay_comp_node_id = p.next_delay_comp_node_id;
    graph.next_sum_node_id = p.next_sum_node_id;

    if let Err(e) = graph.verifier.verify_no_data_races(&p.tasks) {
        return Err(e);
    }

    // Remove delay comp and sum nodes that are no longer needed.
    let ghost pool3 = graph.resource_pool.model();
    graph.resource_pool.drop_unused();
    proof {
        assert(graph.resource_pool.model() =~= unused_dropped(pool3));
        crate::resource_pool::lemma_filter_keys_unique(
            pool3.delay_comp_nodes,
            |p: (DelayCompNodeKey, SharedDelayNode)| crate::resource_pool::delay_in_graph(p),
        );
        crate::resource_pool::lemma_filter_keys_unique(
            pool3.sum_nodes,
            |p: (SumNodeKey, SharedSumNode)| crate::resource_pool::sum_in_graph(p),
        );
    }

    Ok((Schedule { tasks: p.tasks, root_out_buffer }, status))
}

/// Flagging every inserted node as unused keeps the pool well-formed.
pub proof fn lemma_flagged_wf(pool: PoolModel)
    requires
        pool.wf(),
    ensures
        flagged_pool(pool).wf(),
{
    let q = flagged_pool(pool);
    assert forall|i: int, j: int| 0 <= i < j < q.delay_comp_nodes.len() implies q.delay_comp_nodes[i].0
        != q.delay_comp_nodes[j].0 by {
        assert(pool.delay_comp_nodes[i].0 != pool.delay_comp_nodes[j].0);
    }
    assert forall|i: int, j: int| 0 <= i < j < q.sum_nodes.len() implies q.sum_nodes[i].0 != q.sum_nodes[j].0 by {
        assert(pool.sum_nodes[i].0 != pool.sum_nodes[j].0);
    }
}

/// Once an entry fails, later entries change nothing.
pub proof fn lemma_entry_steps_stop(c: CompileModel, entries: Seq<ScheduledNode>, root: NodeRef, k: int, n: int)
    requires
        0 <= k <= n,
        entry_steps(c, entries, root, k).1 is Some,
    ensures
        entry_steps(c, entries, root, n) == entry_steps(c, entries, root, k),
    decreases n - k,
{
    if k < n {
        lemma_entry_steps_stop(c, entries, root, k, n - 1);
    }
}

// ---------------------------------------------------------------------------
// Laws of a compilation.
// ---------------------------------------------------------------------------

/// What a compilation step keeps: the user nodes and the root output buffer.
pub open spec fn keeps_fixed_parts(c: CompileModel, d: CompileModel) -> bool {
    &&& d.pool.user_nodes == c.pool.user_nodes
    &&& d.pool.root_output_buffer == c.pool.root_output_buffer
}

/// Gathering one input buffer keeps the user nodes, the root output buffer
/// and the root node's output.
pub proof fn lemma_input_buffer_keeps(
    c: CompileModel,
    e: EntryModel,
    pt: PortType,
    b: ScheduledInputBuffer,
    node: NodeRef,
    port: PortIdent,
)
    ensures
        keeps_fixed_parts(c, input_buffer(c, e, pt, b, node, port).0),
        input_buffer(c, e, pt, b, node, port).0.root_out == c.root_out,
{
}

/// Summing the buffers of one input port keeps the user nodes, the root
/// output buffer and the root node's output.
pub proof fn lemma_sum_inputs_keeps(
    c: CompileModel,
    e: EntryModel,
    pt: PortType,
    node: NodeRef,
    port: PortIdent,
    bufs: Seq<ScheduledInputBuffer>,
    n: int,
)
    ensures
        keeps_fixed_parts(c, sum_inputs(c, e, pt, node, port, bufs, n).0),
        sum_inputs(c, e, pt, node, port, bufs, n).0.root_out == c.root_out,
    decreases n,
{
    if n > 0 {
        lemma_sum_inputs_keeps(c, e, pt, node, port, bufs, n - 1);
        let (c1, e1, through, indep) = sum_inputs(c, e, pt, node, port, bufs, n - 1);
        let b = bufs[n - 1];
        lemma_input_buffer_keeps(c1.raise_max(pt, b.buffer_id as int), e1, pt, b, node, port);
    }
}

/// Gathering the input ports of an entry keeps the user nodes, the root
/// output buffer and the root node's output.
pub proof fn lemma_input_ports_keep(c: CompileModel, e: EntryModel, node: NodeRef, inputs: Seq<ScheduledInput>, n: int)
    ensures
        keeps_fixed_parts(c, input_ports(c, e, node, inputs, n).0),
        input_ports(c, e, node, inputs, n).0.root_out == c.root_out,
    decreases n,
{
    if n > 0 {
        lemma_input_ports_keep(c, e, node, inputs, n - 1);
        let (c1, e1) = input_ports(c, e, node, inputs, n - 1);
        let port = inputs[n - 1].port;
        let bufs = inputs[n - 1].buffers@;
        let pt = port.port_type;
        if bufs.len() == 1 {
            lemma_input_buffer_keeps(c1.raise_max(pt, bufs[0].buffer_id as int), e1, pt, bufs[0], node, port);
        } else {
            lemma_sum_inputs_keeps(c1, e1, pt, node, port, bufs, bufs.len() as int);
        }
    }
}

/// Gathering the output ports of an entry keeps the user nodes, the root
/// output buffer and the root node's output.
pub proof fn lemma_output_ports_keep(c: CompileModel, e: EntryModel, outputs: Seq<ScheduledOutput>, n: int)
    ensures
        keeps_fixed_parts(c, output_ports(c, e, outputs, n).0),
        output_ports(c, e, outputs, n).0.root_out == c.root_out,
    decreases n,
{
    if n > 0 {
        lemma_output_ports_keep(c, e, outputs, n - 1);
    }
}

/// The user node of an entry exists in the pool.
pub open spec fn user_node_exists(users: Seq<Option<SharedUserNode>>, node: NodeRef) -> bool {
    node.0 < users.len() && users[node.0 as int] is Some
}

/// One entry step keeps the user nodes and the root output buffer; it fails
/// exactly when the entry's node is not a user node; and the root output
/// buffer becomes the schedule's root output exactly when the entry is the
/// root node.
pub proof fn lemma_entry_step_facts(c: CompileModel, entry: ScheduledNode, root: NodeRef)
    ensures
        keeps_fixed_parts(c, entry_step(c, entry, root).0),
        entry_step(c, entry, root).1 is Some <==> !user_node_exists(c.pool.user_nodes, entry.node),
        entry_step(c, entry, root).1 is Some ==> entry_step(c, entry, root).1 == Some(
            CompilerError::UserNodeDoesNotExist(entry.node.0),
        ),
        entry_step(c, entry, root).1 is None ==> entry_step(c, entry, root).0.root_out == if entry.node == root {
            Some(c.pool.root_output_buffer)
        } else {
            c.root_out
        },
{
    let (c1, e1) = input_ports(c, empty_entry(), entry.node, entry.inputs@, entry.inputs@.len() as int);
    lemma_input_ports_keep(c, empty_entry(), entry.node, entry.inputs@, entry.inputs@.len() as int);
    let (c2, e2) = output_ports(c1, e1, entry.outputs@, entry.outputs@.len() as int);
    lemma_output_ports_keep(c1, e1, entry.outputs@, entry.outputs@.len() as int);
}

/// The first `n` entry steps keep the user nodes and the root output buffer;
/// they fail exactly when one of those entries' nodes is not a user node, with
/// the first such node; and without failure the schedule has a root output
/// exactly when one of those entries is the root node.
pub proof fn lemma_entry_steps_facts(c: CompileModel, entries: Seq<ScheduledNode>, root: NodeRef, n: int)
    requires
        0 <= n <= entries.len(),
        c.root_out is None,
    ensures
        keeps_fixed_parts(c, entry_steps(c, entries, root, n).0),
        (forall|k: int| 0 <= k < n ==> user_node_exists(c.pool.user_nodes, #[trigger] entries[k].node))
            ==> entry_steps(c, entries, root, n).1 is None,
        forall|k: int|
            0 <= k < n && !user_node_exists(c.pool.user_nodes, #[trigger] entries[k].node) && (forall|j: int|
                0 <= j < k ==> user_node_exists(c.pool.user_nodes, #[trigger] entries[j].node)) ==> entry_steps(
                c,
                entries,
                root,
                n,
            ).1 == Some(CompilerError::UserNodeDoesNotExist(entries[k].node.0)),
        entry_steps(c, entries, root, n).1 is None ==> (entry_steps(c, entries, root, n).0.root_out is Some
            <==> exists|k: int| 0 <= k < n && #[trigger] entries[k].node == root),
        entry_steps(c, entries, root, n).1 is None ==> (entry_steps(c, entries, root, n).0.root_out is Some
            ==> entry_steps(c, entries, root, n).0.root_out == Some(c.pool.root_output_buffer)),
    decreases n,
{
    if n > 0 {
        lemma_entry_steps_facts(c, entries, root, n - 1);
        let (c1, err) = entry_steps(c, entries, root, n - 1);
        if err is None {
            lemma_entry_step_facts(c1, entries[n - 1], root);
            let (c2, err2) = entry_step(c1, entries[n - 1], root);
            if err2 is None {
                if c2.root_out is Some {
                    if entries[n - 1].node != root {
                        let k = choose|k: int| 0 <= k < n - 1 && #[trigger] entries[k].node == root;
                        assert(entries[k].node == root);
                    }
                } else {
                    assert forall|k: int| 0 <= k < n implies #[trigger] entries[k].node != root by {
                        if k < n - 1 {
                        }
                    }
                }
            }
            assert forall|k: int|
                0 <= k < n && !user_node_exists(c.pool.user_nodes, #[trigger] entries[k].node) && (forall|j: int|
                    0 <= j < k ==> user_node_exists(c.pool.user_nodes, #[trigger] entries[j].node)) implies entry_steps(
                c,
                entries,
                root,
                n,
            ).1 == Some(CompilerError::UserNodeDoesNotExist(entries[k].node.0)) by {
                if k < n - 1 {
                    assert(err == Some(CompilerError::UserNodeDoesNotExist(entries[k].node.0)));
                }
            }
        } else {
            assert forall|k: int|
                0 <= k < n && !user_node_exists(c.pool.user_nodes, #[trigger] entries[k].node) && (forall|j: int|
                    0 <= j < k ==> user_node_exists(c.pool.user_nodes, #[trigger] entries[j].node)) implies entry_steps(
                c,
                entries,
                root,
                n,
            ).1 == Some(CompilerError::UserNodeDoesNotExist(entries[k].node.0)) by {
                if k == n - 1 {
                    assert(forall|j: int| 0 <= j < n - 1 ==> user_node_exists(c.pool.user_nodes, #[trigger] entries[j].node));
                    assert(false);
                }
            }
        }
    }
}

/// A schedule that compiles has no data races: no node runs twice, no node
/// task uses a buffer twice, and no buffer is copied onto itself.
pub proof fn lemma_compiled_schedule_is_race_free(
    pool: PoolModel,
    next_delay: int,
    next_sum: int,
    entries: Seq<ScheduledNode>,
    root: NodeRef,
)
    ensures
        compile_spec(pool, next_delay, next_sum, entries, root).1 matches Ok((tasks, _, _)) ==> crate::schedule_verifier::no_data_races(tasks),
{
    let (c1, err) = entry_steps(initial_compile(pool, next_delay, next_sum), entries, root, entries.len() as int);
    if err is None {
        let (c2, root_buf, warning) = match c1.root_out {
            Some(b) => (c1, b, None),
            None => {
                let m = c1.max_stereo + 1;
                let (c, b) = CompileModel { max_stereo: m, ..c1 }.get_buffer(DebugBufferType::StereoBlock, m);
                (c, b, Some(CompilerWarning::NothingConnectedToRoot))
            },
        };
        crate::schedule_verifier::lemma_verifier_accepts_iff_race_free(unused_buffers_removed(c2).tasks);
    }
}

/// Compiling fails with `UserNodeDoesNotExist` for the first entry of the
/// schedule whose node is not a user node of the pool, and never for that
/// reason when every entry's node is one.
pub proof fn lemma_compile_missing_user_node(
    pool: PoolModel,
    next_delay: int,
    next_sum: int,
    entries: Seq<ScheduledNode>,
    root: NodeRef,
)
    ensures
        (forall|k: int| 0 <= k < entries.len() ==> user_node_exists(pool.user_nodes, #[trigger] entries[k].node))
            ==> !(compile_spec(pool, next_delay, next_sum, entries, root).1 matches Err(
            CompilerError::UserNodeDoesNotExist(_),
        )),
        forall|k: int|
            0 <= k < entries.len() && !user_node_exists(pool.user_nodes, #[trigger] entries[k].node) && (forall|j: int|
                0 <= j < k ==> user_node_exists(pool.user_nodes, #[trigger] entries[j].node)) ==> compile_spec(
                pool,
                next_delay,
                next_sum,
                entries,
                root,
            ).1 == Err::<(Seq<TaskModel>, SharedBuffer, Option<CompilerWarning>), _>(
                CompilerError::UserNodeDoesNotExist(entries[k].node.0),
            ),
{
    let c0 = initial_compile(pool, next_delay, next_sum);
    assert(c0.pool.user_nodes == pool.user_nodes);
    lemma_entry_steps_facts(c0, entries, root, entries.len() as int);
    let (c1, err) = entry_steps(c0, entries, root, entries.len() as int);
    if err is None {
        let (c2, root_buf, warning) = match c1.root_out {
            Some(b) => (c1, b, None),
            None => {
                let m = c1.max_stereo + 1;
                let (c, b) = CompileModel { max_stereo: m, ..c1 }.get_buffer(DebugBufferType::StereoBlock, m);
                (c, b, Some(CompilerWarning::NothingConnectedToRoot))
            },
        };
        crate::schedule_verifier::lemma_verify_from_errors(unused_buffers_removed(c2).tasks, 0, Seq::empty());
    }
}

/// A compiled schedule comes with the warning `NothingConnectedToRoot`
/// exactly when the root node is not in the graph's schedule; without the
/// warning its root output buffer is the pool's root output buffer.
pub proof fn lemma_compile_warns_without_root(
    pool: PoolModel,
    next_delay: int,
    next_sum: int,
    entries: Seq<ScheduledNode>,
    root: NodeRef,
)
    ensures
        compile_spec(pool, next_delay, next_sum, entries, root).1 matches Ok((_, buf, warning)) ==> {
            &&& warning is Some <==> forall|k: int| 0 <= k < entries.len() ==> #[trigger] entries[k].node != root
            &&& warning is Some ==> warning == Some(CompilerWarning::NothingConnectedToRoot)
            &&& warning is None ==> buf == pool.root_output_buffer
        },
{
    let c0 = initial_compile(pool, next_delay, next_sum);
    lemma_entry_steps_facts(c0, entries, root, entries.len() as int);
}

/// Compiling, whatever its outcome, leaves the user nodes and the root output
/// buffer of the pool as they were.
pub proof fn lemma_compile_keeps_user_nodes(
    pool: PoolModel,
    next_delay: int,
    next_sum: int,
    entries: Seq<ScheduledNode>,
    root: NodeRef,
)
    ensures
        compile_spec(pool, next_delay, next_sum, entries, root).0.pool.user_nodes == pool.user_nodes,
        compile_spec(pool, next_delay, next_sum, entries, root).0.pool.root_output_buffer
            == pool.root_output_buffer,
{
    let c0 = initial_compile(pool, next_delay, next_sum);
    lemma_entry_steps_facts(c0, entries, root, entries.len() as int);
}

// ---------------------------------------------------------------------------
// Inserted nodes, stated directly.
// ---------------------------------------------------------------------------

/// The block buffer of ports of type `pt` in slot `i`, as a well-formed pool
/// names it.
pub open spec fn block_buffer(pt: PortType, i: int) -> SharedBuffer {
    SharedBuffer { debug_id: DebugBufferID { buffer_type: block_type(pt), index: i as u32 }, slot: i as usize }
}

/// The temporary buffer of ports of type `pt` in slot `i`, as a well-formed
/// pool names it.
pub open spec fn temp_buffer(pt: PortType, i: int) -> SharedBuffer {
    SharedBuffer { debug_id: DebugBufferID { buffer_type: temp_type(pt), index: i as u32 }, slot: i as usize }
}

proof fn lemma_get_named_buffer(p: PoolModel, ty: DebugBufferType, i: int)
    requires
        p.wf(),
        ty != DebugBufferType::RootOut,
        0 <= i,
    ensures
        p.get_buffer(ty, i).1 == (SharedBuffer {
            debug_id: DebugBufferID { buffer_type: ty, index: i as u32 },
            slot: i as usize,
        }),
        p.get_buffer(ty, i).0.wf(),
        p.get_buffer(ty, i).0.delay_comp_nodes == p.delay_comp_nodes,
        p.get_buffer(ty, i).0.sum_nodes == p.sum_nodes,
{
    crate::resource_pool::lemma_get_buffer_wf(p, ty, i);
    let s = p.buffers(ty);
    if i < s.len() {
        assert(s[i] == DebugBufferID { buffer_type: ty, index: i as u32 });
    } else {
        assert(grown_buffers(s, ty, i)[i] == DebugBufferID { buffer_type: ty, index: (s.len() + (i - s.len())) as u32 });
    }
}

/// A buffer that reaches an input port with delay compensation goes through
/// a delay compensation node: exactly one task is added, which runs that node
/// from the block buffer into the entry's next temporary buffer, and the port
/// reads that temporary buffer; the pool records the node for the connection
/// with the delay asked for, flagged as in the graph.
pub proof fn lemma_delay_comp_inserted(
    c: CompileModel,
    e: EntryModel,
    pt: PortType,
    b: ScheduledInputBuffer,
    node: NodeRef,
    port: PortIdent,
)
    requires
        c.pool.wf(),
        b.delay_comp is Some,
        e.next_temp(pt) >= 0,
    ensures
        ({
            let (c2, e2, buf) = input_buffer(c, e, pt, b, node, port);
            let dci = b.delay_comp->0;
            let t = e.next_temp(pt);
            &&& buf == temp_buffer(pt, t)
            &&& e2.next_temp(pt) == t + 1
            &&& c2.pool.wf()
            &&& exists|id: DebugNodeID|
                {
                    &&& c2.tasks == c.tasks.push(delay_task(pt, id, block_buffer(pt, b.buffer_id as int), temp_buffer(pt, t)))
                    &&& c2.pool.delay_comp_nodes.contains(
                        (
                            delay_comp_key(dci, node, port),
                            SharedDelayNode { node: id, delay: dci.delay as u32, is_in_graph: true },
                        ),
                    )
                }
        }),
{
    let dci = b.delay_comp->0;
    let t = e.next_temp(pt);
    let (c1, delayed) = c.get_buffer(temp_type(pt), t);
    lemma_get_named_buffer(c.pool, temp_type(pt), t);
    let key = delay_comp_key(dci, node, port);
    let (nodes, next, id) = use_delay_node(
        c1.pool.delay_comp_nodes,
        key,
        dci.delay as u32,
        delay_node_type(pt),
        c1.next_delay_comp_node_id,
    );
    let c2 = CompileModel { pool: PoolModel { delay_comp_nodes: nodes, ..c1.pool }, next_delay_comp_node_id: next, ..c1 };
    let j = find_key(c1.pool.delay_comp_nodes, key);
    crate::resource_pool::lemma_find_key(c1.pool.delay_comp_nodes, key);
    let entry = (key, SharedDelayNode { node: id, delay: dci.delay as u32, is_in_graph: true });
    if j >= 0 {
        crate::resource_pool::lemma_keys_unique_update(c1.pool.delay_comp_nodes, j, entry.1);
        assert(nodes[j] == entry);
    } else {
        crate::resource_pool::lemma_keys_unique_push(c1.pool.delay_comp_nodes, key, entry.1);
        assert(nodes[nodes.len() - 1] == entry);
    }
    assert(nodes.contains(entry));
    assert(c2.pool.wf());
    lemma_get_named_buffer(c2.pool, block_type(pt), b.buffer_id as int);
    let (c3, input) = c2.get_buffer(block_type(pt), b.buffer_id as int);
    let c4 = CompileModel { tasks: c3.tasks.push(delay_task(pt, id, input, delayed)), ..c3 };
    lemma_get_named_buffer(c4.pool, temp_type(pt), t);
    assert(c4.pool.get_buffer(temp_type(pt), t).0 =~= c4.pool) by {
        crate::resource_pool::lemma_get_buffer_stable(c.pool, temp_type(pt), t);
    }
}

/// The buffers `1..n` of a port, as the independent inputs of its sum node.
pub open spec fn summed_inputs(pt: PortType, bufs: Seq<ScheduledInputBuffer>, n: int) -> Seq<ProcBuffer> {
    Seq::new(
        (n - 1) as nat,
        |k: int| ProcBuffer { buffer: block_buffer(pt, bufs[k + 1].buffer_id as int), port_index: (k + 1) as usize },
    )
}

proof fn lemma_sum_inputs_undelayed(
    c: CompileModel,
    e: EntryModel,
    pt: PortType,
    node: NodeRef,
    port: PortIdent,
    bufs: Seq<ScheduledInputBuffer>,
    n: int,
)
    requires
        c.pool.wf(),
        1 <= n <= bufs.len(),
        forall|k: int| 0 <= k < bufs.len() ==> (#[trigger] bufs[k]).delay_comp is None,
    ensures
        ({
            let (c2, e2, through, indep) = sum_inputs(c, e, pt, node, port, bufs, n);
            &&& through == Some(block_buffer(pt, bufs[0].buffer_id as int))
            &&& indep == summed_inputs(pt, bufs, n)
            &&& c2.tasks == c.tasks
            &&& c2.pool.wf()
            &&& c2.pool.sum_nodes == c.pool.sum_nodes
            &&& c2.next_sum_node_id == c.next_sum_node_id
            &&& e2 == e
        }),
    decreases n,
{
    let b = bufs[n - 1];
    assert(b.delay_comp is None);
    if n == 1 {
        assert(sum_inputs(c, e, pt, node, port, bufs, 0) == (c, e, None::<SharedBuffer>, no_buffers()));
        lemma_get_named_buffer(c.raise_max(pt, b.buffer_id as int).pool, block_type(pt), b.buffer_id as int);
        assert(summed_inputs(pt, bufs, 1) =~= no_buffers());
    } else {
        lemma_sum_inputs_undelayed(c, e, pt, node, port, bufs, n - 1);
        let (c1, e1, through, indep) = sum_inputs(c, e, pt, node, port, bufs, n - 1);
        lemma_get_named_buffer(c1.raise_max(pt, b.buffer_id as int).pool, block_type(pt), b.buffer_id as int);
        assert(summed_inputs(pt, bufs, n) =~= summed_inputs(pt, bufs, n - 1).push(
            ProcBuffer { buffer: block_buffer(pt, b.buffer_id as int), port_index: (n - 1) as usize },
        ));
    }
}

/// An input port fed by several buffers, none of them delayed, goes through a
/// sum node: exactly one task is added, which runs that node with the first
/// buffer as its "process replacing" port and the others as its independent
/// inputs, at their positions; the port then reads the first buffer, which
/// carries the sum; and the pool records the node for that port with the
/// number of inputs, flagged as in the graph.
pub proof fn lemma_sum_node_inserted(
    c: CompileModel,
    e: EntryModel,
    node: NodeRef,
    port: PortIdent,
    bufs: Seq<ScheduledInputBuffer>,
)
    requires
        c.pool.wf(),
        bufs.len() >= 2,
        forall|k: int| 0 <= k < bufs.len() ==> (#[trigger] bufs[k]).delay_comp is None,
    ensures
        ({
            let (c2, e2) = input_port(c, e, node, port, bufs);
            let pt = port.port_type;
            let first = block_buffer(pt, bufs[0].buffer_id as int);
            &&& e2.ins(pt) == e.ins(pt).push(ProcBuffer { buffer: first, port_index: port.index as usize })
            &&& c2.pool.wf()
            &&& exists|id: DebugNodeID|
                {
                    &&& c2.tasks == c.tasks.push(sum_task(pt, id, first, summed_inputs(pt, bufs, bufs.len() as int)))
                    &&& c2.pool.sum_nodes.contains(
                        (
                            SumNodeKey { node_id: node.0 as u32, port },
                            SharedSumNode { node: id, num_inputs: bufs.len() as u32, is_in_graph: true },
                        ),
                    )
                }
        }),
{
    let pt = port.port_type;
    lemma_sum_inputs_undelayed(c, e, pt, node, port, bufs, bufs.len() as int);
    let (c1, e1, through, indep) = sum_inputs(c, e, pt, node, port, bufs, bufs.len() as int);
    let key = SumNodeKey { node_id: node.0 as u32, port };
    let (nodes, next, id) = use_sum_node(c1.pool.sum_nodes, key, bufs.len() as u32, sum_node_type(pt), c1.next_sum_node_id);
    let j = find_key(c1.pool.sum_nodes, key);
    crate::resource_pool::lemma_find_key(c1.pool.sum_nodes, key);
    let entry = (key, SharedSumNode { node: id, num_inputs: bufs.len() as u32, is_in_graph: true });
    if j >= 0 {
        crate::resource_pool::lemma_keys_unique_update(c1.pool.sum_nodes, j, entry.1);
        assert(nodes[j] == entry);
    } else {
        crate::resource_pool::lemma_keys_unique_push(c1.pool.sum_nodes, key, entry.1);
        assert(nodes[nodes.len() - 1] == entry);
    }
    assert(nodes.contains(entry));
}

// ---------------------------------------------------------------------------
// What a failed compilation keeps.
// ---------------------------------------------------------------------------

/// Every key of `before` is still in `after`, at the same place.
pub open spec fn keys_kept<K, V>(before: Seq<(K, V)>, after: Seq<(K, V)>) -> bool {
    &&& before.len() <= after.len()
    &&& forall|j: int| 0 <= j < before.len() ==> (#[trigger] after[j]).0 == before[j].0
}

/// Both lists of inserted nodes of `p` keep the keys of those of `q`.
pub open spec fn inserted_keys_kept(q: PoolModel, p: PoolModel) -> bool {
    &&& keys_kept(q.delay_comp_nodes, p.delay_comp_nodes)
    &&& keys_kept(q.sum_nodes, p.sum_nodes)
}

proof fn lemma_keys_kept_trans<K, V>(a: Seq<(K, V)>, b: Seq<(K, V)>, c: Seq<(K, V)>)
    requires
        keys_kept(a, b),
        keys_kept(b, c),
    ensures
        keys_kept(a, c),
{
    assert forall|j: int| 0 <= j < a.len() implies (#[trigger] c[j]).0 == a[j].0 by {
        assert(c[j].0 == b[j].0);
    }
}

proof fn lemma_use_delay_node_keeps_keys(
    nodes: Seq<(DelayCompNodeKey, SharedDelayNode)>,
    key: DelayCompNodeKey,
    delay: u32,
    ty: DebugNodeType,
    next: int,
)
    ensures
        keys_kept(nodes, use_delay_node(nodes, key, delay, ty, next).0),
{
    crate::resource_pool::lemma_find_key(nodes, key);
    let n2 = use_delay_node(nodes, key, delay, ty, next).0;
    assert forall|j: int| 0 <= j < nodes.len() implies (#[trigger] n2[j]).0 == nodes[j].0 by {}
}

proof fn lemma_use_sum_node_keeps_keys(
    nodes: Seq<(SumNodeKey, SharedSumNode)>,
    key: SumNodeKey,
    num_inputs: u32,
    ty: DebugNodeType,
    next: int,
)
    ensures
        keys_kept(nodes, use_sum_node(nodes, key, num_inputs, ty, next).0),
{
    crate::resource_pool::lemma_find_key(nodes, key);
    let n2 = use_sum_node(nodes, key, num_inputs, ty, next).0;
    assert forall|j: int| 0 <= j < nodes.len() implies (#[trigger] n2[j]).0 == nodes[j].0 by {}
}

proof fn lemma_keys_kept_refl<K, V>(a: Seq<(K, V)>)
    ensures
        keys_kept(a, a),
{
}

proof fn lemma_input_buffer_keeps_keys(
    c: CompileModel,
    e: EntryModel,
    pt: PortType,
    b: ScheduledInputBuffer,
    node: NodeRef,
    port: PortIdent,
)
    ensures
        inserted_keys_kept(c.pool, input_buffer(c, e, pt, b, node, port).0.pool),
{
    lemma_keys_kept_refl(c.pool.delay_comp_nodes);
    lemma_keys_kept_refl(c.pool.sum_nodes);
    match b.delay_comp {
        Some(dci) => {
            let t = e.next_temp(pt);
            let (c1, delayed) = c.get_buffer(temp_type(pt), t);
            lemma_use_delay_node_keeps_keys(
                c1.pool.delay_comp_nodes,
                delay_comp_key(dci, node, port),
                dci.delay as u32,
                delay_node_type(pt),
                c1.next_delay_comp_node_id,
            );
        },
        None => {},
    }
}

proof fn lemma_sum_inputs_keeps_keys(
    c: CompileModel,
    e: EntryModel,
    pt: PortType,
    node: NodeRef,
    port: PortIdent,
    bufs: Seq<ScheduledInputBuffer>,
    n: int,
)
    ensures
        inserted_keys_kept(c.pool, sum_inputs(c, e, pt, node, port, bufs, n).0.pool),
    decreases n,
{
    if n <= 0 {
        lemma_keys_kept_refl(c.pool.delay_comp_nodes);
        lemma_keys_kept_refl(c.pool.sum_nodes);
    } else {
        lemma_sum_inputs_keeps_keys(c, e, pt, node, port, bufs, n - 1);
        let (c1, e1, through, indep) = sum_inputs(c, e, pt, node, port, bufs, n - 1);
        let b = bufs[n - 1];
        let c1r = c1.raise_max(pt, b.buffer_id as int);
        lemma_input_buffer_keeps_keys(c1r, e1, pt, b, node, port);
        let c2 = input_buffer(c1r, e1, pt, b, node, port).0;
        lemma_keys_kept_trans(c.pool.delay_comp_nodes, c1.pool.delay_comp_nodes, c2.pool.delay_comp_nodes);
        lemma_keys_kept_trans(c.pool.sum_nodes, c1.pool.sum_nodes, c2.pool.sum_nodes);
    }
}

proof fn lemma_input_ports_keep_keys(c: CompileModel, e: EntryModel, node: NodeRef, inputs: Seq<ScheduledInput>, n: int)
    ensures
        inserted_keys_kept(c.pool, input_ports(c, e, node, inputs, n).0.pool),
    decreases n,
{
    if n <= 0 {
        lemma_keys_kept_refl(c.pool.delay_comp_nodes);
        lemma_keys_kept_refl(c.pool.sum_nodes);
    } else {
        lemma_input_ports_keep_keys(c, e, node, inputs, n - 1);
        let (c1, e1) = input_ports(c, e, node, inputs, n - 1);
        let port = inputs[n - 1].port;
        let bufs = inputs[n - 1].buffers@;
        let pt = port.port_type;
        let c2 = input_port(c1, e1, node, port, bufs).0;
        if bufs.len() == 1 {
            lemma_input_buffer_keeps_keys(c1.raise_max(pt, bufs[0].buffer_id as int), e1, pt, bufs[0], node, port);
        } else {
            lemma_sum_inputs_keeps_keys(c1, e1, pt, node, port, bufs, bufs.len() as int);
            let (c3, e3, through, indep) = sum_inputs(c1, e1, pt, node, port, bufs, bufs.len() as int);
            lemma_use_sum_node_keeps_keys(
                c3.pool.sum_nodes,
                SumNodeKey { node_id: node.0 as u32, port },
                bufs.len() as u32,
                sum_node_type(pt),
                c3.next_sum_node_id,
            );
            lemma_keys_kept_refl(c3.pool.delay_comp_nodes);
            lemma_keys_kept_trans(c1.pool.sum_nodes, c3.pool.sum_nodes, c2.pool.sum_nodes);
            lemma_keys_kept_trans(c1.pool.delay_comp_nodes, c3.pool.delay_comp_nodes, c2.pool.delay_comp_nodes);
        }
        lemma_keys_kept_trans(c.pool.delay_comp_nodes, c1.pool.delay_comp_nodes, c2.pool.delay_comp_nodes);
        lemma_keys_kept_trans(c.pool.sum_nodes, c1.pool.sum_nodes, c2.pool.sum_nodes);
    }
}

proof fn lemma_entry_steps_keep_keys(c: CompileModel, entries: Seq<ScheduledNode>, root: NodeRef, n: int)
    ensures
        inserted_keys_kept(c.pool, entry_steps(c, entries, root, n).0.pool),
    decreases n,
{
    if n <= 0 {
        lemma_keys_kept_refl(c.pool.delay_comp_nodes);
        lemma_keys_kept_refl(c.pool.sum_nodes);
    } else {
        lemma_entry_steps_keep_keys(c, entries, root, n - 1);
        let (c1, err) = entry_steps(c, entries, root, n - 1);
        if err is None {
            let entry = entries[n - 1];
            let (d1, e1) = input_ports(c1, empty_entry(), entry.node, entry.inputs@, entry.inputs@.len() as int);
            lemma_input_ports_keep_keys(c1, empty_entry(), entry.node, entry.inputs@, entry.inputs@.len() as int);
            lemma_output_ports_run_no_user(d1, e1, entry.outputs@, entry.outputs@.len() as int);
            let c2 = entry_step(c1, entry, root).0;
            assert(c2.pool.delay_comp_nodes == d1.pool.delay_comp_nodes);
            assert(c2.pool.sum_nodes == d1.pool.sum_nodes);
            lemma_keys_kept_trans(c.pool.delay_comp_nodes, c1.pool.delay_comp_nodes, c2.pool.delay_comp_nodes);
            lemma_keys_kept_trans(c.pool.sum_nodes, c1.pool.sum_nodes, c2.pool.sum_nodes);
        }
    }
}

/// A compilation that fails drops no delay compensation or sum node: every
/// key the pool held is still there, at its place, so the caller can go back
/// to the nodes it had. (A successful one drops the nodes it no longer uses.)
pub proof fn lemma_failed_compile_keeps_inserted_nodes(
    pool: PoolModel,
    next_delay: int,
    next_sum: int,
    entries: Seq<ScheduledNode>,
    root: NodeRef,
)
    ensures
        compile_spec(pool, next_delay, next_sum, entries, root).1 is Err ==> inserted_keys_kept(
            pool,
            compile_spec(pool, next_delay, next_sum, entries, root).0.pool,
        ),
{
    let c0 = initial_compile(pool, next_delay, next_sum);
    assert(inserted_keys_kept(pool, c0.pool));
    lemma_entry_steps_keep_keys(c0, entries, root, entries.len() as int);
    let c1 = entry_steps(c0, entries, root, entries.len() as int).0;
    lemma_keys_kept_trans(pool.delay_comp_nodes, c0.pool.delay_comp_nodes, c1.pool.delay_comp_nodes);
    lemma_keys_kept_trans(pool.sum_nodes, c0.pool.sum_nodes, c1.pool.sum_nodes);
}

// ---------------------------------------------------------------------------
// Where the root node's output goes.
// ---------------------------------------------------------------------------

proof fn lemma_mimic_keeps_outs(ins: Seq<ProcBuffer>, outs: Seq<ProcBuffer>, n: int, x: ProcBuffer)
    requires
        outs.contains(x),
    ensures
        mimic_replacing(ins, outs, n).outs.contains(x) || mimic_replacing(ins, outs, n).replacing.contains(x),
    decreases n,
{
    if n > 0 {
        lemma_mimic_keeps_outs(ins, outs, n - 1, x);
        let m = mimic_replacing(ins, outs, n - 1);
        let m2 = mimic_replacing(ins, outs, n);
        let p = n - 1;
        let in_i = find_port(m.ins, p);
        let out_i = find_port(m.outs, p);
        lemma_find_port(m.ins, p);
        lemma_find_port(m.outs, p);
        assert(m2.replacing.len() >= m.replacing.len());
        assert(forall|k: int| 0 <= k < m.replacing.len() ==> m2.replacing[k] == m.replacing[k]);
        if m.replacing.contains(x) {
            let i = choose|i: int| 0 <= i < m.replacing.len() && m.replacing[i] == x;
            assert(m2.replacing[i] == x);
        } else if out_i >= 0 {
            if m.outs[out_i] == x {
                assert(m2.replacing[m.replacing.len() as int] == x);
            } else {
                let i = choose|i: int| 0 <= i < m.outs.len() && m.outs[i] == x;
                assert(m2.outs == m.outs.remove(out_i));
                if i < out_i {
                    assert(m2.outs[i] == x);
                } else {
                    assert(m2.outs[i - 1] == x);
                }
            }
        } else {
            assert(m2.outs == m.outs);
        }
    }
}

proof fn lemma_find_port(s: Seq<ProcBuffer>, p: int)
    ensures
        -1 <= find_port(s, p) < s.len(),
{
    lemma_find_port_from(s, p, 0);
}

proof fn lemma_find_port_from(s: Seq<ProcBuffer>, p: int, j: int)
    ensures
        -1 <= find_port_from(s, p, j) < s.len(),
    decreases s.len() - j,
{
    if 0 <= j < s.len() && s[j].port_index != p {
        lemma_find_port_from(s, p, j + 1);
    }
}

/// `a` is `b` cut short: every task of `a` stands at the same place in `b`.
pub open spec fn tasks_prefix(a: Seq<TaskModel>, b: Seq<TaskModel>) -> bool {
    &&& a.len() <= b.len()
    &&& forall|j: int| 0 <= j < a.len() ==> #[trigger] b[j] == a[j]
}

proof fn lemma_tasks_prefix_trans(a: Seq<TaskModel>, b: Seq<TaskModel>, c: Seq<TaskModel>)
    requires
        tasks_prefix(a, b),
        tasks_prefix(b, c),
    ensures
        tasks_prefix(a, c),
{
    assert forall|j: int| 0 <= j < a.len() implies #[trigger] c[j] == a[j] by {
        assert(c[j] == b[j]);
    }
}

proof fn lemma_input_buffer_extends(
    c: CompileModel,
    e: EntryModel,
    pt: PortType,
    b: ScheduledInputBuffer,
    node: NodeRef,
    port: PortIdent,
)
    ensures
        tasks_prefix(c.tasks, input_buffer(c, e, pt, b, node, port).0.tasks),
{
}

proof fn lemma_sum_inputs_extends(
    c: CompileModel,
    e: EntryModel,
    pt: PortType,
    node: NodeRef,
    port: PortIdent,
    bufs: Seq<ScheduledInputBuffer>,
    n: int,
)
    ensures
        tasks_prefix(c.tasks, sum_inputs(c, e, pt, node, port, bufs, n).0.tasks),
    decreases n,
{
    if n > 0 {
        lemma_sum_inputs_extends(c, e, pt, node, port, bufs, n - 1);
        let (c1, e1, through, indep) = sum_inputs(c, e, pt, node, port, bufs, n - 1);
        let b = bufs[n - 1];
        let c1r = c1.raise_max(pt, b.buffer_id as int);
        lemma_input_buffer_extends(c1r, e1, pt, b, node, port);
        lemma_tasks_prefix_trans(c.tasks, c1.tasks, input_buffer(c1r, e1, pt, b, node, port).0.tasks);
    }
}

proof fn lemma_input_ports_extend(c: CompileModel, e: EntryModel, node: NodeRef, inputs: Seq<ScheduledInput>, n: int)
    ensures
        tasks_prefix(c.tasks, input_ports(c, e, node, inputs, n).0.tasks),
    decreases n,
{
    if n > 0 {
        lemma_input_ports_extend(c, e, node, inputs, n - 1);
        let (c1, e1) = input_ports(c, e, node, inputs, n - 1);
        let port = inputs[n - 1].port;
        let bufs = inputs[n - 1].buffers@;
        let pt = port.port_type;
        let c2 = input_port(c1, e1, node, port, bufs).0;
        if bufs.len() == 1 {
            lemma_input_buffer_extends(c1.raise_max(pt, bufs[0].buffer_id as int), e1, pt, bufs[0], node, port);
        } else {
            lemma_sum_inputs_extends(c1, e1, pt, node, port, bufs, bufs.len() as int);
            let c3 = sum_inputs(c1, e1, pt, node, port, bufs, bufs.len() as int).0;
            assert(tasks_prefix(c3.tasks, c2.tasks));
            lemma_tasks_prefix_trans(c1.tasks, c3.tasks, c2.tasks);
        }
        lemma_tasks_prefix_trans(c.tasks, c1.tasks, c2.tasks);
    }
}

proof fn lemma_entry_step_extends(c: CompileModel, entry: ScheduledNode, root: NodeRef)
    ensures
        tasks_prefix(c.tasks, entry_step(c, entry, root).0.tasks),
{
    let (c1, e1) = input_ports(c, empty_entry(), entry.node, entry.inputs@, entry.inputs@.len() as int);
    lemma_input_ports_extend(c, empty_entry(), entry.node, entry.inputs@, entry.inputs@.len() as int);
    lemma_output_ports_run_no_user(c1, e1, entry.outputs@, entry.outputs@.len() as int);
    let (c2, e2) = output_ports(c1, e1, entry.outputs@, entry.outputs@.len() as int);
    let c3 = c2.raise_temp_max(e2);
    let index = entry.node.0 as int;
    if index < c3.pool.user_nodes.len() && c3.pool.user_nodes[index] is Some {
        let f = finish_entry(c3, e2, c3.pool.user_nodes[index]->0, entry.node == root);
        assert(tasks_prefix(c3.tasks, f.tasks));
        lemma_tasks_prefix_trans(c.tasks, c3.tasks, f.tasks);
    }
}

proof fn lemma_entry_steps_extend(c: CompileModel, entries: Seq<ScheduledNode>, root: NodeRef, k: int, n: int)
    requires
        0 <= k <= n,
    ensures
        tasks_prefix(entry_steps(c, entries, root, k).0.tasks, entry_steps(c, entries, root, n).0.tasks),
    decreases n - k,
{
    if k < n {
        lemma_entry_steps_extend(c, entries, root, k, n - 1);
        let (c1, err) = entry_steps(c, entries, root, n - 1);
        if err is None {
            lemma_entry_step_extends(c1, entries[n - 1], root);
            lemma_tasks_prefix_trans(
                entry_steps(c, entries, root, k).0.tasks,
                c1.tasks,
                entry_steps(c, entries, root, n).0.tasks,
            );
        }
    }
}

proof fn lemma_root_step_writes_root_output(c: CompileModel, entry: ScheduledNode, root: NodeRef)
    requires
        entry.node == root,
        entry_step(c, entry, root).1 is None,
    ensures
        entry_step(c, entry, root).0.tasks.len() > 0,
        writes_buffer(
            entry_step(c, entry, root).0.tasks.last(),
            c.pool.user_nodes[root.0 as int]->0.node,
            ProcBuffer { buffer: c.pool.root_output_buffer, port_index: 0 },
        ),
{
    let rb = ProcBuffer { buffer: c.pool.root_output_buffer, port_index: 0 };
    let (c1, e1) = input_ports(c, empty_entry(), entry.node, entry.inputs@, entry.inputs@.len() as int);
    lemma_input_ports_keep(c, empty_entry(), entry.node, entry.inputs@, entry.inputs@.len() as int);
    let (c2, e2) = output_ports(c1, e1, entry.outputs@, entry.outputs@.len() as int);
    lemma_output_ports_keep(c1, e1, entry.outputs@, entry.outputs@.len() as int);
    let c3 = c2.raise_temp_max(e2);
    let user = c3.pool.user_nodes[root.0 as int]->0;
    let outs = e2.stereo_out.push(rb);
    assert(outs[e2.stereo_out.len() as int] == rb);
    lemma_mimic_keeps_outs(e2.stereo_in, outs, user.num_stereo_replacing_ports as int, rb);
}

/// Whether `t` runs the node `id` with `b` among its stereo "process
/// replacing" buffers or its independent stereo outputs.
pub open spec fn writes_buffer(t: TaskModel, id: DebugNodeID, b: ProcBuffer) -> bool {
    match t {
        TaskModel::Node(n, a) => n == id && (a.stereo_replacing.contains(b) || a.indep_stereo_out.contains(b)),
        _ => false,
    }
}

proof fn lemma_root_steps_write_root_output(c0: CompileModel, entries: Seq<ScheduledNode>, root: NodeRef)
    requires
        c0.root_out is None,
        entry_steps(c0, entries, root, entries.len() as int).1 is None,
        entry_steps(c0, entries, root, entries.len() as int).0.root_out is Some,
    ensures
        exists|i: int|
            0 <= i < entry_steps(c0, entries, root, entries.len() as int).0.tasks.len() && writes_buffer(
                #[trigger] entry_steps(c0, entries, root, entries.len() as int).0.tasks[i],
                c0.pool.user_nodes[root.0 as int]->0.node,
                ProcBuffer { buffer: c0.pool.root_output_buffer, port_index: 0 },
            ),
{
    let rb = ProcBuffer { buffer: c0.pool.root_output_buffer, port_index: 0 };
    let n = entries.len() as int;
    let cn = entry_steps(c0, entries, root, n).0;
    lemma_entry_steps_facts(c0, entries, root, n);
    let k = choose|k: int| 0 <= k < n && #[trigger] entries[k].node == root;
    if entry_steps(c0, entries, root, k).1 is Some {
        lemma_entry_steps_stop(c0, entries, root, k, n);
    }
    if entry_steps(c0, entries, root, k + 1).1 is Some {
        lemma_entry_steps_stop(c0, entries, root, k + 1, n);
    }
    let ck = entry_steps(c0, entries, root, k).0;
    lemma_entry_steps_facts(c0, entries, root, k);
    lemma_root_step_writes_root_output(ck, entries[k], root);
    let f = entry_steps(c0, entries, root, k + 1).0;
    let ti = (f.tasks.len() - 1) as int;
    lemma_entry_steps_extend(c0, entries, root, k + 1, n);
    assert(cn.tasks[ti] == f.tasks[ti]);
    assert(f.tasks.last() == f.tasks[ti]);
    assert(writes_buffer(cn.tasks[ti], c0.pool.user_nodes[root.0 as int]->0.node, rb));
}

/// When the root node is in the graph's schedule, the task of the root node
/// writes the pool's root output buffer, on its first stereo port: the buffer
/// is one of the task's stereo "process replacing" buffers or one of its
/// independent stereo outputs.
pub proof fn lemma_root_task_writes_root_output(
    pool: PoolModel,
    next_delay: int,
    next_sum: int,
    entries: Seq<ScheduledNode>,
    root: NodeRef,
)
    ensures
        ({
            let rb = ProcBuffer { buffer: pool.root_output_buffer, port_index: 0 };
            compile_spec(pool, next_delay, next_sum, entries, root).1 matches Ok((tasks, _, warning)) ==> (
            warning is None ==> exists|i: int|
                0 <= i < tasks.len() && writes_buffer(#[trigger] tasks[i], pool.user_nodes[root.0 as int]->0.node, rb))
        }),
{
    let c0 = initial_compile(pool, next_delay, next_sum);
    let n = entries.len() as int;
    let (cn, errn) = entry_steps(c0, entries, root, n);
    if errn is None && cn.root_out is Some {
        lemma_root_steps_write_root_output(c0, entries, root);
        let rb = ProcBuffer { buffer: pool.root_output_buffer, port_index: 0 };
        assert(c0.pool.user_nodes == pool.user_nodes);
        assert(c0.pool.root_output_buffer == pool.root_output_buffer);
        let i = choose|i: int|
            0 <= i < cn.tasks.len() && writes_buffer(
                #[trigger] cn.tasks[i],
                c0.pool.user_nodes[root.0 as int]->0.node,
                ProcBuffer { buffer: c0.pool.root_output_buffer, port_index: 0 },
            );
        assert(writes_buffer(cn.tasks[i], pool.user_nodes[root.0 as int]->0.node, rb));
        let c3 = unused_buffers_removed(cn);
        assert(c3.tasks == cn.tasks);
        assert(c3.tasks[i] == cn.tasks[i]);
        match crate::schedule_verifier::verify_spec(c3.tasks) {
            Err(e) => {},
            Ok(_) => {
                assert(compile_spec(pool, next_delay, next_sum, entries, root).1 == Ok::<
                    (Seq<TaskModel>, SharedBuffer, Option<CompilerWarning>),
                    CompilerError,
                >((c3.tasks, cn.root_out->0, None)));
                let tasks = compile_spec(pool, next_delay, next_sum, entries, root).1->Ok_0.0;
                assert(tasks == c3.tasks);
                assert(writes_buffer(tasks[i], pool.user_nodes[root.0 as int]->0.node, rb));
                assert(exists|j: int|
                    0 <= j < tasks.len() && writes_buffer(#[trigger] tasks[j], pool.user_nodes[root.0 as int]->0.node, rb));
            },
        }
    } else if errn is None {
        let m = cn.max_stereo + 1;
        let (c2, b) = CompileModel { max_stereo: m, ..cn }.get_buffer(DebugBufferType::StereoBlock, m);
        let c3 = unused_buffers_removed(c2);
        match crate::schedule_verifier::verify_spec(c3.tasks) {
            Err(e) => {},
            Ok(_) => {
                assert(compile_spec(pool, next_delay, next_sum, entries, root).1 == Ok::<
                    (Seq<TaskModel>, SharedBuffer, Option<CompilerWarning>),
                    CompilerError,
                >((c3.tasks, b, Some(CompilerWarning::NothingConnectedToRoot))));
            },
        }
    } else {
        assert(compile_spec(pool, next_delay, next_sum, entries, root).1 is Err);
    }
}

// ---------------------------------------------------------------------------
// Laws of the compiler's parts, stated over their inputs and results.
// ---------------------------------------------------------------------------

/// An input port fed by exactly one buffer adds exactly one input buffer to
/// its node, on that port's own index, and leaves the node's other inputs as
/// they were. Without delay compensation the buffer is the block buffer the
/// graph assigned; with it, the entry's next temporary buffer.
pub proof fn lemma_single_input_on_its_port(
    c: CompileModel,
    e: EntryModel,
    node: NodeRef,
    port: PortIdent,
    b: ScheduledInputBuffer,
)
    requires
        c.pool.wf(),
        e.next_temp(port.port_type) >= 0,
    ensures
        ({
            let pt = port.port_type;
            let (c2, e2) = input_port(c, e, node, port, seq![b]);
            &&& e2.ins(pt).len() == e.ins(pt).len() + 1
            &&& e2.ins(pt).last().port_index == port.index as usize
            &&& e2.ins(pt).drop_last() == e.ins(pt)
            &&& e2.ins(pt).last().buffer == match b.delay_comp {
                None => block_buffer(pt, b.buffer_id as int),
                Some(_) => temp_buffer(pt, e.next_temp(pt)),
            }
            &&& e2.outs(pt) == e.outs(pt)
        }),
{
    let pt = port.port_type;
    let bufs = seq![b];
    assert(bufs[0] == b);
    let cr = c.raise_max(pt, b.buffer_id as int);
    assert(cr.pool == c.pool);
    let (c1, e1, buf) = input_buffer(cr, e, pt, b, node, port);
    match b.delay_comp {
        None => {
            lemma_get_named_buffer(cr.pool, block_type(pt), b.buffer_id as int);
        },
        Some(_) => {
            lemma_delay_comp_inserted(cr, e, pt, b, node, port);
        },
    }
    let (c2, e2) = input_port(c, e, node, port, bufs);
    assert(e2 == e1.with_ins(pt, e1.ins(pt).push(ProcBuffer { buffer: buf, port_index: port.index as usize })));
    assert(e1.ins(pt) == e.ins(pt));
    assert(e2.ins(pt).drop_last() =~= e.ins(pt));
}

/// Using the sum node for a port: a node recorded for that port with the same
/// number of inputs is reused and the counter stays; a node recorded with
/// another number of inputs, or none at all, gives way to a fresh node named
/// by the counter, which advances. Either way the port's record then names
/// the node used, with the number of inputs, flagged as in the graph, and the
/// records of other ports are left as they were.
pub proof fn lemma_use_sum_node_result(
    nodes: Seq<(SumNodeKey, SharedSumNode)>,
    key: SumNodeKey,
    n: u32,
    ty: DebugNodeType,
    next: int,
)
    requires
        keys_unique(nodes),
    ensures
        ({
            let (n2, next2, id) = use_sum_node(nodes, key, n, ty, next);
            let fresh = DebugNodeID { node_type: ty, index: next as u64, name: None };
            &&& forall|j: int|
                0 <= j < nodes.len() && (#[trigger] nodes[j]).0 == key && nodes[j].1.num_inputs == n ==> id
                    == nodes[j].1.node && next2 == next
            &&& forall|j: int|
                0 <= j < nodes.len() && (#[trigger] nodes[j]).0 == key && nodes[j].1.num_inputs != n ==> id == fresh
                    && next2 == next + 1
            &&& (forall|j: int| 0 <= j < nodes.len() ==> (#[trigger] nodes[j]).0 != key) ==> id == fresh && next2
                == next + 1 && n2 == nodes.push((key, SharedSumNode { node: fresh, num_inputs: n, is_in_graph: true }))
            &&& n2.contains((key, SharedSumNode { node: id, num_inputs: n, is_in_graph: true }))
            &&& forall|j: int| 0 <= j < nodes.len() && (#[trigger] nodes[j]).0 != key ==> n2[j] == nodes[j]
            &&& keys_unique(n2)
        }),
{
    let j = find_key(nodes, key);
    crate::resource_pool::lemma_find_key(nodes, key);
    let (n2, next2, id) = use_sum_node(nodes, key, n, ty, next);
    let entry = (key, SharedSumNode { node: id, num_inputs: n, is_in_graph: true });
    if j >= 0 {
        crate::resource_pool::lemma_keys_unique_update(nodes, j, entry.1);
        assert(n2[j] == entry);
        assert forall|i: int| 0 <= i < nodes.len() && (#[trigger] nodes[i]).0 == key implies i == j by {
            if i != j {
                if i < j {
                    assert(nodes[i].0 != nodes[j].0);
                } else {
                    assert(nodes[j].0 != nodes[i].0);
                }
            }
        }
    } else {
        crate::resource_pool::lemma_keys_unique_push(nodes, key, entry.1);
        assert(n2[n2.len() - 1] == entry);
    }
}

/// Using the delay compensation node for a connection, as for sum nodes: a
/// node recorded for the connection with the same delay is reused and the
/// counter stays; one recorded with another delay, or none, gives way to a
/// fresh node named by the counter, which advances; the connection's record
/// then names the node used with the delay, flagged as in the graph, and the
/// records of other connections are left as they were.
pub proof fn lemma_use_delay_node_result(
    nodes: Seq<(DelayCompNodeKey, SharedDelayNode)>,
    key: DelayCompNodeKey,
    delay: u32,
    ty: DebugNodeType,
    next: int,
)
    requires
        keys_unique(nodes),
    ensures
        ({
            let (n2, next2, id) = use_delay_node(nodes, key, delay, ty, next);
            let fresh = DebugNodeID { node_type: ty, index: next as u64, name: None };
            &&& forall|j: int|
                0 <= j < nodes.len() && (#[trigger] nodes[j]).0 == key && nodes[j].1.delay == delay ==> id
                    == nodes[j].1.node && next2 == next
            &&& forall|j: int|
                0 <= j < nodes.len() && (#[trigger] nodes[j]).0 == key && nodes[j].1.delay != delay ==> id == fresh
                    && next2 == next + 1
            &&& (forall|j: int| 0 <= j < nodes.len() ==> (#[trigger] nodes[j]).0 != key) ==> id == fresh && next2
                == next + 1 && n2 == nodes.push((key, SharedDelayNode { node: fresh, delay, is_in_graph: true }))
            &&& n2.contains((key, SharedDelayNode { node: id, delay, is_in_graph: true }))
            &&& forall|j: int| 0 <= j < nodes.len() && (#[trigger] nodes[j]).0 != key ==> n2[j] == nodes[j]
            &&& keys_unique(n2)
        }),
{
    let j = find_key(nodes, key);
    crate::resource_pool::lemma_find_key(nodes, key);
    let (n2, next2, id) = use_delay_node(nodes, key, delay, ty, next);
    let entry = (key, SharedDelayNode { node: id, delay, is_in_graph: true });
    if j >= 0 {
        crate::resource_pool::lemma_keys_unique_update(nodes, j, entry.1);
        assert(n2[j] == entry);
        assert forall|i: int| 0 <= i < nodes.len() && (#[trigger] nodes[i]).0 == key implies i == j by {
            if i != j {
                if i < j {
                    assert(nodes[i].0 != nodes[j].0);
                } else {
                    assert(nodes[j].0 != nodes[i].0);
                }
            }
        }
    } else {
        crate::resource_pool::lemma_keys_unique_push(nodes, key, entry.1);
        assert(n2[n2.len() - 1] == entry);
    }
}

/// Two delayed connections share a delay compensation node's key exactly
/// when they come from the same source port and go into the same port of the
/// same destination node: connections into different nodes or ports get
/// different delay compensation nodes.
pub proof fn lemma_delay_keys_tell_connections_apart(
    d1: DelayCompInfo,
    n1: NodeRef,
    p1: PortIdent,
    d2: DelayCompInfo,
    n2: NodeRef,
    p2: PortIdent,
)
    ensures
        delay_comp_key(d1, n1, p1).dst_node_id == n1.0 as u32,
        delay_comp_key(d1, n1, p1).dst_node_port == p1,
        delay_comp_key(d1, n1, p1) == delay_comp_key(d2, n2, p2) <==> (d1.source_node.0 as u32
            == d2.source_node.0 as u32 && d1.source_port == d2.source_port && n1.0 as u32 == n2.0 as u32
            && p1 == p2),
{
}

/// A task that clears `b` among the mono buffers it clears.
pub open spec fn clears_mono(t: TaskModel, b: SharedBuffer) -> bool {
    match t {
        TaskModel::ClearMono(bufs) => bufs.contains(b),
        _ => false,
    }
}

/// A task that clears `b` among the stereo buffers it clears.
pub open spec fn clears_stereo(t: TaskModel, b: SharedBuffer) -> bool {
    match t {
        TaskModel::ClearStereo(bufs) => bufs.contains(b),
        _ => false,
    }
}

/// A delayed connection into a port of type `pt` with no node recorded for it,
/// or one recorded with another delay, gets a fresh delay compensation node of
/// the port's kind, named by the counter, which advances; its task reads the
/// block buffer and writes the entry's next temporary buffer, and the entry's
/// next temporary buffer moves on by one.
pub proof fn lemma_fresh_delay_node_has_port_kind(
    c: CompileModel,
    e: EntryModel,
    pt: PortType,
    dci: DelayCompInfo,
    node: NodeRef,
    port: PortIdent,
    buffer_id: int,
)
    requires
        c.pool.wf(),
        e.next_temp(pt) >= 0,
        buffer_id >= 0,
        forall|j: int|
            0 <= j < c.pool.delay_comp_nodes.len() && (#[trigger] c.pool.delay_comp_nodes[j]).0 == delay_comp_key(
                dci,
                node,
                port,
            ) ==> c.pool.delay_comp_nodes[j].1.delay != dci.delay as u32,
    ensures
        ({
            let (c3, e3, t) = insert_delay_comp(c, e, pt, dci, node, port, buffer_id);
            let kind = match pt {
                PortType::MonoAudio => DebugNodeType::MonoDelayComp,
                PortType::StereoAudio => DebugNodeType::StereoDelayComp,
            };
            let fresh = DebugNodeID { node_type: kind, index: c.next_delay_comp_node_id as u64, name: None };
            &&& c3.tasks == c.tasks.push(
                delay_task(pt, fresh, block_buffer(pt, buffer_id), temp_buffer(pt, e.next_temp(pt))),
            )
            &&& c3.next_delay_comp_node_id == c.next_delay_comp_node_id + 1
            &&& t == e.next_temp(pt)
            &&& e3.next_temp(pt) == t + 1
        }),
{
    let t = e.next_temp(pt);
    lemma_get_named_buffer(c.pool, temp_type(pt), t);
    let (c1, delayed) = c.get_buffer(temp_type(pt), t);
    let key = delay_comp_key(dci, node, port);
    lemma_use_delay_node_result(
        c1.pool.delay_comp_nodes,
        key,
        dci.delay as u32,
        delay_node_type(pt),
        c1.next_delay_comp_node_id,
    );
    let (nodes, next, id) = use_delay_node(
        c1.pool.delay_comp_nodes,
        key,
        dci.delay as u32,
        delay_node_type(pt),
        c1.next_delay_comp_node_id,
    );
    let c2 = CompileModel { pool: PoolModel { delay_comp_nodes: nodes, ..c1.pool }, next_delay_comp_node_id: next, ..c1 };
    assert(c2.pool.wf());
    lemma_get_named_buffer(c2.pool, block_type(pt), buffer_id);
}

/// A port fed by several undelayed buffers whose sum node is not recorded, or
/// is recorded with another number of inputs, gets a fresh sum node of the
/// port's kind named by the counter, which advances.
pub proof fn lemma_fresh_sum_node_has_port_kind(
    c: CompileModel,
    e: EntryModel,
    node: NodeRef,
    port: PortIdent,
    bufs: Seq<ScheduledInputBuffer>,
)
    requires
        c.pool.wf(),
        bufs.len() >= 2,
        forall|k: int| 0 <= k < bufs.len() ==> (#[trigger] bufs[k]).delay_comp is None,
        forall|j: int|
            0 <= j < c.pool.sum_nodes.len() && (#[trigger] c.pool.sum_nodes[j]).0 == (SumNodeKey {
                node_id: node.0 as u32,
                port,
            }) ==> c.pool.sum_nodes[j].1.num_inputs != bufs.len() as u32,
    ensures
        ({
            let pt = port.port_type;
            let (c2, e2) = input_port(c, e, node, port, bufs);
            let kind = match pt {
                PortType::MonoAudio => DebugNodeType::MonoSum,
                PortType::StereoAudio => DebugNodeType::StereoSum,
            };
            let fresh = DebugNodeID { node_type: kind, index: c.next_sum_node_id as u64, name: None };
            &&& c2.tasks == c.tasks.push(
                sum_task(pt, fresh, block_buffer(pt, bufs[0].buffer_id as int), summed_inputs(pt, bufs, bufs.len() as int)),
            )
            &&& c2.next_sum_node_id == c.next_sum_node_id + 1
        }),
{
    let pt = port.port_type;
    lemma_sum_inputs_undelayed(c, e, pt, node, port, bufs, bufs.len() as int);
    let (c1, e1, through, indep) = sum_inputs(c, e, pt, node, port, bufs, bufs.len() as int);
    let key = SumNodeKey { node_id: node.0 as u32, port };
    lemma_use_sum_node_result(c1.pool.sum_nodes, key, bufs.len() as u32, sum_node_type(pt), c1.next_sum_node_id);
}

/// The first buffer of `s` on port `p`: `s[j]` is on port `p` and no buffer
/// before it is.
pub open spec fn first_on_port(s: Seq<ProcBuffer>, p: int, j: int) -> bool {
    &&& 0 <= j < s.len()
    &&& s[j].port_index == p
    &&& forall|k: int| 0 <= k < j ==> (#[trigger] s[k]).port_index != p
}

/// No buffer of `s` is on port `p`.
pub open spec fn none_on_port(s: Seq<ProcBuffer>, p: int) -> bool {
    forall|k: int| 0 <= k < s.len() ==> (#[trigger] s[k]).port_index != p
}

proof fn lemma_find_port_first(s: Seq<ProcBuffer>, p: int, j: int)
    requires
        first_on_port(s, p, j),
    ensures
        find_port(s, p) == j,
{
    lemma_find_port_from_first(s, p, j, 0);
}

proof fn lemma_find_port_from_first(s: Seq<ProcBuffer>, p: int, j: int, i: int)
    requires
        first_on_port(s, p, j),
        0 <= i <= j,
    ensures
        find_port_from(s, p, i) == j,
    decreases j - i,
{
    if i < j {
        assert(s[i].port_index != p);
        lemma_find_port_from_first(s, p, j, i + 1);
    }
}

proof fn lemma_find_port_none(s: Seq<ProcBuffer>, p: int, i: int)
    requires
        none_on_port(s, p),
        0 <= i,
    ensures
        find_port_from(s, p, i) == -1,
    decreases s.len() - i,
{
    if i < s.len() {
        assert(s[i].port_index != p);
        lemma_find_port_none(s, p, i + 1);
    }
}

proof fn lemma_mimic_extends(ins: Seq<ProcBuffer>, outs: Seq<ProcBuffer>, k: int, n: int)
    requires
        0 <= k <= n,
    ensures
        ({
            let a = mimic_replacing(ins, outs, k);
            let b = mimic_replacing(ins, outs, n);
            &&& a.clears.len() <= b.clears.len()
            &&& forall|i: int| 0 <= i < a.clears.len() ==> #[trigger] b.clears[i] == a.clears[i]
            &&& a.replacing.len() <= b.replacing.len()
            &&& forall|i: int| 0 <= i < a.replacing.len() ==> #[trigger] b.replacing[i] == a.replacing[i]
        }),
    decreases n - k,
{
    if k < n {
        lemma_mimic_extends(ins, outs, k, n - 1);
        let a = mimic_replacing(ins, outs, k);
        let m = mimic_replacing(ins, outs, n - 1);
        let b = mimic_replacing(ins, outs, n);
        assert forall|i: int| 0 <= i < a.clears.len() implies #[trigger] b.clears[i] == a.clears[i] by {
            assert(m.clears[i] == a.clears[i]);
        }
        assert forall|i: int| 0 <= i < a.replacing.len() implies #[trigger] b.replacing[i] == a.replacing[i] by {
            assert(m.replacing[i] == a.replacing[i]);
        }
    }
}

proof fn lemma_find_port_from_hit(s: Seq<ProcBuffer>, p: int, j: int)
    ensures
        find_port_from(s, p, j) >= 0 ==> s[find_port_from(s, p, j)].port_index == p,
    decreases s.len() - j,
{
    if 0 <= j < s.len() && s[j].port_index != p {
        lemma_find_port_from_hit(s, p, j + 1);
    }
}

/// Taking out a buffer on another port keeps the first buffer on port `q`
/// first, one place earlier when the removed buffer stood before it.
proof fn lemma_remove_keeps_first(s: Seq<ProcBuffer>, i: int, q: int, j: int) -> (j2: int)
    requires
        0 <= i < s.len(),
        s[i].port_index != q,
        first_on_port(s, q, j),
    ensures
        first_on_port(s.remove(i), q, j2),
        s.remove(i)[j2] == s[j],
{
    let r = s.remove(i);
    let j2 = if i < j {
        j - 1
    } else {
        j
    };
    assert(r[j2] == s[j]);
    assert forall|k: int| 0 <= k < j2 implies (#[trigger] r[k]).port_index != q by {
        if k < i {
            assert(r[k] == s[k]);
        } else {
            assert(r[k] == s[k + 1]);
        }
    }
    j2
}

proof fn lemma_remove_keeps_none(s: Seq<ProcBuffer>, i: int, q: int)
    requires
        0 <= i < s.len(),
        none_on_port(s, q),
    ensures
        none_on_port(s.remove(i), q),
{
    let r = s.remove(i);
    assert forall|k: int| 0 <= k < r.len() implies (#[trigger] r[k]).port_index != q by {
        if k < i {
            assert(r[k] == s[k]);
        } else {
            assert(r[k] == s[k + 1]);
        }
    }
}

/// Serving the replacing ports below `q` leaves the buffers on port `q` as
/// they were: the first output buffer on `q` is still the first, and an input
/// side with nothing on `q` still has nothing there.
proof fn lemma_mimic_keeps_later_port(ins: Seq<ProcBuffer>, outs: Seq<ProcBuffer>, k: int, q: int, j: int) -> (j2: int)
    requires
        0 <= k <= q,
        none_on_port(ins, q),
        first_on_port(outs, q, j),
    ensures
        none_on_port(mimic_replacing(ins, outs, k).ins, q),
        first_on_port(mimic_replacing(ins, outs, k).outs, q, j2),
        mimic_replacing(ins, outs, k).outs[j2] == outs[j],
    decreases k,
{
    if k == 0 {
        j
    } else {
        let j1 = lemma_mimic_keeps_later_port(ins, outs, k - 1, q, j);
        let m = mimic_replacing(ins, outs, k - 1);
        let p = k - 1;
        let in_i = find_port(m.ins, p);
        let out_i = find_port(m.outs, p);
        lemma_find_port(m.ins, p);
        lemma_find_port(m.outs, p);
        lemma_find_port_from_hit(m.ins, p, 0);
        lemma_find_port_from_hit(m.outs, p, 0);
        if out_i >= 0 && in_i >= 0 {
            lemma_remove_keeps_none(m.ins, in_i, q);
            lemma_remove_keeps_first(m.outs, out_i, q, j1)
        } else if out_i >= 0 {
            lemma_remove_keeps_first(m.outs, out_i, q, j1)
        } else if in_i >= 0 {
            lemma_remove_keeps_none(m.ins, in_i, q);
            j1
        } else {
            j1
        }
    }
}

/// A "process replacing" port `p` with an output buffer and no input buffer:
/// the first output buffer on `p` becomes the port's buffer and is cleared.
proof fn lemma_mimic_output_only_port_clears(ins: Seq<ProcBuffer>, outs: Seq<ProcBuffer>, n: int, p: int, j: int)
    requires
        0 <= p < n,
        none_on_port(ins, p),
        first_on_port(outs, p, j),
    ensures
        mimic_replacing(ins, outs, n).clears.contains(outs[j].buffer),
        mimic_replacing(ins, outs, n).replacing.contains(outs[j]),
{
    let j2 = lemma_mimic_keeps_later_port(ins, outs, p, p, j);
    let m = mimic_replacing(ins, outs, p);
    lemma_find_port_none(m.ins, p, 0);
    lemma_find_port_first(m.outs, p, j2);
    let m1 = mimic_replacing(ins, outs, p + 1);
    assert(m1.clears == m.clears.push(outs[j].buffer));
    assert(m1.replacing == m.replacing.push(outs[j]));
    lemma_mimic_extends(ins, outs, p + 1, n);
    let b = mimic_replacing(ins, outs, n);
    assert(b.clears[m.clears.len() as int] == m1.clears[m.clears.len() as int]);
    assert(b.replacing[m.replacing.len() as int] == m1.replacing[m.replacing.len() as int]);
}

/// What a user node's mono "process replacing" ports get cleared: every buffer
/// that serving those ports clears stands in one mono clear task, placed right
/// after the tasks that came before the entry and before the node's own task,
/// which comes last. In particular, a replacing port `p` with an output buffer
/// and no input buffer has its first output buffer cleared there, and the
/// node's task uses that buffer for a replacing port.
pub proof fn lemma_output_only_replacing_port_is_cleared(
    c: CompileModel,
    e: EntryModel,
    user: SharedUserNode,
    is_root: bool,
    p: int,
    j: int,
)
    requires
        0 <= p < user.num_mono_replacing_ports,
        none_on_port(e.mono_in, p),
        first_on_port(e.mono_out, p, j),
    ensures
        ({
            let f = finish_entry(c, e, user, is_root);
            let clear_at = c.tasks.len() as int;
            let mm = mimic_replacing(e.mono_in, e.mono_out, user.num_mono_replacing_ports as int);
            &&& f.tasks.len() > clear_at + 1
            &&& f.tasks[clear_at] is ClearMono
            &&& forall|i: int| 0 <= i < mm.clears.len() ==> clears_mono(f.tasks[clear_at], #[trigger] mm.clears[i])
            &&& clears_mono(f.tasks[clear_at], e.mono_out[j].buffer)
            &&& f.tasks.last() is Node
            &&& f.tasks.last()->Node_0 == user.node
            &&& f.tasks.last()->Node_1.mono_replacing.contains(e.mono_out[j])
            &&& forall|i: int| 0 <= i < c.tasks.len() ==> #[trigger] f.tasks[i] == c.tasks[i]
        }),
{
    lemma_mimic_output_only_port_clears(e.mono_in, e.mono_out, user.num_mono_replacing_ports as int, p, j);
    let mm = mimic_replacing(e.mono_in, e.mono_out, user.num_mono_replacing_ports as int);
    assert(mm.clears.len() > 0);
    assert forall|i: int| 0 <= i < mm.clears.len() implies #[trigger] mm.clears.contains(mm.clears[i]) by {
    }
}

/// The stereo counterpart: a node whose stereo "process replacing" port `p`
/// has an output buffer and no input buffer gets that buffer cleared by a
/// stereo clear task placed before its own task, which comes last and uses the
/// buffer for a replacing port.
pub proof fn lemma_output_only_stereo_replacing_port_is_cleared(
    c: CompileModel,
    e: EntryModel,
    user: SharedUserNode,
    is_root: bool,
    p: int,
    j: int,
)
    requires
        0 <= p < user.num_stereo_replacing_ports,
        none_on_port(e.stereo_in, p),
        first_on_port(e.stereo_out, p, j),
    ensures
        ({
            let f = finish_entry(c, e, user, is_root);
            &&& exists|k: int|
                c.tasks.len() <= k < f.tasks.len() - 1 && clears_stereo(#[trigger] f.tasks[k], e.stereo_out[j].buffer)
            &&& f.tasks.last() is Node
            &&& f.tasks.last()->Node_0 == user.node
            &&& f.tasks.last()->Node_1.stereo_replacing.contains(e.stereo_out[j])
        }),
{
    let root = c.pool.root_output_buffer;
    let outs = if is_root {
        e.stereo_out.push(ProcBuffer { buffer: root, port_index: 0 })
    } else {
        e.stereo_out
    };
    assert(first_on_port(outs, p, j)) by {
        assert(outs[j] == e.stereo_out[j]);
        assert forall|k: int| 0 <= k < j implies (#[trigger] outs[k]).port_index != p by {
            assert(outs[k] == e.stereo_out[k]);
        }
    }
    lemma_mimic_output_only_port_clears(e.stereo_in, outs, user.num_stereo_replacing_ports as int, p, j);
    let mm = mimic_replacing(e.mono_in, e.mono_out, user.num_mono_replacing_ports as int);
    let ms = mimic_replacing(e.stereo_in, outs, user.num_stereo_replacing_ports as int);
    let t1 = push_if(c.tasks, mm.clears.len() > 0, TaskModel::ClearMono(mm.clears));
    let k = t1.len() as int;
    let f = finish_entry(c, e, user, is_root);
    assert(ms.clears.len() > 0);
    assert(f.tasks[k] == TaskModel::ClearStereo(ms.clears));
    assert(clears_stereo(f.tasks[k], e.stereo_out[j].buffer));
}

// ---------------------------------------------------------------------------
// The user nodes that a compiled schedule runs.
// ---------------------------------------------------------------------------

/// Whether a node of kind `t` is a user node (the root node included).
pub open spec fn is_user_kind(t: DebugNodeType) -> bool {
    t == DebugNodeType::User || t == DebugNodeType::Root
}

/// Whether a node of kind `t` is a delay compensation node.
pub open spec fn is_delay_kind(t: DebugNodeType) -> bool {
    t == DebugNodeType::MonoDelayComp || t == DebugNodeType::StereoDelayComp
}

/// Whether a node of kind `t` is a sum node.
pub open spec fn is_sum_kind(t: DebugNodeType) -> bool {
    t == DebugNodeType::MonoSum || t == DebugNodeType::StereoSum
}

/// The user node slots of the pool hold user nodes.
pub open spec fn user_kinds_ok(p: PoolModel) -> bool {
    forall|i: int|
        0 <= i < p.user_nodes.len() && (#[trigger] p.user_nodes[i]) is Some ==> is_user_kind(
            p.user_nodes[i]->0.node.node_type,
        )
}

/// The delay compensation and sum nodes of the pool are of their kinds.
pub open spec fn inserted_kinds_ok(p: PoolModel) -> bool {
    &&& forall|j: int|
        0 <= j < p.delay_comp_nodes.len() ==> is_delay_kind((#[trigger] p.delay_comp_nodes[j]).1.node.node_type)
    &&& forall|j: int| 0 <= j < p.sum_nodes.len() ==> is_sum_kind((#[trigger] p.sum_nodes[j]).1.node.node_type)
}

/// The user nodes that `tasks` run, in order.
pub open spec fn user_nodes_run(tasks: Seq<TaskModel>) -> Seq<DebugNodeID>
    decreases tasks.len(),
{
    if tasks.len() == 0 {
        Seq::empty()
    } else {
        let rest = user_nodes_run(tasks.drop_last());
        match tasks.last() {
            TaskModel::Node(id, _) => if is_user_kind(id.node_type) {
                rest.push(id)
            } else {
                rest
            },
            _ => rest,
        }
    }
}

/// The user nodes of the entries of a schedule, in order.
pub open spec fn entry_user_nodes(users: Seq<Option<SharedUserNode>>, entries: Seq<ScheduledNode>, n: int) -> Seq<
    DebugNodeID,
> {
    Seq::new(n as nat, |k: int| users[entries[k].node.0 as int]->0.node)
}

proof fn lemma_user_nodes_run_push(s: Seq<TaskModel>, t: TaskModel)
    ensures
        user_nodes_run(s.push(t)) == match t {
            TaskModel::Node(id, _) => if is_user_kind(id.node_type) {
                user_nodes_run(s).push(id)
            } else {
                user_nodes_run(s)
            },
            _ => user_nodes_run(s),
        },
{
    assert(s.push(t).drop_last() =~= s);
}

proof fn lemma_use_delay_node_kind(
    nodes: Seq<(DelayCompNodeKey, SharedDelayNode)>,
    key: DelayCompNodeKey,
    delay: u32,
    ty: DebugNodeType,
    next: int,
)
    requires
        forall|j: int| 0 <= j < nodes.len() ==> is_delay_kind((#[trigger] nodes[j]).1.node.node_type),
        is_delay_kind(ty),
    ensures
        ({
            let (n2, _, id) = use_delay_node(nodes, key, delay, ty, next);
            &&& forall|j: int| 0 <= j < n2.len() ==> is_delay_kind((#[trigger] n2[j]).1.node.node_type)
            &&& is_delay_kind(id.node_type)
        }),
{
    let j = find_key(nodes, key);
    crate::resource_pool::lemma_find_key(nodes, key);
    if j >= 0 {
        assert(is_delay_kind(nodes[j].1.node.node_type));
    }
}

proof fn lemma_use_sum_node_kind(
    nodes: Seq<(SumNodeKey, SharedSumNode)>,
    key: SumNodeKey,
    num_inputs: u32,
    ty: DebugNodeType,
    next: int,
)
    requires
        forall|j: int| 0 <= j < nodes.len() ==> is_sum_kind((#[trigger] nodes[j]).1.node.node_type),
        is_sum_kind(ty),
    ensures
        ({
            let (n2, _, id) = use_sum_node(nodes, key, num_inputs, ty, next);
            &&& forall|j: int| 0 <= j < n2.len() ==> is_sum_kind((#[trigger] n2[j]).1.node.node_type)
            &&& is_sum_kind(id.node_type)
        }),
{
    let j = find_key(nodes, key);
    crate::resource_pool::lemma_find_key(nodes, key);
    if j >= 0 {
        assert(is_sum_kind(nodes[j].1.node.node_type));
    }
}

proof fn lemma_input_buffer_runs_no_user(
    c: CompileModel,
    e: EntryModel,
    pt: PortType,
    b: ScheduledInputBuffer,
    node: NodeRef,
    port: PortIdent,
)
    requires
        inserted_kinds_ok(c.pool),
    ensures
        inserted_kinds_ok(input_buffer(c, e, pt, b, node, port).0.pool),
        user_nodes_run(input_buffer(c, e, pt, b, node, port).0.tasks) == user_nodes_run(c.tasks),
{
    match b.delay_comp {
        Some(dci) => {
            let t = e.next_temp(pt);
            let (c1, delayed) = c.get_buffer(temp_type(pt), t);
            let key = delay_comp_key(dci, node, port);
            lemma_use_delay_node_kind(
                c1.pool.delay_comp_nodes,
                key,
                dci.delay as u32,
                delay_node_type(pt),
                c1.next_delay_comp_node_id,
            );
            let (nodes, next, id) = use_delay_node(
                c1.pool.delay_comp_nodes,
                key,
                dci.delay as u32,
                delay_node_type(pt),
                c1.next_delay_comp_node_id,
            );
            let c2 = CompileModel {
                pool: PoolModel { delay_comp_nodes: nodes, ..c1.pool },
                next_delay_comp_node_id: next,
                ..c1
            };
            let (c3, input) = c2.get_buffer(block_type(pt), b.buffer_id as int);
            lemma_user_nodes_run_push(c3.tasks, delay_task(pt, id, input, delayed));
        },
        None => {},
    }
}

proof fn lemma_sum_inputs_run_no_user(
    c: CompileModel,
    e: EntryModel,
    pt: PortType,
    node: NodeRef,
    port: PortIdent,
    bufs: Seq<ScheduledInputBuffer>,
    n: int,
)
    requires
        inserted_kinds_ok(c.pool),
    ensures
        inserted_kinds_ok(sum_inputs(c, e, pt, node, port, bufs, n).0.pool),
        user_nodes_run(sum_inputs(c, e, pt, node, port, bufs, n).0.tasks) == user_nodes_run(c.tasks),
    decreases n,
{
    if n > 0 {
        lemma_sum_inputs_run_no_user(c, e, pt, node, port, bufs, n - 1);
        let (c1, e1, through, indep) = sum_inputs(c, e, pt, node, port, bufs, n - 1);
        let b = bufs[n - 1];
        lemma_input_buffer_runs_no_user(c1.raise_max(pt, b.buffer_id as int), e1, pt, b, node, port);
    }
}

proof fn lemma_input_ports_run_no_user(c: CompileModel, e: EntryModel, node: NodeRef, inputs: Seq<ScheduledInput>, n: int)
    requires
        inserted_kinds_ok(c.pool),
    ensures
        inserted_kinds_ok(input_ports(c, e, node, inputs, n).0.pool),
        user_nodes_run(input_ports(c, e, node, inputs, n).0.tasks) == user_nodes_run(c.tasks),
    decreases n,
{
    if n > 0 {
        lemma_input_ports_run_no_user(c, e, node, inputs, n - 1);
        let (c1, e1) = input_ports(c, e, node, inputs, n - 1);
        let port = inputs[n - 1].port;
        let bufs = inputs[n - 1].buffers@;
        let pt = port.port_type;
        if bufs.len() == 1 {
            lemma_input_buffer_runs_no_user(c1.raise_max(pt, bufs[0].buffer_id as int), e1, pt, bufs[0], node, port);
        } else {
            lemma_sum_inputs_run_no_user(c1, e1, pt, node, port, bufs, bufs.len() as int);
            let (c2, e2, through, indep) = sum_inputs(c1, e1, pt, node, port, bufs, bufs.len() as int);
            match through {
                None => {},
                Some(t) => {
                    let key = SumNodeKey { node_id: node.0 as u32, port };
                    lemma_use_sum_node_kind(
                        c2.pool.sum_nodes,
                        key,
                        bufs.len() as u32,
                        sum_node_type(pt),
                        c2.next_sum_node_id,
                    );
                    let (nodes, next, id) = use_sum_node(
                        c2.pool.sum_nodes,
                        key,
                        bufs.len() as u32,
                        sum_node_type(pt),
                        c2.next_sum_node_id,
                    );
                    lemma_user_nodes_run_push(c2.tasks, sum_task(pt, id, t, indep));
                },
            }
        }
    }
}

proof fn lemma_output_ports_run_no_user(c: CompileModel, e: EntryModel, outputs: Seq<ScheduledOutput>, n: int)
    ensures
        output_ports(c, e, outputs, n).0.pool.delay_comp_nodes == c.pool.delay_comp_nodes,
        output_ports(c, e, outputs, n).0.pool.sum_nodes == c.pool.sum_nodes,
        output_ports(c, e, outputs, n).0.tasks == c.tasks,
    decreases n,
{
    if n > 0 {
        lemma_output_ports_run_no_user(c, e, outputs, n - 1);
    }
}

proof fn lemma_finish_entry_runs_user(c: CompileModel, e: EntryModel, user: SharedUserNode, is_root: bool)
    requires
        is_user_kind(user.node.node_type),
    ensures
        user_nodes_run(finish_entry(c, e, user, is_root).tasks) == user_nodes_run(c.tasks).push(user.node),
        finish_entry(c, e, user, is_root).pool == c.pool,
{
    let root = c.pool.root_output_buffer;
    let stereo_out = if is_root {
        e.stereo_out.push(ProcBuffer { buffer: root, port_index: 0 })
    } else {
        e.stereo_out
    };
    let mm = mimic_replacing(e.mono_in, e.mono_out, user.num_mono_replacing_ports as int);
    let ms = mimic_replacing(e.stereo_in, stereo_out, user.num_stereo_replacing_ports as int);
    let t1 = push_if(c.tasks, mm.clears.len() > 0, TaskModel::ClearMono(mm.clears));
    let t2 = push_if(t1, ms.clears.len() > 0, TaskModel::ClearStereo(ms.clears));
    let t3 = push_if(t2, mm.copies.len() > 0, TaskModel::CopyMono(mm.copies));
    let t4 = push_if(t3, ms.copies.len() > 0, TaskModel::CopyStereo(ms.copies));
    lemma_user_nodes_run_push(c.tasks, TaskModel::ClearMono(mm.clears));
    lemma_user_nodes_run_push(t1, TaskModel::ClearStereo(ms.clears));
    lemma_user_nodes_run_push(t2, TaskModel::CopyMono(mm.copies));
    lemma_user_nodes_run_push(t3, TaskModel::CopyStereo(ms.copies));
    let node_task = TaskModel::Node(
        user.node,
        AssignmentModel {
            mono_replacing: mm.replacing,
            indep_mono_in: mm.ins,
            indep_mono_out: mm.outs,
            stereo_replacing: ms.replacing,
            indep_stereo_in: ms.ins,
            indep_stereo_out: ms.outs,
        },
    );
    lemma_user_nodes_run_push(t4, node_task);
}

proof fn lemma_entry_step_runs_user(c: CompileModel, entry: ScheduledNode, root: NodeRef)
    requires
        inserted_kinds_ok(c.pool),
        user_kinds_ok(c.pool),
        entry_step(c, entry, root).1 is None,
    ensures
        inserted_kinds_ok(entry_step(c, entry, root).0.pool),
        user_nodes_run(entry_step(c, entry, root).0.tasks) == user_nodes_run(c.tasks).push(
            c.pool.user_nodes[entry.node.0 as int]->0.node,
        ),
{
    let (c1, e1) = input_ports(c, empty_entry(), entry.node, entry.inputs@, entry.inputs@.len() as int);
    lemma_input_ports_run_no_user(c, empty_entry(), entry.node, entry.inputs@, entry.inputs@.len() as int);
    lemma_input_ports_keep(c, empty_entry(), entry.node, entry.inputs@, entry.inputs@.len() as int);
    let (c2, e2) = output_ports(c1, e1, entry.outputs@, entry.outputs@.len() as int);
    lemma_output_ports_run_no_user(c1, e1, entry.outputs@, entry.outputs@.len() as int);
    lemma_output_ports_keep(c1, e1, entry.outputs@, entry.outputs@.len() as int);
    let c3 = c2.raise_temp_max(e2);
    let index = entry.node.0 as int;
    assert(c3.pool.user_nodes == c.pool.user_nodes);
    assert(is_user_kind(c.pool.user_nodes[index]->0.node.node_type));
    lemma_finish_entry_runs_user(c3, e2, c3.pool.user_nodes[index]->0, entry.node == root);
}

proof fn lemma_entry_steps_run_users(c: CompileModel, entries: Seq<ScheduledNode>, root: NodeRef, n: int)
    requires
        0 <= n <= entries.len(),
        inserted_kinds_ok(c.pool),
        user_kinds_ok(c.pool),
        c.root_out is None,
        entry_steps(c, entries, root, n).1 is None,
    ensures
        inserted_kinds_ok(entry_steps(c, entries, root, n).0.pool),
        user_nodes_run(entry_steps(c, entries, root, n).0.tasks) == user_nodes_run(c.tasks) + entry_user_nodes(
            c.pool.user_nodes,
            entries,
            n,
        ),
    decreases n,
{
    if n == 0 {
        assert(entry_user_nodes(c.pool.user_nodes, entries, 0) =~= Seq::<DebugNodeID>::empty());
        assert(user_nodes_run(c.tasks) + Seq::<DebugNodeID>::empty() =~= user_nodes_run(c.tasks));
    } else {
        let (c1, err) = entry_steps(c, entries, root, n - 1);
        assert(err is None);
        lemma_entry_steps_run_users(c, entries, root, n - 1);
        lemma_entry_steps_facts(c, entries, root, n - 1);
        assert(c1.pool.user_nodes == c.pool.user_nodes);
        assert(user_kinds_ok(c1.pool));
        lemma_entry_step_runs_user(c1, entries[n - 1], root);
        assert(entry_user_nodes(c.pool.user_nodes, entries, n) =~= entry_user_nodes(
            c.pool.user_nodes,
            entries,
            n - 1,
        ).push(c.pool.user_nodes[entries[n - 1].node.0 as int]->0.node));
        assert(user_nodes_run(c.tasks) + entry_user_nodes(c.pool.user_nodes, entries, n) =~= (user_nodes_run(
            c.tasks,
        ) + entry_user_nodes(c.pool.user_nodes, entries, n - 1)).push(
            c.pool.user_nodes[entries[n - 1].node.0 as int]->0.node,
        ));
    }
}

proof fn lemma_flagged_kinds(pool: PoolModel)
    requires
        inserted_kinds_ok(pool),
    ensures
        inserted_kinds_ok(flagged_pool(pool)),
{
    let q = flagged_pool(pool);
    assert forall|j: int| 0 <= j < q.delay_comp_nodes.len() implies is_delay_kind(
        (#[trigger] q.delay_comp_nodes[j]).1.node.node_type,
    ) by {
        assert(q.delay_comp_nodes[j].1.node == pool.delay_comp_nodes[j].1.node);
    }
    assert forall|j: int| 0 <= j < q.sum_nodes.len() implies is_sum_kind((#[trigger] q.sum_nodes[j]).1.node.node_type) by {
        assert(q.sum_nodes[j].1.node == pool.sum_nodes[j].1.node);
    }
}

proof fn lemma_dropped_kinds(pool: PoolModel)
    requires
        inserted_kinds_ok(pool),
    ensures
        inserted_kinds_ok(unused_dropped(pool)),
{
    let q = unused_dropped(pool);
    let dpred = |p: (DelayCompNodeKey, SharedDelayNode)| crate::resource_pool::delay_in_graph(p);
    let spred = |p: (SumNodeKey, SharedSumNode)| crate::resource_pool::sum_in_graph(p);
    assert forall|j: int| 0 <= j < q.delay_comp_nodes.len() implies is_delay_kind(
        (#[trigger] q.delay_comp_nodes[j]).1.node.node_type,
    ) by {
        let x = q.delay_comp_nodes[j];
        assert(pool.delay_comp_nodes.filter(dpred).contains(x));
        pool.delay_comp_nodes.lemma_filter_contains_rev(dpred, x);
        let i = choose|i: int| 0 <= i < pool.delay_comp_nodes.len() && pool.delay_comp_nodes[i] == x;
        assert(is_delay_kind(pool.delay_comp_nodes[i].1.node.node_type));
    }
    assert forall|j: int| 0 <= j < q.sum_nodes.len() implies is_sum_kind((#[trigger] q.sum_nodes[j]).1.node.node_type) by {
        let x = q.sum_nodes[j];
        assert(pool.sum_nodes.filter(spred).contains(x));
        pool.sum_nodes.lemma_filter_contains_rev(spred, x);
        let i = choose|i: int| 0 <= i < pool.sum_nodes.len() && pool.sum_nodes[i] == x;
        assert(is_sum_kind(pool.sum_nodes[i].1.node.node_type));
    }
}

proof fn lemma_entry_steps_keep_kinds(c: CompileModel, entries: Seq<ScheduledNode>, root: NodeRef, n: int)
    requires
        inserted_kinds_ok(c.pool),
    ensures
        inserted_kinds_ok(entry_steps(c, entries, root, n).0.pool),
    decreases n,
{
    if n > 0 {
        lemma_entry_steps_keep_kinds(c, entries, root, n - 1);
        let (c1, err) = entry_steps(c, entries, root, n - 1);
        if err is None {
            let entry = entries[n - 1];
            let (d1, e1) = input_ports(c1, empty_entry(), entry.node, entry.inputs@, entry.inputs@.len() as int);
            lemma_input_ports_run_no_user(c1, empty_entry(), entry.node, entry.inputs@, entry.inputs@.len() as int);
            lemma_output_ports_run_no_user(d1, e1, entry.outputs@, entry.outputs@.len() as int);
        }
    }
}

/// Compiling keeps the kinds of the pool's nodes: its user node slots keep
/// holding user nodes, and its delay compensation and sum nodes stay of their
/// kinds.
pub proof fn lemma_compile_keeps_kinds(
    pool: PoolModel,
    next_delay: int,
    next_sum: int,
    entries: Seq<ScheduledNode>,
    root: NodeRef,
)
    requires
        user_kinds_ok(pool),
        inserted_kinds_ok(pool),
    ensures
        user_kinds_ok(compile_spec(pool, next_delay, next_sum, entries, root).0.pool),
        inserted_kinds_ok(compile_spec(pool, next_delay, next_sum, entries, root).0.pool),
{
    lemma_compile_keeps_user_nodes(pool, next_delay, next_sum, entries, root);
    lemma_flagged_kinds(pool);
    let c0 = initial_compile(pool, next_delay, next_sum);
    lemma_entry_steps_keep_kinds(c0, entries, root, entries.len() as int);
    let (c1, err) = entry_steps(c0, entries, root, entries.len() as int);
    if err is None {
        let (c2, root_buf, warning) = match c1.root_out {
            Some(b) => (c1, b, None),
            None => {
                let m = c1.max_stereo + 1;
                let (c, b) = CompileModel { max_stereo: m, ..c1 }.get_buffer(DebugBufferType::StereoBlock, m);
                (c, b, Some(CompilerWarning::NothingConnectedToRoot))
            },
        };
        let c3 = unused_buffers_removed(c2);
        assert(inserted_kinds_ok(c3.pool));
        lemma_dropped_kinds(c3.pool);
    }
}

/// A compiled schedule runs the user node of every entry of the graph's
/// schedule exactly once and in the graph's order: every other task belongs to
/// an inserted delay compensation or sum node, or copies or clears buffers.
/// This holds of a pool whose user node slots hold user nodes and whose
/// inserted nodes are of their kinds, which compiling keeps.
pub proof fn lemma_compile_runs_user_nodes_in_order(
    pool: PoolModel,
    next_delay: int,
    next_sum: int,
    entries: Seq<ScheduledNode>,
    root: NodeRef,
)
    requires
        user_kinds_ok(pool),
        inserted_kinds_ok(pool),
    ensures
        compile_spec(pool, next_delay, next_sum, entries, root).1 matches Ok((tasks, _, _))
            ==> user_nodes_run(tasks) == entry_user_nodes(pool.user_nodes, entries, entries.len() as int),
{
    let c0 = initial_compile(pool, next_delay, next_sum);
    let (c1, err) = entry_steps(c0, entries, root, entries.len() as int);
    if err is None {
        lemma_flagged_kinds(pool);
        assert(user_nodes_run(c0.tasks) =~= Seq::<DebugNodeID>::empty());
        lemma_entry_steps_run_users(c0, entries, root, entries.len() as int);
        assert(Seq::<DebugNodeID>::empty() + entry_user_nodes(pool.user_nodes, entries, entries.len() as int)
            =~= entry_user_nodes(pool.user_nodes, entries, entries.len() as int));
    }
}

/// After a successful compilation every delay compensation and sum node left
/// in the pool is one that the new schedule uses.
pub proof fn lemma_compile_keeps_only_used_nodes(
    pool: PoolModel,
    next_delay: int,
    next_sum: int,
    entries: Seq<ScheduledNode>,
    root: NodeRef,
)
    ensures
        compile_spec(pool, next_delay, next_sum, entries, root).1 is Ok ==> {
            let p = compile_spec(pool, next_delay, next_sum, entries, root).0.pool;
            &&& forall|j: int| 0 <= j < p.delay_comp_nodes.len() ==> (#[trigger] p.delay_comp_nodes[j]).1.is_in_graph
            &&& forall|j: int| 0 <= j < p.sum_nodes.len() ==> (#[trigger] p.sum_nodes[j]).1.is_in_graph
        },
{
    let (c, res) = compile_spec(pool, next_delay, next_sum, entries, root);
    if res is Ok {
        let p = c.pool;
        let (c1, err) = entry_steps(initial_compile(pool, next_delay, next_sum), entries, root, entries.len() as int);
        let (c2, root_buf, warning) = match c1.root_out {
            Some(b) => (c1, b, None),
            None => {
                let m = c1.max_stereo + 1;
                let (cc, b) = CompileModel { max_stereo: m, ..c1 }.get_buffer(DebugBufferType::StereoBlock, m);
                (cc, b, Some(CompilerWarning::NothingConnectedToRoot))
            },
        };
        let c3 = unused_buffers_removed(c2);
        let dpred = |q: (DelayCompNodeKey, SharedDelayNode)| crate::resource_pool::delay_in_graph(q);
        let spred = |q: (SumNodeKey, SharedSumNode)| crate::resource_pool::sum_in_graph(q);
        assert(p.delay_comp_nodes == c3.pool.delay_comp_nodes.filter(dpred));
        assert forall|j: int| 0 <= j < p.delay_comp_nodes.len() implies (#[trigger] p.delay_comp_nodes[j]).1.is_in_graph by {
            c3.pool.delay_comp_nodes.lemma_filter_pred(dpred, j);
        }
        assert forall|j: int| 0 <= j < p.sum_nodes.len() implies (#[trigger] p.sum_nodes[j]).1.is_in_graph by {
            c3.pool.sum_nodes.lemma_filter_pred(spred, j);
        }
    }
}

/// A delay compensation node whose connection and delay did not change is
/// reused as it is, and the counter that names new nodes does not move.
pub proof fn lemma_unchanged_delay_node_is_reused(
    nodes: Seq<(DelayCompNodeKey, SharedDelayNode)>,
    key: DelayCompNodeKey,
    delay: u32,
    ty: DebugNodeType,
    next: int,
)
    requires
        find_key(nodes, key) >= 0,
        nodes[find_key(nodes, key)].1.delay == delay,
    ensures
        use_delay_node(nodes, key, delay, ty, next).2 == nodes[find_key(nodes, key)].1.node,
        use_delay_node(nodes, key, delay, ty, next).1 == next,
{
}

/// A sum node whose port and number of inputs did not change is reused as it
/// is, and the counter that names new nodes does not move.
pub proof fn lemma_unchanged_sum_node_is_reused(
    nodes: Seq<(SumNodeKey, SharedSumNode)>,
    key: SumNodeKey,
    num_inputs: u32,
    ty: DebugNodeType,
    next: int,
)
    requires
        find_key(nodes, key) >= 0,
        nodes[find_key(nodes, key)].1.num_inputs == num_inputs,
    ensures
        use_sum_node(nodes, key, num_inputs, ty, next).2 == nodes[find_key(nodes, key)].1.node,
        use_sum_node(nodes, key, num_inputs, ty, next).1 == next,
{
}

/// Flagging every inserted node as unused and then dropping the unused ones
/// leaves no delay compensation or sum node: a compilation that uses none of
/// them keeps none.
pub proof fn lemma_flag_then_drop_empties(pool: PoolModel)
    ensures
        unused_dropped(flagged_pool(pool)).delay_comp_nodes.len() == 0,
        unused_dropped(flagged_pool(pool)).sum_nodes.len() == 0,
{
    let q = flagged_pool(pool);
    let dpred = |p: (DelayCompNodeKey, SharedDelayNode)| crate::resource_pool::delay_in_graph(p);
    let spred = |p: (SumNodeKey, SharedSumNode)| crate::resource_pool::sum_in_graph(p);
    if q.delay_comp_nodes.filter(dpred).len() > 0 {
        q.delay_comp_nodes.lemma_filter_pred(dpred, 0);
        q.delay_comp_nodes.lemma_filter_contains_rev(dpred, q.delay_comp_nodes.filter(dpred)[0]);
    }
    if q.sum_nodes.filter(spred).len() > 0 {
        q.sum_nodes.lemma_filter_pred(spred, 0);
        q.sum_nodes.lemma_filter_contains_rev(spred, q.sum_nodes.filter(spred)[0]);
    }
}

} // verus!
