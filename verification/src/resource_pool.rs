use vstd::prelude::*;

use crate::graph_state::{NodeRef, PortIdent, PortType};
use crate::shared::{SharedBuffer, SharedDelayNode, SharedSumNode, SharedUserNode};

verus! {

/// The kind of a node in the schedule. Used for debugging purposes.
#[derive(Debug, Clone, Copy, PartialEq, Eq, Structural)]
pub enum DebugNodeType {
    User,
    MonoSum,
    StereoSum,
    MonoDelayComp,
    StereoDelayComp,
    Root,
}

impl DebugNodeType {
    /// The short name that this kind of node is shown by.
    pub open spec fn label_spec(self) -> &'static str {
        match self {
            DebugNodeType::User => "User",
            DebugNodeType::MonoSum => "MonoSum",
            DebugNodeType::StereoSum => "StereoSum",
            DebugNodeType::MonoDelayComp => "MonoDelayComp",
            DebugNodeType::StereoDelayComp => "StereoDelayComp",
            DebugNodeType::Root => "Root",
        }
    }

    /// The short name that this kind of node is shown by.
    pub fn label(&self) -> (r: &'static str)
        ensures
            r == self.label_spec(),
    {
        match self {
            DebugNodeType::User => "User",
            DebugNodeType::MonoSum => "MonoSum",
            DebugNodeType::StereoSum => "StereoSum",
            DebugNodeType::MonoDelayComp => "MonoDelayComp",
            DebugNodeType::StereoDelayComp => "StereoDelayComp",
            DebugNodeType::Root => "Root",
        }
    }
}

/// Identifies a node in the schedule. Two identifiers are equal when their
/// type and index are; the name is only carried along for display.
#[derive(Debug, Clone, Copy)]
pub struct DebugNodeID {
    pub node_type: DebugNodeType,
    pub index: u64,
    pub name: Option<&'static str>,
}

impl DebugNodeID {
    /// What identifies the node: its type and index.
    pub open spec fn key(self) -> (DebugNodeType, u64) {
        (self.node_type, self.index)
    }
}

impl PartialEq for DebugNodeID {
    fn eq(&self, other: &Self) -> (r: bool) {
        self.node_type == other.node_type && self.index == other.index
    }
}

impl vstd::std_specs::cmp::PartialEqSpecImpl for DebugNodeID {
    open spec fn obeys_eq_spec() -> bool {
        true
    }

    open spec fn eq_spec(&self, other: &Self) -> bool {
        self.key() == other.key()
    }
}

impl Eq for DebugNodeID {}

/// The kind of a buffer. Used for debugging purposes.
#[derive(Debug, Clone, Copy, PartialEq, Eq, Structural)]
pub enum DebugBufferType {
    MonoBlock,
    StereoBlock,
    TempMonoBlock,
    TempStereoBlock,
    RootOut,
}

impl DebugBufferType {
    /// The two-letter name that this kind of buffer is shown by.
    pub open spec fn label_spec(self) -> &'static str {
        match self {
            DebugBufferType::MonoBlock => "MB",
            DebugBufferType::StereoBlock => "SB",
            DebugBufferType::TempMonoBlock => "TM",
            DebugBufferType::TempStereoBlock => "TS",
            DebugBufferType::RootOut => "RO",
        }
    }

    /// The two-letter name that this kind of buffer is shown by.
    pub fn label(&self) -> (r: &'static str)
        ensures
            r == self.label_spec(),
    {
        match self {
            DebugBufferType::MonoBlock => "MB",
            DebugBufferType::StereoBlock => "SB",
            DebugBufferType::TempMonoBlock => "TM",
            DebugBufferType::TempStereoBlock => "TS",
            DebugBufferType::RootOut => "RO",
        }
    }
}

/// Identifies a buffer. Used for debugging and for verifying schedules.
#[derive(Debug, Clone, Copy, PartialEq, Eq, Structural)]
pub struct DebugBufferID {
    pub buffer_type: DebugBufferType,
    pub index: u32,
}

/// Identifies a delay compensation node: the connection it delays.
#[derive(Debug, Clone, Copy, PartialEq, Eq, Structural)]
pub struct DelayCompNodeKey {
    pub src_node_id: u32,
    pub src_node_port: PortIdent,
    pub dst_node_id: u32,
    pub dst_node_port: PortIdent,
}

/// Identifies a sum node: the input port whose buffers it sums.
#[derive(Debug, Clone, Copy, PartialEq, Eq, Structural)]
pub struct SumNodeKey {
    pub node_id: u32,
    pub port: PortIdent,
}

} // verus!

verus! {

/// The spec-level contents of a `GraphResourcePool`.
#[verifier::ext_equal]
pub struct PoolModel {
    pub user_nodes: Seq<Option<SharedUserNode>>,
    pub delay_comp_nodes: Seq<(DelayCompNodeKey, SharedDelayNode)>,
    pub sum_nodes: Seq<(SumNodeKey, SharedSumNode)>,
    pub root_output_buffer: SharedBuffer,
    pub mono_block_buffers: Seq<DebugBufferID>,
    pub stereo_block_buffers: Seq<DebugBufferID>,
    pub temp_mono_block_buffers: Seq<DebugBufferID>,
    pub temp_stereo_block_buffers: Seq<DebugBufferID>,
}

/// The root output buffer that every pool starts with.
pub open spec fn root_output_buffer_spec() -> SharedBuffer {
    SharedBuffer { debug_id: DebugBufferID { buffer_type: DebugBufferType::RootOut, index: 0 }, slot: 0 }
}

/// `s` after asking for the buffer at `index`: when it is missing, the list
/// grows up to it, and every buffer created on the way is named after its slot.
pub open spec fn grown_buffers(s: Seq<DebugBufferID>, ty: DebugBufferType, index: int) -> Seq<
    DebugBufferID,
> {
    if s.len() <= index {
        s + Seq::new(
            (index + 1 - s.len()) as nat,
            |j: int| DebugBufferID { buffer_type: ty, index: (s.len() + j) as u32 },
        )
    } else {
        s
    }
}

/// Every buffer of `s` is of type `ty` and named after its slot, so that
/// different buffers never share an identifier.
pub open spec fn named_by_slot(s: Seq<DebugBufferID>, ty: DebugBufferType) -> bool {
    forall|i: int| 0 <= i < s.len() ==> #[trigger] s[i] == (DebugBufferID { buffer_type: ty, index: i as u32 })
}

/// `s` after removing `n` buffers from its end (or all of them, when it has fewer).
pub open spec fn shrunk_buffers(s: Seq<DebugBufferID>, n: int) -> Seq<DebugBufferID> {
    if n < s.len() {
        s.take(s.len() - n)
    } else {
        Seq::empty()
    }
}

/// `s` after setting the slot `index` to `v`, growing it with empty slots
/// up to `index` when it is shorter.
pub open spec fn set_user_node_spec(
    s: Seq<Option<SharedUserNode>>,
    index: int,
    v: Option<SharedUserNode>,
) -> Seq<Option<SharedUserNode>> {
    let grown = if s.len() <= index {
        s + Seq::new((index + 1 - s.len()) as nat, |_j: int| None::<SharedUserNode>)
    } else {
        s
    };
    grown.update(index, v)
}

/// The position of the first entry of `s` whose key is `k`, at or after `j`,
/// or -1 when there is none.
pub open spec fn find_key_from<K, V>(s: Seq<(K, V)>, k: K, j: int) -> int
    decreases s.len() - j,
{
    if j < 0 || j >= s.len() {
        -1
    } else if s[j].0 == k {
        j
    } else {
        find_key_from(s, k, j + 1)
    }
}

/// The position of the entry of `s` whose key is `k`, or -1 when there is none.
pub open spec fn find_key<K, V>(s: Seq<(K, V)>, k: K) -> int {
    find_key_from(s, k, 0)
}

/// No key occurs twice in `s`.
pub open spec fn keys_unique<K, V>(s: Seq<(K, V)>) -> bool {
    forall|i: int, j: int| 0 <= i < j < s.len() ==> s[i].0 != s[j].0
}

/// The map that an association list with unique keys stands for.
pub open spec fn as_map<K, V>(s: Seq<(K, V)>) -> Map<K, V> {
    Map::new(|k: K| find_key(s, k) >= 0, |k: K| s[find_key(s, k)].1)
}

/// The entry of a delay compensation node, flagged as not in the graph.
pub open spec fn unflag_delay(p: (DelayCompNodeKey, SharedDelayNode)) -> (DelayCompNodeKey, SharedDelayNode) {
    (p.0, SharedDelayNode { node: p.1.node, delay: p.1.delay, is_in_graph: false })
}

/// The entry of a sum node, flagged as not in the graph.
pub open spec fn unflag_sum(p: (SumNodeKey, SharedSumNode)) -> (SumNodeKey, SharedSumNode) {
    (p.0, SharedSumNode { node: p.1.node, num_inputs: p.1.num_inputs, is_in_graph: false })
}

/// Whether the entry of a delay compensation node is flagged as in the graph.
pub open spec fn delay_in_graph(p: (DelayCompNodeKey, SharedDelayNode)) -> bool {
    p.1.is_in_graph
}

/// Whether the entry of a sum node is flagged as in the graph.
pub open spec fn sum_in_graph(p: (SumNodeKey, SharedSumNode)) -> bool {
    p.1.is_in_graph
}

/// The type of the block buffers of ports of type `pt`.
pub open spec fn block_type(pt: PortType) -> DebugBufferType {
    match pt {
        PortType::MonoAudio => DebugBufferType::MonoBlock,
        PortType::StereoAudio => DebugBufferType::StereoBlock,
    }
}

/// The type of the temporary buffers of ports of type `pt`.
pub open spec fn temp_type(pt: PortType) -> DebugBufferType {
    match pt {
        PortType::MonoAudio => DebugBufferType::TempMonoBlock,
        PortType::StereoAudio => DebugBufferType::TempStereoBlock,
    }
}

impl PoolModel {
    /// The buffers of the given type.
    pub open spec fn buffers(self, ty: DebugBufferType) -> Seq<DebugBufferID> {
        match ty {
            DebugBufferType::MonoBlock => self.mono_block_buffers,
            DebugBufferType::StereoBlock => self.stereo_block_buffers,
            DebugBufferType::TempMonoBlock => self.temp_mono_block_buffers,
            DebugBufferType::TempStereoBlock => self.temp_stereo_block_buffers,
            DebugBufferType::RootOut => seq![self.root_output_buffer.debug_id],
        }
    }

    /// This pool with the buffers of type `ty` (not `RootOut`) replaced by `s`.
    pub open spec fn with_buffers(self, ty: DebugBufferType, s: Seq<DebugBufferID>) -> PoolModel {
        match ty {
            DebugBufferType::MonoBlock => PoolModel { mono_block_buffers: s, ..self },
            DebugBufferType::StereoBlock => PoolModel { stereo_block_buffers: s, ..self },
            DebugBufferType::TempMonoBlock => PoolModel { temp_mono_block_buffers: s, ..self },
            DebugBufferType::TempStereoBlock => PoolModel { temp_stereo_block_buffers: s, ..self },
            DebugBufferType::RootOut => self,
        }
    }

    /// Asking for the buffer of type `ty` at `index`: the pool afterwards, and
    /// the buffer handed out.
    pub open spec fn get_buffer(self, ty: DebugBufferType, index: int) -> (PoolModel, SharedBuffer) {
        let s = grown_buffers(self.buffers(ty), ty, index);
        (self.with_buffers(ty, s), SharedBuffer { debug_id: s[index], slot: index as usize })
    }

    /// Well-formedness: every buffer carries the type of its list and its
    /// slot as its index, the root output buffer is the one the pool was made
    /// with, and no key of the node maps occurs twice.
    pub open spec fn wf(self) -> bool {
        &&& named_by_slot(self.mono_block_buffers, DebugBufferType::MonoBlock)
        &&& named_by_slot(self.stereo_block_buffers, DebugBufferType::StereoBlock)
        &&& named_by_slot(self.temp_mono_block_buffers, DebugBufferType::TempMonoBlock)
        &&& named_by_slot(self.temp_stereo_block_buffers, DebugBufferType::TempStereoBlock)
        &&& self.root_output_buffer == root_output_buffer_spec()
        &&& keys_unique(self.delay_comp_nodes)
        &&& keys_unique(self.sum_nodes)
    }
}

/// The nodes and buffers that schedules are built from. Only to be used by the
/// non-realtime thread.
///
/// The pool records what exists: the user nodes by index, the delay
/// compensation and sum nodes that the compiler inserted, keyed by what they
/// serve, and the debug identifiers of the buffers of each type by slot.
pub struct GraphResourcePool {
    pub user_nodes: Vec<Option<SharedUserNode>>,
    pub delay_comp_nodes: Vec<(DelayCompNodeKey, SharedDelayNode)>,
    pub sum_nodes: Vec<(SumNodeKey, SharedSumNode)>,
    pub root_output_buffer: SharedBuffer,
    pub mono_block_buffers: Vec<DebugBufferID>,
    pub stereo_block_buffers: Vec<DebugBufferID>,
    pub temp_mono_block_buffers: Vec<DebugBufferID>,
    pub temp_stereo_block_buffers: Vec<DebugBufferID>,
}

impl GraphResourcePool {
    /// The pool's contents as plain sequences.
    pub open spec fn model(&self) -> PoolModel {
        PoolModel {
            user_nodes: self.user_nodes@,
            delay_comp_nodes: self.delay_comp_nodes@,
            sum_nodes: self.sum_nodes@,
            root_output_buffer: self.root_output_buffer,
            mono_block_buffers: self.mono_block_buffers@,
            stereo_block_buffers: self.stereo_block_buffers@,
            temp_mono_block_buffers: self.temp_mono_block_buffers@,
            temp_stereo_block_buffers: self.temp_stereo_block_buffers@,
        }
    }

    /// Create a new resource pool: no nodes, no buffers but the root output buffer.
    pub fn new() -> (r: Self)
        ensures
            r.model() == (PoolModel {
                user_nodes: Seq::empty(),
                delay_comp_nodes: Seq::empty(),
                sum_nodes: Seq::empty(),
                root_output_buffer: root_output_buffer_spec(),
                mono_block_buffers: Seq::empty(),
                stereo_block_buffers: Seq::empty(),
                temp_mono_block_buffers: Seq::empty(),
                temp_stereo_block_buffers: Seq::empty(),
            }),
            r.model().wf(),
    {
        let root_output_buffer = SharedBuffer {
            debug_id: DebugBufferID { buffer_type: DebugBufferType::RootOut, index: 0 },
            slot: 0,
        };
        GraphResourcePool {
            user_nodes: Vec::new(),
            delay_comp_nodes: Vec::new(),
            sum_nodes: Vec::new(),
            root_output_buffer,
            mono_block_buffers: Vec::new(),
            stereo_block_buffers: Vec::new(),
            temp_mono_block_buffers: Vec::new(),
            temp_stereo_block_buffers: Vec::new(),
        }
    }

    /// Record the user node `node_ref`, growing the list of user nodes when needed.
    pub fn add_user_node(
        &mut self,
        node_ref: NodeRef,
        debug_id: DebugNodeID,
        num_mono_replacing_ports: u32,
        num_stereo_replacing_ports: u32,
    )
        requires
            node_ref.0 < usize::MAX,
        ensures
            final(self).model() == (PoolModel {
                user_nodes: set_user_node_spec(
                    old(self).model().user_nodes,
                    node_ref.0 as int,
                    Some(
                        SharedUserNode {
                            node: debug_id,
                            num_mono_replacing_ports,
                            num_stereo_replacing_ports,
                        },
                    ),
                ),
                ..old(self).model()
            }),
    {
        let index = node_ref.index();
        grow_user_nodes(&mut self.user_nodes, index);
        self.user_nodes.set(
            index,
            Some(
                SharedUserNode { node: debug_id, num_mono_replacing_ports, num_stereo_replacing_ports },
            ),
        );
    }

    /// Forget the user node `node_ref`.
    pub fn remove_user_node(&mut self, node_ref: NodeRef)
        requires
            node_ref.0 < old(self).user_nodes@.len(),
        ensures
            final(self).model() == (PoolModel {
                user_nodes: old(self).model().user_nodes.update(node_ref.0 as int, None),
                ..old(self).model()
            }),
    {
        let index = node_ref.index();
        self.user_nodes.set(index, None);
    }
}

impl GraphResourcePool {
    /// The mono block buffer at `buffer_index`, created (along with every
    /// missing one before it) when it does not exist yet.
    pub fn get_mono_audio_block_buffer(&mut self, buffer_index: usize) -> (r: SharedBuffer)
        requires
            buffer_index < usize::MAX,
        ensures
            (final(self).model(), r) == old(self).model().get_buffer(DebugBufferType::MonoBlock, buffer_index as int),
    {
        grow_and_get(&mut self.mono_block_buffers, DebugBufferType::MonoBlock, buffer_index)
    }

    /// The stereo block buffer at `buffer_index`, created (along with every
    /// missing one before it) when it does not exist yet.
    pub fn get_stereo_audio_block_buffer(&mut self, buffer_index: usize) -> (r: SharedBuffer)
        requires
            buffer_index < usize::MAX,
        ensures
            (final(self).model(), r) == old(self).model().get_buffer(DebugBufferType::StereoBlock, buffer_index as int),
    {
        grow_and_get(&mut self.stereo_block_buffers, DebugBufferType::StereoBlock, buffer_index)
    }

    /// The temporary mono buffer at `buffer_index`, created (along with every
    /// missing one before it) when it does not exist yet.
    pub fn get_temp_mono_audio_block_buffer(&mut self, buffer_index: usize) -> (r: SharedBuffer)
        requires
            buffer_index < usize::MAX,
        ensures
            (final(self).model(), r) == old(self).model().get_buffer(DebugBufferType::TempMonoBlock, buffer_index as int),
    {
        grow_and_get(&mut self.temp_mono_block_buffers, DebugBufferType::TempMonoBlock, buffer_index)
    }

    /// The temporary stereo buffer at `buffer_index`, created (along with every
    /// missing one before it) when it does not exist yet.
    pub fn get_temp_stereo_audio_block_buffer(&mut self, buffer_index: usize) -> (r: SharedBuffer)
        requires
            buffer_index < usize::MAX,
        ensures
            (final(self).model(), r) == old(self).model().get_buffer(DebugBufferType::TempStereoBlock, buffer_index as int),
    {
        grow_and_get(&mut self.temp_stereo_block_buffers, DebugBufferType::TempStereoBlock, buffer_index)
    }

    /// The block buffer for ports of type `port_type` at `buffer_index`.
    pub fn get_block_buffer(&mut self, port_type: PortType, buffer_index: usize) -> (r: SharedBuffer)
        requires
            buffer_index < usize::MAX,
        ensures
            (final(self).model(), r) == old(self).model().get_buffer(block_type(port_type), buffer_index as int),
    {
        match port_type {
            PortType::MonoAudio => self.get_mono_audio_block_buffer(buffer_index),
            PortType::StereoAudio => self.get_stereo_audio_block_buffer(buffer_index),
        }
    }

    /// The temporary buffer for ports of type `port_type` at `buffer_index`.
    pub fn get_temp_buffer(&mut self, port_type: PortType, buffer_index: usize) -> (r: SharedBuffer)
        requires
            buffer_index < usize::MAX,
        ensures
            (final(self).model(), r) == old(self).model().get_buffer(temp_type(port_type), buffer_index as int),
    {
        match port_type {
            PortType::MonoAudio => self.get_temp_mono_audio_block_buffer(buffer_index),
            PortType::StereoAudio => self.get_temp_stereo_audio_block_buffer(buffer_index),
        }
    }

    /// Remove up to `n_to_remove` mono block buffers from the end.
    pub fn remove_mono_block_buffers(&mut self, n_to_remove: usize)
        ensures
            final(self).model() == old(self).model().with_buffers(
                DebugBufferType::MonoBlock,
                shrunk_buffers(old(self).model().mono_block_buffers, n_to_remove as int),
            ),
    {
        pop_buffers(&mut self.mono_block_buffers, n_to_remove)
    }

    /// Remove up to `n_to_remove` stereo block buffers from the end.
    pub fn remove_stereo_block_buffers(&mut self, n_to_remove: usize)
        ensures
            final(self).model() == old(self).model().with_buffers(
                DebugBufferType::StereoBlock,
                shrunk_buffers(old(self).model().stereo_block_buffers, n_to_remove as int),
            ),
    {
        pop_buffers(&mut self.stereo_block_buffers, n_to_remove)
    }

    /// Remove up to `n_to_remove` temporary mono buffers from the end.
    pub fn remove_temp_mono_block_buffers(&mut self, n_to_remove: usize)
        ensures
            final(self).model() == old(self).model().with_buffers(
                DebugBufferType::TempMonoBlock,
                shrunk_buffers(old(self).model().temp_mono_block_buffers, n_to_remove as int),
            ),
    {
        pop_buffers(&mut self.temp_mono_block_buffers, n_to_remove)
    }

    /// Remove up to `n_to_remove` temporary stereo buffers from the end.
    pub fn remove_temp_stereo_block_buffers(&mut self, n_to_remove: usize)
        ensures
            final(self).model() == old(self).model().with_buffers(
                DebugBufferType::TempStereoBlock,
                shrunk_buffers(old(self).model().temp_stereo_block_buffers, n_to_remove as int),
            ),
    {
        pop_buffers(&mut self.temp_stereo_block_buffers, n_to_remove)
    }

    /// Flag all delay compensation and sum nodes as unused.
    pub fn flag_unused(&mut self)
        ensures
            final(self).model() == (PoolModel {
                delay_comp_nodes: old(self).model().delay_comp_nodes.map_values(
                    |p: (DelayCompNodeKey, SharedDelayNode)| unflag_delay(p),
                ),
                sum_nodes: old(self).model().sum_nodes.map_values(
                    |p: (SumNodeKey, SharedSumNode)| unflag_sum(p),
                ),
                ..old(self).model()
            }),
    {
        unflag_delay_nodes(&mut self.delay_comp_nodes);
        unflag_sum_nodes(&mut self.sum_nodes);
    }

    /// Drop all delay compensation and sum nodes that are not flagged as in the graph.
    pub fn drop_unused(&mut self)
        ensures
            final(self).model() == (PoolModel {
                delay_comp_nodes: old(self).model().delay_comp_nodes.filter(
                    |p: (DelayCompNodeKey, SharedDelayNode)| delay_in_graph(p),
                ),
                sum_nodes: old(self).model().sum_nodes.filter(
                    |p: (SumNodeKey, SharedSumNode)| sum_in_graph(p),
                ),
                ..old(self).model()
            }),
    {
        retain_delay_nodes_in_graph(&mut self.delay_comp_nodes);
        retain_sum_nodes_in_graph(&mut self.sum_nodes);
    }

    /// The position of the delay compensation node with the key `key`.
    pub fn find_delay_comp_node(&self, key: DelayCompNodeKey) -> (r: Option<usize>)
        ensures
            match r {
                Some(j) => j as int == find_key(self.model().delay_comp_nodes, key) && j
                    < self.model().delay_comp_nodes.len(),
                None => find_key(self.model().delay_comp_nodes, key) == -1,
            },
    {
        find_delay_node(&self.delay_comp_nodes, key)
    }

    /// The position of the sum node with the key `key`.
    pub fn find_sum_node(&self, key: SumNodeKey) -> (r: Option<usize>)
        ensures
            match r {
                Some(j) => j as int == find_key(self.model().sum_nodes, key) && j
                    < self.model().sum_nodes.len(),
                None => find_key(self.model().sum_nodes, key) == -1,
            },
    {
        find_sum_node(&self.sum_nodes, key)
    }
}

/// What `find_key_from` finds: the first entry with the key, or none.
pub proof fn lemma_find_key_from<K, V>(s: Seq<(K, V)>, k: K, j: int)
    requires
        0 <= j,
    ensures
        find_key_from(s, k, j) == -1 ==> forall|i: int| j <= i < s.len() ==> s[i].0 != k,
        find_key_from(s, k, j) != -1 ==> j <= find_key_from(s, k, j) < s.len() && s[find_key_from(
            s,
            k,
            j,
        )].0 == k,
    decreases s.len() - j,
{
    if j < s.len() && s[j].0 != k {
        lemma_find_key_from(s, k, j + 1);
    }
}

/// What `find_key` finds: the entry with the key, or none.
pub proof fn lemma_find_key<K, V>(s: Seq<(K, V)>, k: K)
    ensures
        find_key(s, k) == -1 ==> forall|i: int| 0 <= i < s.len() ==> s[i].0 != k,
        find_key(s, k) != -1 ==> 0 <= find_key(s, k) < s.len() && s[find_key(s, k)].0 == k,
{
    lemma_find_key_from(s, k, 0);
}

/// Replacing the value of an entry keeps the keys unique.
pub proof fn lemma_keys_unique_update<K, V>(s: Seq<(K, V)>, j: int, v: V)
    requires
        keys_unique(s),
        0 <= j < s.len(),
    ensures
        keys_unique(s.update(j, (s[j].0, v))),
{
    assert forall|a: int, b: int| 0 <= a < b < s.update(j, (s[j].0, v)).len() implies s.update(
        j,
        (s[j].0, v),
    )[a].0 != s.update(j, (s[j].0, v))[b].0 by {
        assert(s[a].0 != s[b].0);
    }
}

/// Appending an entry whose key is absent keeps the keys unique.
pub proof fn lemma_keys_unique_push<K, V>(s: Seq<(K, V)>, k: K, v: V)
    requires
        keys_unique(s),
        find_key(s, k) == -1,
    ensures
        keys_unique(s.push((k, v))),
{
    lemma_find_key(s, k);
    assert forall|a: int, b: int| 0 <= a < b < s.push((k, v)).len() implies s.push((k, v))[a].0
        != s.push((k, v))[b].0 by {
        if b < s.len() {
            assert(s[a].0 != s[b].0);
        }
    }
}

/// Asking for a buffer keeps the pool well-formed.
pub proof fn lemma_get_buffer_wf(p: PoolModel, ty: DebugBufferType, index: int)
    requires
        p.wf(),
        ty != DebugBufferType::RootOut,
    ensures
        p.get_buffer(ty, index).0.wf(),
        p.get_buffer(ty, index).0.user_nodes == p.user_nodes,
        p.get_buffer(ty, index).0.delay_comp_nodes == p.delay_comp_nodes,
        p.get_buffer(ty, index).0.sum_nodes == p.sum_nodes,
        p.get_buffer(ty, index).0.root_output_buffer == p.root_output_buffer,
        forall|t: DebugBufferType| t != ty ==> p.get_buffer(ty, index).0.buffers(t) == p.buffers(t),
        p.get_buffer(ty, index).0.buffers(ty) == grown_buffers(p.buffers(ty), ty, index),
{
}

/// Removing buffers from the ends of the lists keeps the pool well-formed.
pub proof fn lemma_shrink_wf(p: PoolModel, q: PoolModel)
    requires
        p.wf(),
        q.user_nodes == p.user_nodes,
        q.delay_comp_nodes == p.delay_comp_nodes,
        q.sum_nodes == p.sum_nodes,
        q.root_output_buffer == p.root_output_buffer,
        q.mono_block_buffers.len() <= p.mono_block_buffers.len(),
        q.stereo_block_buffers.len() <= p.stereo_block_buffers.len(),
        q.temp_mono_block_buffers.len() <= p.temp_mono_block_buffers.len(),
        q.temp_stereo_block_buffers.len() <= p.temp_stereo_block_buffers.len(),
        forall|i: int| 0 <= i < q.mono_block_buffers.len() ==> q.mono_block_buffers[i] == p.mono_block_buffers[i],
        forall|i: int| 0 <= i < q.stereo_block_buffers.len() ==> q.stereo_block_buffers[i] == p.stereo_block_buffers[i],
        forall|i: int| 0 <= i < q.temp_mono_block_buffers.len() ==> q.temp_mono_block_buffers[i] == p.temp_mono_block_buffers[i],
        forall|i: int| 0 <= i < q.temp_stereo_block_buffers.len() ==> q.temp_stereo_block_buffers[i] == p.temp_stereo_block_buffers[i],
    ensures
        q.wf(),
{
    assert forall|i: int| 0 <= i < q.mono_block_buffers.len() implies #[trigger] q.mono_block_buffers[i]
        == (DebugBufferID { buffer_type: DebugBufferType::MonoBlock, index: i as u32 }) by {
        assert(q.mono_block_buffers[i] == p.mono_block_buffers[i]);
    }
    assert forall|i: int| 0 <= i < q.stereo_block_buffers.len() implies #[trigger] q.stereo_block_buffers[i]
        == (DebugBufferID { buffer_type: DebugBufferType::StereoBlock, index: i as u32 }) by {
        assert(q.stereo_block_buffers[i] == p.stereo_block_buffers[i]);
    }
    assert forall|i: int| 0 <= i < q.temp_mono_block_buffers.len() implies #[trigger] q.temp_mono_block_buffers[i]
        == (DebugBufferID { buffer_type: DebugBufferType::TempMonoBlock, index: i as u32 }) by {
        assert(q.temp_mono_block_buffers[i] == p.temp_mono_block_buffers[i]);
    }
    assert forall|i: int| 0 <= i < q.temp_stereo_block_buffers.len() implies #[trigger] q.temp_stereo_block_buffers[i]
        == (DebugBufferID { buffer_type: DebugBufferType::TempStereoBlock, index: i as u32 }) by {
        assert(q.temp_stereo_block_buffers[i] == p.temp_stereo_block_buffers[i]);
    }
}

/// Filtering keeps what no key occurs twice in.
pub proof fn lemma_filter_keys_unique<K, V>(s: Seq<(K, V)>, pred: spec_fn((K, V)) -> bool)
    requires
        keys_unique(s),
    ensures
        keys_unique(s.filter(pred)),
    decreases s.len(),
{
    reveal(Seq::filter);
    if s.len() > 0 {
        let init = s.drop_last();
        assert(keys_unique(init));
        lemma_filter_keys_unique(init, pred);
        let f = init.filter(pred);
        if pred(s.last()) {
            assert forall|i: int, j: int| 0 <= i < j < f.push(s.last()).len() implies f.push(
                s.last(),
            )[i].0 != f.push(s.last())[j].0 by {
                if j == f.len() {
                    init.lemma_filter_contains_rev(pred, f[i]);
                    let k = choose|k: int| 0 <= k < init.len() && init[k] == f[i];
                    assert(s[k] == init[k]);
                }
            }
        }
    }
}

/// Filtering with a predicate that holds everywhere keeps everything.
pub proof fn lemma_filter_all<A>(s: Seq<A>, pred: spec_fn(A) -> bool)
    requires
        forall|i: int| 0 <= i < s.len() ==> pred(#[trigger] s[i]),
    ensures
        s.filter(pred) == s,
    decreases s.len(),
{
    reveal(Seq::filter);
    if s.len() > 0 {
        lemma_filter_all(s.drop_last(), pred);
        assert(s.drop_last().push(s.last()) =~= s);
    }
}

/// Keep the delay compensation nodes that are flagged as in the graph.
fn retain_delay_nodes_in_graph(nodes: &mut Vec<(DelayCompNodeKey, SharedDelayNode)>)
    ensures
        final(nodes)@ == old(nodes)@.filter(|p: (DelayCompNodeKey, SharedDelayNode)| delay_in_graph(p)),
{
    let ghost d0 = nodes@;
    let ghost pred = |p: (DelayCompNodeKey, SharedDelayNode)| delay_in_graph(p);
    // Rebuilding the list can be expensive, so only do it when it is actually needed.
    let mut any_unused = false;
    let mut i: usize = 0;
    while i < nodes.len()
        invariant
            nodes@ == d0,
            i <= d0.len(),
            pred == (|p: (DelayCompNodeKey, SharedDelayNode)| delay_in_graph(p)),
            !any_unused ==> forall|j: int| 0 <= j < i ==> #[trigger] pred(d0[j]),
        decreases d0.len() - i,
    {
        if !nodes[i].1.is_in_graph {
            any_unused = true;
        }
        i = i + 1;
    }
    if any_unused {
        let mut kept: Vec<(DelayCompNodeKey, SharedDelayNode)> = Vec::new();
        let mut i: usize = 0;
        while i < nodes.len()
            invariant
                nodes@ == d0,
                i <= d0.len(),
                pred == (|p: (DelayCompNodeKey, SharedDelayNode)| delay_in_graph(p)),
                kept@ == d0.take(i as int).filter(pred),
            decreases d0.len() - i,
        {
            proof {
                assert(d0.take(i + 1) =~= d0.take(i as int).push(d0[i as int]));
                d0.take(i as int).lemma_filter_push(d0[i as int], pred);
            }
            let p = nodes[i];
            if p.1.is_in_graph {
                kept.push(p);
            }
            i = i + 1;
        }
        assert(d0.take(d0.len() as int) =~= d0);
        *nodes = kept;
    } else {
        proof {
            lemma_filter_all(d0, pred);
        }
    }
}

/// Keep the sum nodes that are flagged as in the graph.
fn retain_sum_nodes_in_graph(nodes: &mut Vec<(SumNodeKey, SharedSumNode)>)
    ensures
        final(nodes)@ == old(nodes)@.filter(|p: (SumNodeKey, SharedSumNode)| sum_in_graph(p)),
{
    let ghost s0 = nodes@;
    let ghost pred = |p: (SumNodeKey, SharedSumNode)| sum_in_graph(p);
    // Rebuilding the list can be expensive, so only do it when it is actually needed.
    let mut any_unused = false;
    let mut i: usize = 0;
    while i < nodes.len()
        invariant
            nodes@ == s0,
            i <= s0.len(),
            pred == (|p: (SumNodeKey, SharedSumNode)| sum_in_graph(p)),
            !any_unused ==> forall|j: int| 0 <= j < i ==> #[trigger] pred(s0[j]),
        decreases s0.len() - i,
    {
        if !nodes[i].1.is_in_graph {
            any_unused = true;
        }
        i = i + 1;
    }
    if any_unused {
        let mut kept: Vec<(SumNodeKey, SharedSumNode)> = Vec::new();
        let mut i: usize = 0;
        while i < nodes.len()
            invariant
                nodes@ == s0,
                i <= s0.len(),
                pred == (|p: (SumNodeKey, SharedSumNode)| sum_in_graph(p)),
                kept@ == s0.take(i as int).filter(pred),
            decreases s0.len() - i,
        {
            proof {
                assert(s0.take(i + 1) =~= s0.take(i as int).push(s0[i as int]));
                s0.take(i as int).lemma_filter_push(s0[i as int], pred);
            }
            let p = nodes[i];
            if p.1.is_in_graph {
                kept.push(p);
            }
            i = i + 1;
        }
        assert(s0.take(s0.len() as int) =~= s0);
        *nodes = kept;
    } else {
        proof {
            lemma_filter_all(s0, pred);
        }
    }
}

/// The position of the delay compensation node with the key `key`.
fn find_delay_node(nodes: &Vec<(DelayCompNodeKey, SharedDelayNode)>, key: DelayCompNodeKey) -> (r:
    Option<usize>)
    ensures
        match r {
            Some(j) => j as int == find_key(nodes@, key) && j < nodes@.len(),
            None => find_key(nodes@, key) == -1,
        },
{
    let mut i: usize = 0;
    while i < nodes.len()
        invariant
            i <= nodes@.len(),
            find_key(nodes@, key) == find_key_from(nodes@, key, i as int),
        decreases nodes@.len() - i,
    {
        if nodes[i].0 == key {
            return Some(i);
        }
        i = i + 1;
    }
    None
}

/// The position of the sum node with the key `key`.
fn find_sum_node(nodes: &Vec<(SumNodeKey, SharedSumNode)>, key: SumNodeKey) -> (r: Option<usize>)
    ensures
        match r {
            Some(j) => j as int == find_key(nodes@, key) && j < nodes@.len(),
            None => find_key(nodes@, key) == -1,
        },
{
    let mut i: usize = 0;
    while i < nodes.len()
        invariant
            i <= nodes@.len(),
            find_key(nodes@, key) == find_key_from(nodes@, key, i as int),
        decreases nodes@.len() - i,
    {
        if nodes[i].0 == key {
            return Some(i);
        }
        i = i + 1;
    }
    None
}

/// Clear the "in graph" flag of every delay compensation node.
fn unflag_delay_nodes(nodes: &mut Vec<(DelayCompNodeKey, SharedDelayNode)>)
    ensures
        final(nodes)@ == old(nodes)@.map_values(|p: (DelayCompNodeKey, SharedDelayNode)| unflag_delay(p)),
{
    let ghost d0 = nodes@;
    let mut i: usize = 0;
    while i < nodes.len()
        invariant
            nodes@.len() == d0.len(),
            forall|j: int| 0 <= j < i ==> #[trigger] nodes@[j] == unflag_delay(d0[j]),
            forall|j: int| i <= j < d0.len() ==> #[trigger] nodes@[j] == d0[j],
        decreases d0.len() - i,
    {
        let (k, n) = nodes[i];
        nodes.set(i, (k, SharedDelayNode { node: n.node, delay: n.delay, is_in_graph: false }));
        i = i + 1;
    }
    assert(nodes@ =~= d0.map_values(|p: (DelayCompNodeKey, SharedDelayNode)| unflag_delay(p)));
}

/// Clear the "in graph" flag of every sum node.
fn unflag_sum_nodes(nodes: &mut Vec<(SumNodeKey, SharedSumNode)>)
    ensures
        final(nodes)@ == old(nodes)@.map_values(|p: (SumNodeKey, SharedSumNode)| unflag_sum(p)),
{
    let ghost s0 = nodes@;
    let mut i: usize = 0;
    while i < nodes.len()
        invariant
            nodes@.len() == s0.len(),
            forall|j: int| 0 <= j < i ==> #[trigger] nodes@[j] == unflag_sum(s0[j]),
            forall|j: int| i <= j < s0.len() ==> #[trigger] nodes@[j] == s0[j],
        decreases s0.len() - i,
    {
        let (k, n) = nodes[i];
        nodes.set(i, (k, SharedSumNode { node: n.node, num_inputs: n.num_inputs, is_in_graph: false }));
        i = i + 1;
    }
    assert(nodes@ =~= s0.map_values(|p: (SumNodeKey, SharedSumNode)| unflag_sum(p)));
}

/// Grow `nodes` with empty slots until `index` is a slot of it.
fn grow_user_nodes(nodes: &mut Vec<Option<SharedUserNode>>, index: usize)
    requires
        index < usize::MAX,
    ensures
        final(nodes)@ == (if old(nodes)@.len() <= index {
            old(nodes)@ + Seq::new((index + 1 - old(nodes)@.len()) as nat, |_j: int| None::<SharedUserNode>)
        } else {
            old(nodes)@
        }),
{
    let ghost s0 = nodes@;
    while index >= nodes.len()
        invariant
            index < usize::MAX,
            nodes@.len() >= s0.len(),
            s0.len() > index ==> nodes@.len() == s0.len(),
            s0.len() <= index ==> nodes@.len() <= index + 1,
            nodes@ =~= s0 + Seq::new((nodes@.len() - s0.len()) as nat, |_j: int| None::<SharedUserNode>),
        decreases index + 1 - nodes@.len(),
    {
        nodes.push(None);
    }
}

/// Grow `buffers` up to `index` (naming every new buffer after `index`) and
/// hand out the buffer at `index`.
fn grow_and_get(buffers: &mut Vec<DebugBufferID>, ty: DebugBufferType, index: usize) -> (r:
    SharedBuffer)
    requires
        index < usize::MAX,
    ensures
        final(buffers)@ == grown_buffers(old(buffers)@, ty, index as int),
        r == (SharedBuffer { debug_id: final(buffers)@[index as int], slot: index }),
{
    let ghost s0 = buffers@;
    if buffers.len() <= index {
        let n_new = (index + 1) - buffers.len();
        let mut k: usize = 0;
        while k < n_new
            invariant
                s0.len() <= index,
                n_new == index + 1 - s0.len(),
                k <= n_new,
                buffers@ =~= s0 + Seq::new(
                    k as nat,
                    |j: int| DebugBufferID { buffer_type: ty, index: (s0.len() + j) as u32 },
                ),
            decreases n_new - k,
        {
            let slot = buffers.len();
            buffers.push(DebugBufferID { buffer_type: ty, index: slot as u32 });
            k = k + 1;
        }
    }
    SharedBuffer { debug_id: buffers[index], slot: index }
}

/// Pop up to `n` buffers off the end of `buffers`.
fn pop_buffers(buffers: &mut Vec<DebugBufferID>, n_to_remove: usize)
    ensures
        final(buffers)@ == shrunk_buffers(old(buffers)@, n_to_remove as int),
{
    let n = if n_to_remove < buffers.len() {
        n_to_remove
    } else {
        buffers.len()
    };
    let ghost s0 = buffers@;
    let mut k: usize = 0;
    while k < n
        invariant
            n <= s0.len(),
            n == n_to_remove || n == s0.len(),
            n_to_remove < s0.len() ==> n == n_to_remove,
            k <= n,
            buffers@ =~= s0.take(s0.len() - k),
        decreases n - k,
    {
        let _ = buffers.pop();
        k = k + 1;
    }
}

/// In a well-formed pool two different buffers of one type never share an
/// identifier (as long as their slots fit in the identifier's `u32`), and
/// asking for a buffer hands out the one named after the slot asked for.
pub proof fn lemma_buffers_named_apart(p: PoolModel, ty: DebugBufferType, i: int, j: int)
    requires
        p.wf(),
        ty != DebugBufferType::RootOut,
        0 <= i < j < p.buffers(ty).len(),
        j <= u32::MAX,
    ensures
        p.buffers(ty)[i] != p.buffers(ty)[j],
        p.get_buffer(ty, i).1.debug_id == (DebugBufferID { buffer_type: ty, index: i as u32 }),
{
    assert(p.buffers(ty)[i].index == i);
    assert(p.buffers(ty)[j].index == j);
}

/// Asking again for a buffer that was just handed out hands out the same
/// buffer and changes nothing; and asking for a buffer never changes the
/// buffers that already existed.
pub proof fn lemma_get_buffer_stable(p: PoolModel, ty: DebugBufferType, index: int)
    requires
        ty != DebugBufferType::RootOut,
        0 <= index,
    ensures
        p.get_buffer(ty, index).0.get_buffer(ty, index) == p.get_buffer(ty, index),
        p.get_buffer(ty, index).0.buffers(ty).len() > index,
        forall|j: int| 0 <= j < p.buffers(ty).len() ==> #[trigger] p.get_buffer(ty, index).0.buffers(ty)[j] == p.buffers(ty)[j],
{
    let (q, b) = p.get_buffer(ty, index);
    assert(q.get_buffer(ty, index).0 =~= q);
}

} // verus!
