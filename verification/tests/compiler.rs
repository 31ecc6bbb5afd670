use rusty_daw_engine::compiler::compile_graph;
use rusty_daw_engine::graph_state::{
    DelayCompInfo, NodeRef, PortIdent, PortType, ScheduledInput, ScheduledInputBuffer,
    ScheduledNode, ScheduledOutput,
};
use rusty_daw_engine::interface::GraphInterface;
use rusty_daw_engine::proc_buffers::ProcBuffer;
use rusty_daw_engine::schedule_limits::schedule_within_limits;
use rusty_daw_engine::resource_pool::{DebugBufferID, DebugBufferType, DebugNodeID, DebugNodeType};
use rusty_daw_engine::shared::SharedBuffer;
use rusty_daw_engine::task::{AudioGraphTask, MimicProcessReplacingTask};
use rusty_daw_engine::{CompilerError, CompilerWarning};

fn stereo(index: u16) -> PortIdent {
    PortIdent { port_type: PortType::StereoAudio, index }
}

fn mono(index: u16) -> PortIdent {
    PortIdent { port_type: PortType::MonoAudio, index }
}

fn buf(buffer_type: DebugBufferType, index: u32, slot: usize) -> SharedBuffer {
    SharedBuffer { debug_id: DebugBufferID { buffer_type, index }, slot }
}

fn root_buf() -> SharedBuffer {
    buf(DebugBufferType::RootOut, 0, 0)
}

fn pb(buffer: SharedBuffer, port_index: usize) -> ProcBuffer {
    ProcBuffer { buffer, port_index }
}

/// A graph whose root node (index 0) has one stereo "process replacing" port,
/// and user nodes 1 and 2 without replacing ports.
fn graph() -> GraphInterface {
    let mut g = GraphInterface::new(NodeRef(0), 0, 1);
    g.add_new_node(NodeRef(1), "one", 0, 0);
    g.add_new_node(NodeRef(2), "two", 0, 0);
    g
}

fn entry(node: usize, inputs: Vec<ScheduledInput>, outputs: Vec<ScheduledOutput>) -> ScheduledNode {
    ScheduledNode { node: NodeRef(node), inputs, outputs }
}

fn input(port: PortIdent, ids: &[(usize, Option<DelayCompInfo>)]) -> ScheduledInput {
    ScheduledInput {
        port,
        buffers: ids
            .iter()
            .map(|(buffer_id, delay_comp)| ScheduledInputBuffer { buffer_id: *buffer_id, delay_comp: *delay_comp })
            .collect(),
    }
}

fn output(port: PortIdent, buffer_id: usize) -> ScheduledOutput {
    ScheduledOutput { port, buffer_id }
}

fn node_id(t: &AudioGraphTask) -> DebugNodeID {
    match t {
        AudioGraphTask::Node(n) => n.node,
        _ => panic!("not a node task"),
    }
}

fn key(id: DebugNodeID) -> (DebugNodeType, u64) {
    (id.node_type, id.index)
}

#[test]
fn compile_empty_schedule_warns_and_outputs_silence() {
    let mut g = graph();
    let (s, w) = compile_graph(&mut g, &vec![]).ok().unwrap();
    assert!(matches!(w, Some(CompilerWarning::NothingConnectedToRoot)));
    assert_eq!(s.tasks.len(), 0);
    // A fresh stereo buffer just past the highest one in use (0) holds the silence.
    assert_eq!(s.root_out_buffer, buf(DebugBufferType::StereoBlock, 1, 1));
    assert_eq!(g.resource_pool.stereo_block_buffers.len(), 2);
}

#[test]
fn compile_root_only_clears_its_replacing_buffer() {
    let mut g = graph();
    let (s, w) = compile_graph(&mut g, &vec![entry(0, vec![], vec![])]).ok().unwrap();
    assert!(w.is_none());
    assert_eq!(s.root_out_buffer, root_buf());
    assert_eq!(s.tasks.len(), 2);
    match &s.tasks[0] {
        AudioGraphTask::MimicProcessReplacing(MimicProcessReplacingTask::ClearStereoBuffers(l)) => {
            assert_eq!(l.to_vec(), vec![root_buf()]);
        }
        _ => panic!("expected a clear"),
    }
    match &s.tasks[1] {
        AudioGraphTask::Node(n) => {
            assert_eq!(key(n.node), (DebugNodeType::Root, 0));
            assert_eq!(n.proc_buffer_assignment.stereo_replacing.to_vec(), vec![pb(root_buf(), 0)]);
            assert_eq!(n.proc_buffer_assignment.indep_stereo_out.to_vec().len(), 0);
        }
        _ => panic!("expected the root node"),
    }
}

#[test]
fn compile_chain_copies_input_into_root_buffer() {
    let mut g = graph();
    let schedule = vec![
        entry(1, vec![], vec![output(stereo(0), 0)]),
        entry(0, vec![input(stereo(0), &[(0, None)])], vec![]),
    ];
    let (s, w) = compile_graph(&mut g, &schedule).ok().unwrap();
    assert!(w.is_none());
    let sb0 = buf(DebugBufferType::StereoBlock, 0, 0);
    assert_eq!(s.tasks.len(), 3);
    match &s.tasks[0] {
        AudioGraphTask::Node(n) => {
            assert_eq!(key(n.node), (DebugNodeType::User, 1));
            assert_eq!(n.node.name, Some("one"));
            assert_eq!(n.proc_buffer_assignment.indep_stereo_out.to_vec(), vec![pb(sb0, 0)]);
        }
        _ => panic!("expected node one"),
    }
    match &s.tasks[1] {
        AudioGraphTask::MimicProcessReplacing(MimicProcessReplacingTask::CopyStereoBuffers(l)) => {
            assert_eq!(l.to_vec(), vec![(sb0, root_buf())]);
        }
        _ => panic!("expected a copy"),
    }
    assert_eq!(key(node_id(&s.tasks[2])), (DebugNodeType::Root, 0));
}

fn delayed_schedule(delay: u64) -> Vec<ScheduledNode> {
    let dci = DelayCompInfo { source_node: NodeRef(1), source_port: stereo(0), delay };
    vec![
        entry(1, vec![], vec![output(stereo(0), 0)]),
        entry(0, vec![input(stereo(0), &[(0, Some(dci))])], vec![]),
    ]
}

#[test]
fn compile_inserts_delay_compensation() {
    let mut g = graph();
    let (s, _) = compile_graph(&mut g, &delayed_schedule(5)).ok().unwrap();
    let sb0 = buf(DebugBufferType::StereoBlock, 0, 0);
    let ts0 = buf(DebugBufferType::TempStereoBlock, 0, 0);
    assert_eq!(s.tasks.len(), 4);
    match &s.tasks[1] {
        AudioGraphTask::Node(n) => {
            assert_eq!(key(n.node), (DebugNodeType::StereoDelayComp, 0));
            assert_eq!(n.proc_buffer_assignment.indep_stereo_in.to_vec(), vec![pb(sb0, 0)]);
            assert_eq!(n.proc_buffer_assignment.indep_stereo_out.to_vec(), vec![pb(ts0, 0)]);
        }
        _ => panic!("expected the delay node"),
    }
    match &s.tasks[2] {
        AudioGraphTask::MimicProcessReplacing(MimicProcessReplacingTask::CopyStereoBuffers(l)) => {
            assert_eq!(l.to_vec(), vec![(ts0, root_buf())]);
        }
        _ => panic!("expected a copy"),
    }
    assert_eq!(g.next_delay_comp_node_id, 1);
    assert_eq!(g.resource_pool.delay_comp_nodes.len(), 1);
    assert_eq!(g.resource_pool.delay_comp_nodes[0].1.delay, 5);
    assert!(g.resource_pool.delay_comp_nodes[0].1.is_in_graph);
}

#[test]
fn compile_reuses_unchanged_delay_node_and_replaces_changed_one() {
    let mut g = graph();
    let _ = compile_graph(&mut g, &delayed_schedule(5)).ok().unwrap();
    let (s, _) = compile_graph(&mut g, &delayed_schedule(5)).ok().unwrap();
    assert_eq!(key(node_id(&s.tasks[1])), (DebugNodeType::StereoDelayComp, 0));
    assert_eq!(g.next_delay_comp_node_id, 1);
    let (s, _) = compile_graph(&mut g, &delayed_schedule(7)).ok().unwrap();
    assert_eq!(key(node_id(&s.tasks[1])), (DebugNodeType::StereoDelayComp, 1));
    assert_eq!(g.next_delay_comp_node_id, 2);
    assert_eq!(g.resource_pool.delay_comp_nodes.len(), 1);
    assert_eq!(g.resource_pool.delay_comp_nodes[0].1.delay, 7);
}

#[test]
fn compile_drops_delay_nodes_no_longer_used() {
    let mut g = graph();
    let _ = compile_graph(&mut g, &delayed_schedule(5)).ok().unwrap();
    let schedule = vec![
        entry(1, vec![], vec![output(stereo(0), 0)]),
        entry(0, vec![input(stereo(0), &[(0, None)])], vec![]),
    ];
    let _ = compile_graph(&mut g, &schedule).ok().unwrap();
    assert_eq!(g.resource_pool.delay_comp_nodes.len(), 0);
    // The temporary buffer is no longer needed either: only buffer 0 stays.
    assert_eq!(g.resource_pool.temp_stereo_block_buffers.len(), 1);
}

#[test]
fn compile_sums_several_inputs_of_one_port() {
    let mut g = graph();
    let schedule = vec![
        entry(1, vec![], vec![output(stereo(0), 0)]),
        entry(2, vec![], vec![output(stereo(0), 1)]),
        entry(0, vec![input(stereo(0), &[(0, None), (1, None)])], vec![]),
    ];
    let (s, _) = compile_graph(&mut g, &schedule).ok().unwrap();
    let sb0 = buf(DebugBufferType::StereoBlock, 0, 0);
    let sb1 = buf(DebugBufferType::StereoBlock, 1, 1);
    assert_eq!(s.tasks.len(), 5);
    match &s.tasks[2] {
        AudioGraphTask::Node(n) => {
            assert_eq!(key(n.node), (DebugNodeType::StereoSum, 0));
            assert_eq!(n.proc_buffer_assignment.stereo_replacing.to_vec(), vec![pb(sb0, 0)]);
            assert_eq!(n.proc_buffer_assignment.indep_stereo_in.to_vec(), vec![pb(sb1, 1)]);
        }
        _ => panic!("expected the sum node"),
    }
    match &s.tasks[3] {
        AudioGraphTask::MimicProcessReplacing(MimicProcessReplacingTask::CopyStereoBuffers(l)) => {
            assert_eq!(l.to_vec(), vec![(sb0, root_buf())]);
        }
        _ => panic!("expected a copy"),
    }
    assert_eq!(g.next_sum_node_id, 1);
    assert_eq!(g.resource_pool.sum_nodes.len(), 1);
    assert_eq!(g.resource_pool.sum_nodes[0].1.num_inputs, 2);
}

#[test]
fn compile_rejects_missing_user_node() {
    let mut g = graph();
    let r = compile_graph(&mut g, &vec![entry(0, vec![], vec![]), entry(5, vec![], vec![])]);
    assert!(matches!(r, Err(CompilerError::UserNodeDoesNotExist(5))));
}

#[test]
fn compile_rejects_node_appearing_twice() {
    let mut g = graph();
    let r = compile_graph(&mut g, &vec![entry(1, vec![], vec![]), entry(1, vec![], vec![])]);
    match r {
        Err(CompilerError::NodeAppearsTwice(id)) => assert_eq!(key(id), (DebugNodeType::User, 1)),
        _ => panic!("expected NodeAppearsTwice"),
    }
}

#[test]
fn compile_rejects_buffer_appearing_twice_in_one_task() {
    let mut g = graph();
    let schedule = vec![entry(1, vec![input(mono(0), &[(0, None)])], vec![output(mono(1), 0)])];
    let r = compile_graph(&mut g, &schedule);
    match r {
        Err(CompilerError::BufferAppearsTwice(id)) => {
            assert_eq!(id, DebugBufferID { buffer_type: DebugBufferType::MonoBlock, index: 0 })
        }
        _ => panic!("expected BufferAppearsTwice"),
    }
}

#[test]
fn compile_names_new_buffers_after_their_slots() {
    // Buffer 1 is asked for first; buffers 0 and 1 then carry their slots as indices.
    let mut g = graph();
    let schedule = vec![entry(1, vec![input(mono(0), &[(1, None)])], vec![output(mono(0), 0)])];
    let (s, w) = compile_graph(&mut g, &schedule).ok().unwrap();
    assert!(matches!(w, Some(CompilerWarning::NothingConnectedToRoot)));
    assert_eq!(
        g.resource_pool.mono_block_buffers,
        vec![
            DebugBufferID { buffer_type: DebugBufferType::MonoBlock, index: 0 },
            DebugBufferID { buffer_type: DebugBufferType::MonoBlock, index: 1 },
        ]
    );
    match &s.tasks[0] {
        AudioGraphTask::Node(n) => {
            assert_eq!(n.proc_buffer_assignment.indep_mono_in.to_vec(), vec![pb(buf(DebugBufferType::MonoBlock, 1, 1), 0)]);
            assert_eq!(n.proc_buffer_assignment.indep_mono_out.to_vec(), vec![pb(buf(DebugBufferType::MonoBlock, 0, 0), 0)]);
        }
        _ => panic!("expected the node task"),
    }
}

#[test]
fn compile_removes_buffers_past_the_highest_used() {
    let mut g = graph();
    let schedule = vec![
        entry(1, vec![], vec![output(stereo(0), 3)]),
        entry(0, vec![input(stereo(0), &[(3, None)])], vec![]),
    ];
    let _ = compile_graph(&mut g, &schedule).ok().unwrap();
    assert_eq!(g.resource_pool.stereo_block_buffers.len(), 4);
    let schedule = vec![
        entry(1, vec![], vec![output(stereo(0), 1)]),
        entry(0, vec![input(stereo(0), &[(1, None)])], vec![]),
    ];
    let _ = compile_graph(&mut g, &schedule).ok().unwrap();
    assert_eq!(g.resource_pool.stereo_block_buffers.len(), 2);
}

#[test]
fn compile_mono_replacing_port_without_output_passes_input_through() {
    let mut g = GraphInterface::new(NodeRef(0), 0, 1);
    g.add_new_node(NodeRef(1), "gain", 1, 0);
    g.add_new_node(NodeRef(2), "source", 0, 0);
    let schedule = vec![
        entry(2, vec![], vec![output(mono(0), 0)]),
        entry(1, vec![input(mono(0), &[(0, None)])], vec![]),
    ];
    let (s, _) = compile_graph(&mut g, &schedule).ok().unwrap();
    let mb0 = buf(DebugBufferType::MonoBlock, 0, 0);
    assert_eq!(s.tasks.len(), 2);
    match &s.tasks[1] {
        AudioGraphTask::Node(n) => {
            assert_eq!(n.proc_buffer_assignment.mono_replacing.to_vec(), vec![pb(mb0, 0)]);
            assert_eq!(n.proc_buffer_assignment.indep_mono_in.to_vec().len(), 0);
        }
        _ => panic!("expected the gain node"),
    }
}

#[test]
fn schedule_limits_accept_ordinary_schedules() {
    let g = graph();
    assert!(schedule_within_limits(&g, &vec![]));
    let schedule = vec![
        entry(1, vec![], vec![output(stereo(0), 0)]),
        entry(0, vec![input(stereo(0), &[(0, None), (1, None)])], vec![]),
    ];
    assert!(schedule_within_limits(&g, &schedule));
}

#[test]
fn schedule_limits_refuse_huge_buffer_indices() {
    let g = graph();
    let bad_output = vec![entry(1, vec![], vec![output(stereo(0), usize::MAX - 1)])];
    assert!(!schedule_within_limits(&g, &bad_output));
    let bad_input = vec![entry(0, vec![input(stereo(0), &[(usize::MAX, None)])], vec![])];
    assert!(!schedule_within_limits(&g, &bad_input));
    let fine = vec![entry(1, vec![], vec![output(stereo(0), usize::MAX - 2)])];
    assert!(schedule_within_limits(&g, &fine));
}

#[test]
fn schedule_limits_refuse_counters_that_could_overflow() {
    let mut g = graph();
    let schedule = vec![entry(0, vec![input(stereo(0), &[(0, None), (1, None)])], vec![])];
    g.next_sum_node_id = u64::MAX - 2;
    assert!(schedule_within_limits(&g, &schedule));
    g.next_sum_node_id = u64::MAX - 1;
    assert!(!schedule_within_limits(&g, &schedule));
    g.next_sum_node_id = 0;
    g.next_delay_comp_node_id = u64::MAX;
    assert!(!schedule_within_limits(&g, &schedule));
}

#[test]
fn compile_runs_user_nodes_once_in_schedule_order() {
    let mut g = graph();
    let dci = DelayCompInfo { source_node: NodeRef(2), source_port: stereo(0), delay: 3 };
    let schedule = vec![
        entry(2, vec![], vec![output(stereo(0), 1)]),
        entry(1, vec![], vec![output(stereo(0), 0)]),
        entry(0, vec![input(stereo(0), &[(0, None), (1, Some(dci))])], vec![]),
    ];
    let (s, _) = compile_graph(&mut g, &schedule).ok().unwrap();
    let users: Vec<(DebugNodeType, u64)> = s
        .tasks
        .iter()
        .filter_map(|t| match t {
            AudioGraphTask::Node(n)
                if n.node.node_type == DebugNodeType::User || n.node.node_type == DebugNodeType::Root =>
            {
                Some(key(n.node))
            }
            _ => None,
        })
        .collect();
    assert_eq!(users, vec![(DebugNodeType::User, 2), (DebugNodeType::User, 1), (DebugNodeType::Root, 0)]);
    // The delay and the sum node were inserted between them.
    assert_eq!(g.next_delay_comp_node_id, 1);
    assert_eq!(g.next_sum_node_id, 1);
}

#[test]
fn failed_compile_keeps_inserted_nodes() {
    let mut g = graph();
    let _ = compile_graph(&mut g, &delayed_schedule(5)).ok().unwrap();
    assert_eq!(g.resource_pool.delay_comp_nodes.len(), 1);
    let broken = vec![entry(7, vec![], vec![])];
    assert!(matches!(compile_graph(&mut g, &broken), Err(CompilerError::UserNodeDoesNotExist(7))));
    assert_eq!(g.resource_pool.delay_comp_nodes.len(), 1);
    assert_eq!(g.resource_pool.delay_comp_nodes[0].1.delay, 5);
}

#[test]
fn root_task_writes_the_root_output_buffer() {
    let mut g = graph();
    let schedule = vec![
        entry(1, vec![], vec![output(stereo(0), 0)]),
        entry(0, vec![input(stereo(0), &[(0, None)])], vec![]),
    ];
    let (s, w) = compile_graph(&mut g, &schedule).ok().unwrap();
    assert!(w.is_none());
    let root_task = s
        .tasks
        .iter()
        .find_map(|t| match t {
            AudioGraphTask::Node(n) if n.node.node_type == DebugNodeType::Root => Some(n),
            _ => None,
        })
        .unwrap();
    let a = &root_task.proc_buffer_assignment;
    let mut written = a.stereo_replacing.to_vec();
    written.extend(a.indep_stereo_out.to_vec());
    assert!(written.contains(&pb(root_buf(), 0)));
}
