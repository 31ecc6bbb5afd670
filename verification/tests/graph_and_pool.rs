use rusty_daw_engine::graph_state::{NodeRef, PortIdent, PortType};
use rusty_daw_engine::interface::{GraphError, GraphInterface};
use rusty_daw_engine::lists::{BufferPairList, ProcBufferList};
use rusty_daw_engine::proc_buffers::ProcBuffer;
use rusty_daw_engine::resource_pool::{
    DebugBufferID, DebugBufferType, DebugNodeID, DebugNodeType, DelayCompNodeKey,
    GraphResourcePool, SumNodeKey,
};
use rusty_daw_engine::schedule_verifier::Verifier;
use rusty_daw_engine::shared::{SharedBuffer, SharedDelayNode, SharedSumNode};
use rusty_daw_engine::task::{
    AudioGraphNodeTask, AudioGraphTask, MimicProcessReplacingTask, ProcBufferAssignment,
};
use rusty_daw_engine::CompilerError;

fn id(buffer_type: DebugBufferType, index: u32) -> DebugBufferID {
    DebugBufferID { buffer_type, index }
}

#[test]
fn graph_interface_refuses_root_and_missing_nodes() {
    let mut g = GraphInterface::new(NodeRef(0), 0, 1);
    assert_eq!(g.root_node(), NodeRef(0));
    assert_eq!(g.add_new_node(NodeRef(2), "two", 1, 0), NodeRef(2));
    // Slot 1 was created empty on the way to slot 2.
    assert_eq!(g.resource_pool.user_nodes.len(), 3);
    assert!(g.resource_pool.user_nodes[1].is_none());

    assert_eq!(g.replace_node(NodeRef(0), "x", 0, 0), Err(GraphError::NodeDoesNotExist));
    assert_eq!(g.remove_node(NodeRef(0)), Err(GraphError::NodeDoesNotExist));
    assert_eq!(g.replace_node(NodeRef(1), "x", 0, 0), Err(GraphError::NodeDoesNotExist));
    assert_eq!(g.remove_node(NodeRef(7)), Err(GraphError::NodeDoesNotExist));
    assert!(g.existing_user_node(NodeRef(0)).is_err());

    let root = g.resource_pool.user_nodes[0].unwrap();
    assert_eq!(root.node.node_type, DebugNodeType::Root);
    assert_eq!(root.num_stereo_replacing_ports, 1);
}

#[test]
fn graph_interface_replaces_and_removes_user_nodes() {
    let mut g = GraphInterface::new(NodeRef(0), 0, 0);
    g.add_new_node(NodeRef(1), "first", 0, 0);
    assert_eq!(g.replace_node(NodeRef(1), "second", 2, 1), Ok(()));
    let u = g.existing_user_node(NodeRef(1)).unwrap();
    assert_eq!(u.node.name, Some("second"));
    assert_eq!(u.node.index, 1);
    assert_eq!(u.num_mono_replacing_ports, 2);
    assert_eq!(u.num_stereo_replacing_ports, 1);

    assert_eq!(g.remove_node(NodeRef(1)), Ok(()));
    assert!(g.resource_pool.user_nodes[1].is_none());
    assert_eq!(g.remove_node(NodeRef(1)), Err(GraphError::NodeDoesNotExist));
}

#[test]
fn pool_grows_buffers_up_to_the_requested_index() {
    let mut pool = GraphResourcePool::new();
    assert_eq!(pool.root_output_buffer, SharedBuffer { debug_id: id(DebugBufferType::RootOut, 0), slot: 0 });

    let b = pool.get_mono_audio_block_buffer(2);
    assert_eq!(b, SharedBuffer { debug_id: id(DebugBufferType::MonoBlock, 2), slot: 2 });
    // Every buffer created on the way is named after its own slot.
    assert_eq!(
        pool.mono_block_buffers,
        vec![id(DebugBufferType::MonoBlock, 0), id(DebugBufferType::MonoBlock, 1), id(DebugBufferType::MonoBlock, 2)]
    );

    let again = pool.get_mono_audio_block_buffer(1);
    assert_eq!(again, SharedBuffer { debug_id: id(DebugBufferType::MonoBlock, 1), slot: 1 });
    assert_eq!(pool.mono_block_buffers.len(), 3);

    let s = pool.get_block_buffer(PortType::StereoAudio, 0);
    assert_eq!(s, SharedBuffer { debug_id: id(DebugBufferType::StereoBlock, 0), slot: 0 });
    let t = pool.get_temp_buffer(PortType::MonoAudio, 1);
    assert_eq!(t, SharedBuffer { debug_id: id(DebugBufferType::TempMonoBlock, 1), slot: 1 });
    let ts = pool.get_temp_stereo_audio_block_buffer(0);
    assert_eq!(ts.debug_id.buffer_type, DebugBufferType::TempStereoBlock);
}

#[test]
fn pool_removes_buffers_from_the_end() {
    let mut pool = GraphResourcePool::new();
    pool.get_stereo_audio_block_buffer(3);
    pool.remove_stereo_block_buffers(1);
    assert_eq!(pool.stereo_block_buffers.len(), 3);
    pool.remove_stereo_block_buffers(10);
    assert!(pool.stereo_block_buffers.is_empty());

    pool.get_temp_mono_audio_block_buffer(1);
    pool.remove_temp_mono_block_buffers(0);
    assert_eq!(pool.temp_mono_block_buffers.len(), 2);
    pool.remove_temp_mono_block_buffers(2);
    assert!(pool.temp_mono_block_buffers.is_empty());
}

fn delay_key(src: u32) -> DelayCompNodeKey {
    DelayCompNodeKey {
        src_node_id: src,
        src_node_port: PortIdent { port_type: PortType::MonoAudio, index: 0 },
        dst_node_id: 9,
        dst_node_port: PortIdent { port_type: PortType::MonoAudio, index: 0 },
    }
}

fn debug_node(node_type: DebugNodeType, index: u64) -> DebugNodeID {
    DebugNodeID { node_type, index, name: None }
}

#[test]
fn pool_flags_and_drops_unused_inserted_nodes() {
    let mut pool = GraphResourcePool::new();
    for (k, used) in [(1u32, true), (2, false), (3, true)] {
        pool.delay_comp_nodes.push((
            delay_key(k),
            SharedDelayNode { node: debug_node(DebugNodeType::MonoDelayComp, k as u64), delay: k, is_in_graph: used },
        ));
    }
    let sum_key = SumNodeKey { node_id: 4, port: PortIdent { port_type: PortType::StereoAudio, index: 1 } };
    pool.sum_nodes.push((
        sum_key,
        SharedSumNode { node: debug_node(DebugNodeType::StereoSum, 0), num_inputs: 2, is_in_graph: false },
    ));

    assert_eq!(pool.find_delay_comp_node(delay_key(3)), Some(2));
    assert_eq!(pool.find_delay_comp_node(delay_key(4)), None);
    assert_eq!(pool.find_sum_node(sum_key), Some(0));

    pool.drop_unused();
    let kept: Vec<u32> = pool.delay_comp_nodes.iter().map(|(k, _)| k.src_node_id).collect();
    assert_eq!(kept, vec![1, 3]);
    assert!(pool.sum_nodes.is_empty());
    assert_eq!(pool.find_delay_comp_node(delay_key(3)), Some(1));

    pool.flag_unused();
    assert!(pool.delay_comp_nodes.iter().all(|(_, n)| !n.is_in_graph));
    pool.drop_unused();
    assert!(pool.delay_comp_nodes.is_empty());
}

fn shared(index: u32) -> SharedBuffer {
    SharedBuffer { debug_id: id(DebugBufferType::MonoBlock, index), slot: index as usize }
}

fn node_task(index: u64, inputs: &[u32], outputs: &[u32]) -> AudioGraphTask {
    let ins: Vec<ProcBuffer> =
        inputs.iter().enumerate().map(|(p, b)| ProcBuffer::new(shared(*b), p)).collect();
    let outs: Vec<ProcBuffer> =
        outputs.iter().enumerate().map(|(p, b)| ProcBuffer::new(shared(*b), p)).collect();
    let empty: Vec<ProcBuffer> = Vec::new();
    AudioGraphTask::Node(AudioGraphNodeTask {
        node: debug_node(DebugNodeType::User, index),
        proc_buffer_assignment: ProcBufferAssignment {
            mono_replacing: ProcBufferList::from_vec(&empty),
            indep_mono_in: ProcBufferList::from_vec(&ins),
            indep_mono_out: ProcBufferList::from_vec(&outs),
            stereo_replacing: ProcBufferList::from_vec(&empty),
            indep_stereo_in: ProcBufferList::from_vec(&empty),
            indep_stereo_out: ProcBufferList::from_vec(&empty),
        },
    })
}

#[test]
fn verifier_accepts_a_race_free_schedule() {
    let mut v = Verifier::new();
    let tasks = vec![
        node_task(1, &[0], &[1]),
        AudioGraphTask::MimicProcessReplacing(MimicProcessReplacingTask::CopyMonoBuffers(
            BufferPairList::from_vec(&vec![(shared(1), shared(2))]),
        )),
        node_task(2, &[1, 2], &[3]),
    ];
    assert!(v.verify_no_data_races(&tasks).is_ok());
    // The verifier can be used again for another schedule.
    assert!(v.verify_no_data_races(&tasks).is_ok());
}

#[test]
fn verifier_reports_a_node_appearing_twice() {
    let mut v = Verifier::new();
    let tasks = vec![node_task(1, &[0], &[1]), node_task(2, &[1], &[2]), node_task(1, &[2], &[3])];
    match v.verify_no_data_races(&tasks) {
        Err(CompilerError::NodeAppearsTwice(n)) => {
            assert_eq!(n.node_type, DebugNodeType::User);
            assert_eq!(n.index, 1);
        }
        other => panic!("unexpected answer {:?}", other),
    }
}

#[test]
fn verifier_reports_a_buffer_appearing_twice_in_one_task() {
    let mut v = Verifier::new();
    let tasks = vec![node_task(1, &[0, 4], &[1]), node_task(2, &[5], &[5])];
    match v.verify_no_data_races(&tasks) {
        Err(CompilerError::BufferAppearsTwice(b)) => assert_eq!(b, id(DebugBufferType::MonoBlock, 5)),
        other => panic!("unexpected answer {:?}", other),
    }
}

#[test]
fn verifier_reports_a_buffer_copied_onto_itself() {
    let mut v = Verifier::new();
    let tasks = vec![AudioGraphTask::MimicProcessReplacing(MimicProcessReplacingTask::CopyStereoBuffers(
        BufferPairList::from_vec(&vec![(shared(1), shared(2)), (shared(3), shared(3))]),
    ))];
    match v.verify_no_data_races(&tasks) {
        Err(CompilerError::BufferAppearsTwice(b)) => assert_eq!(b, id(DebugBufferType::MonoBlock, 3)),
        other => panic!("unexpected answer {:?}", other),
    }
}
