use rusty_daw_engine::node::sample_delay::{MonoSampleDelayNode, StereoSampleDelayNode};

#[test]
fn mono_delay_reports_its_delay() {
    let node: MonoSampleDelayNode<f32> = MonoSampleDelayNode::new(7, 0.0);
    assert_eq!(node.delay(), 7);
    let node: MonoSampleDelayNode<f32> = MonoSampleDelayNode::new(0, 0.0);
    assert_eq!(node.delay(), 0);
}

#[test]
fn mono_delay_short_block_outputs_silence_first() {
    let mut node: MonoSampleDelayNode<i32> = MonoSampleDelayNode::new(3, 0);
    let src = vec![1, 2];
    let mut dst = vec![9, 9, 9];
    node.process(2, &src, &mut dst);
    // Only the first two frames are written; the rest of `dst` is left alone.
    assert_eq!(dst, vec![0, 0, 9]);
}

#[test]
fn mono_delay_long_block_passes_input_through_late() {
    let mut node: MonoSampleDelayNode<i32> = MonoSampleDelayNode::new(3, 0);
    let src = vec![1, 2, 3, 4, 5, 6, 7, 8];
    let mut dst = vec![0; 8];
    node.process(8, &src, &mut dst);
    assert_eq!(dst, vec![0, 0, 0, 1, 2, 3, 4, 5]);
    // The last three samples come out of the next block.
    let mut next = vec![0; 3];
    node.process(3, &vec![10, 11, 12], &mut next);
    assert_eq!(next, vec![6, 7, 8]);
    assert_eq!(node.delay(), 3);
}

#[test]
fn mono_delay_output_does_not_depend_on_block_size() {
    let input: Vec<i32> = (1..=8).collect();

    let mut whole: MonoSampleDelayNode<i32> = MonoSampleDelayNode::new(3, 0);
    let mut out_whole = vec![0; 8];
    whole.process(8, &input, &mut out_whole);

    let mut chunked: MonoSampleDelayNode<i32> = MonoSampleDelayNode::new(3, 0);
    let mut out_chunked = Vec::new();
    for (start, len) in [(0usize, 2usize), (2, 5), (7, 1)] {
        let src: Vec<i32> = input[start..start + len].to_vec();
        let mut dst = vec![0; len];
        chunked.process(len, &src, &mut dst);
        out_chunked.extend_from_slice(&dst);
    }
    assert_eq!(out_chunked, out_whole);

    // Both are left holding the same history.
    let mut a = vec![0; 3];
    let mut b = vec![0; 3];
    whole.process(3, &vec![0, 0, 0], &mut a);
    chunked.process(3, &vec![0, 0, 0], &mut b);
    assert_eq!(a, vec![6, 7, 8]);
    assert_eq!(a, b);
}

#[test]
fn mono_delay_wraps_its_read_pointer() {
    let mut node: MonoSampleDelayNode<i32> = MonoSampleDelayNode::new(4, 0);
    let mut out = Vec::new();
    for k in 0..6 {
        let src = vec![3 * k + 1, 3 * k + 2, 3 * k + 3];
        let mut dst = vec![0; 3];
        node.process(3, &src, &mut dst);
        out.extend_from_slice(&dst);
    }
    let mut expected = vec![0, 0, 0, 0];
    expected.extend(1..=14);
    assert_eq!(out, expected);
}

#[test]
fn mono_zero_delay_is_a_pass_through() {
    let mut node: MonoSampleDelayNode<f32> = MonoSampleDelayNode::new(0, 0.0);
    let src = vec![0.5, -0.25, 1.0];
    let mut dst = vec![0.0; 3];
    node.process(3, &src, &mut dst);
    assert_eq!(dst, src);
}

#[test]
fn mono_delay_of_floats_starts_silent() {
    let mut node: MonoSampleDelayNode<f32> = MonoSampleDelayNode::new(2, 0.0);
    let mut dst = vec![1.0; 4];
    node.process(4, &vec![0.1, 0.2, 0.3, 0.4], &mut dst);
    assert_eq!(dst, vec![0.0, 0.0, 0.1, 0.2]);
}

#[test]
fn stereo_delay_delays_both_channels() {
    let mut node: StereoSampleDelayNode<i32> = StereoSampleDelayNode::new(2, 0);
    assert_eq!(node.delay(), 2);
    let mut left = vec![0; 3];
    let mut right = vec![0; 3];
    node.process(3, &vec![1, 2, 3], &vec![10, 20, 30], &mut left, &mut right);
    assert_eq!(left, vec![0, 0, 1]);
    assert_eq!(right, vec![0, 0, 10]);
    let mut left = vec![0; 1];
    let mut right = vec![0; 1];
    node.process(1, &vec![4], &vec![40], &mut left, &mut right);
    assert_eq!(left, vec![2]);
    assert_eq!(right, vec![20]);
}

#[test]
fn mono_delay_without_input_outputs_silence_and_keeps_its_history() {
    let mut node: MonoSampleDelayNode<i32> = MonoSampleDelayNode::new(2, 0);
    let mut dst = vec![0; 2];
    node.process_ports(2, Some(&vec![5, 6]), &mut dst);
    assert_eq!(dst, vec![0, 0]);
    let mut dst = vec![9; 3];
    node.process_ports(2, None, &mut dst);
    assert_eq!(dst, vec![0, 0, 9]);
    // The samples still waiting come out once the input is back.
    let mut dst = vec![0; 2];
    node.process_ports(2, Some(&vec![7, 8]), &mut dst);
    assert_eq!(dst, vec![5, 6]);
}

#[test]
fn stereo_delay_without_input_outputs_silence() {
    let mut node: StereoSampleDelayNode<i32> = StereoSampleDelayNode::new(1, -1);
    let mut left = vec![3; 2];
    let mut right = vec![3; 2];
    node.process_ports(2, None, &mut left, &mut right);
    assert_eq!(left, vec![-1, -1]);
    assert_eq!(right, vec![-1, -1]);
    node.process_ports(2, Some((&vec![1, 2], &vec![10, 20])), &mut left, &mut right);
    assert_eq!(left, vec![-1, 1]);
    assert_eq!(right, vec![-1, 10]);
}
