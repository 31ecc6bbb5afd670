use rusty_daw_engine::executor::{plan_blocks, write_interleaved};

#[test]
fn blocks_are_full_then_the_rest() {
    // Ten interleaved samples are five stereo frames.
    assert_eq!(plan_blocks(10, 4), vec![4, 1]);
    assert_eq!(plan_blocks(16, 4), vec![4, 4]);
    assert_eq!(plan_blocks(7, 4), vec![3]);
    assert_eq!(plan_blocks(1, 4), Vec::<usize>::new());
    assert_eq!(plan_blocks(0, 4), Vec::<usize>::new());
}

#[test]
fn block_plan_covers_every_frame() {
    for len in 0..200usize {
        for max in 1..9usize {
            let plan = plan_blocks(len, max);
            assert_eq!(plan.iter().sum::<usize>(), len / 2);
            assert!(plan.iter().all(|&f| f > 0 && f <= max));
            if plan.len() > 1 {
                assert!(plan[..plan.len() - 1].iter().all(|&f| f == max));
            }
        }
    }
}

#[test]
fn interleaving_alternates_channels_and_keeps_the_rest() {
    let left = [1.0f32, 2.0, 3.0];
    let right = [-1.0f32, -2.0, -3.0];
    let mut out = [9.0f32; 7];
    write_interleaved(&left, &right, 2, &mut out);
    assert_eq!(out, [1.0, -1.0, 2.0, -2.0, 9.0, 9.0, 9.0]);
    write_interleaved(&left, &right, 3, &mut out[1..]);
    assert_eq!(out, [1.0, 1.0, -1.0, 2.0, -2.0, 3.0, -3.0]);
}
