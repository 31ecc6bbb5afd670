use vstd::prelude::*;

verus! {

/// The sizes of the blocks that `frames` frames are processed in: as many
/// full blocks of `max_blocksize` frames as fit, then what is left.
pub open spec fn block_plan(frames: nat, max_blocksize: nat) -> Seq<usize>
    decreases frames,
{
    if frames == 0 || max_blocksize == 0 {
        Seq::empty()
    } else if frames <= max_blocksize {
        seq![frames as usize]
    } else {
        seq![max_blocksize as usize] + block_plan((frames - max_blocksize) as nat, max_blocksize)
    }
}

/// The sum of the block sizes in `s`.
pub open spec fn total_frames(s: Seq<usize>) -> int
    decreases s.len(),
{
    if s.len() == 0 {
        0
    } else {
        s[0] + total_frames(s.drop_first())
    }
}

/// Taking one block of `min(frames, max_blocksize)` frames leaves the plan of
/// what remains.
proof fn lemma_block_plan_step(frames: nat, max_blocksize: nat)
    requires
        frames > 0,
        max_blocksize > 0,
        frames <= usize::MAX,
        max_blocksize <= usize::MAX,
    ensures
        ({
            let f: nat = if frames <= max_blocksize { frames } else { max_blocksize };
            block_plan(frames, max_blocksize) == seq![f as usize] + block_plan((frames - f) as nat, max_blocksize)
        }),
{
    if frames <= max_blocksize {
        assert(block_plan(0, max_blocksize) =~= Seq::<usize>::empty());
        assert(seq![frames as usize] + Seq::<usize>::empty() =~= seq![frames as usize]);
    }
}

/// The blocks that an interleaved stereo output of `interleaved_len` samples
/// is processed in, at most `max_blocksize` frames each.
pub fn plan_blocks(interleaved_len: usize, max_blocksize: usize) -> (r: Vec<usize>)
    requires
        max_blocksize > 0,
    ensures
        r@ == block_plan((interleaved_len / 2) as nat, max_blocksize as nat),
{
    let mut frames_left: usize = interleaved_len / 2;
    let mut plan: Vec<usize> = Vec::new();
    while frames_left > 0
        invariant
            max_blocksize > 0,
            plan@ + block_plan(frames_left as nat, max_blocksize as nat) == block_plan(
                (interleaved_len / 2) as nat,
                max_blocksize as nat,
            ),
        decreases frames_left,
    {
        let frames = if frames_left < max_blocksize {
            frames_left
        } else {
            max_blocksize
        };
        proof {
            lemma_block_plan_step(frames_left as nat, max_blocksize as nat);
            let rest = block_plan((frames_left - frames) as nat, max_blocksize as nat);
            assert(plan@ + (seq![frames] + rest) =~= plan@.push(frames) + rest);
        }
        plan.push(frames);
        frames_left = frames_left - frames;
    }
    assert(plan@ + block_plan(0, max_blocksize as nat) =~= plan@);
    plan
}

/// Every block of a plan holds at least one frame and at most a block's
/// worth, every block but the last is full, and together they hold all the
/// frames.
pub proof fn lemma_block_plan_covers(frames: nat, max_blocksize: nat)
    requires
        max_blocksize > 0,
        frames <= usize::MAX,
        max_blocksize <= usize::MAX,
    ensures
        total_frames(block_plan(frames, max_blocksize)) == frames,
        forall|i: int|
            0 <= i < block_plan(frames, max_blocksize).len() ==> 0 < #[trigger] block_plan(
                frames,
                max_blocksize,
            )[i] <= max_blocksize,
        forall|i: int|
            0 <= i < block_plan(frames, max_blocksize).len() - 1 ==> #[trigger] block_plan(
                frames,
                max_blocksize,
            )[i] == max_blocksize,
    decreases frames,
{
    if frames == 0 {
    } else if frames <= max_blocksize {
        let p = block_plan(frames, max_blocksize);
        assert(p.drop_first() =~= Seq::<usize>::empty());
        assert(total_frames(p.drop_first()) == 0);
        assert(p[0] == frames);
    } else {
        let rest = block_plan((frames - max_blocksize) as nat, max_blocksize);
        lemma_block_plan_covers((frames - max_blocksize) as nat, max_blocksize);
        let p = block_plan(frames, max_blocksize);
        assert(p.drop_first() =~= rest);
        assert(p[0] == max_blocksize);
        assert(total_frames(p) == p[0] + total_frames(rest));
        assert forall|i: int| 0 <= i < p.len() implies 0 < #[trigger] p[i] <= max_blocksize by {
            if i > 0 {
                assert(p[i] == rest[i - 1]);
            }
        }
        assert forall|i: int| 0 <= i < p.len() - 1 implies #[trigger] p[i] == max_blocksize by {
            if i > 0 {
                assert(p[i] == rest[i - 1]);
            }
        }
    }
}

/// The first `2 * frames` samples of an interleaved stereo stream made of the
/// first `frames` samples of `left` and `right`.
pub open spec fn interleaved<T>(left: Seq<T>, right: Seq<T>, frames: int) -> Seq<T> {
    Seq::new(
        (2 * frames) as nat,
        |i: int|
            if i % 2 == 0 {
                left[i / 2]
            } else {
                right[i / 2]
            },
    )
}

/// Write the first `frames` samples of `left` and `right` into the start of
/// `out`, interleaved: left, right, left, right, and so on.
pub fn write_interleaved<T: Copy>(left: &[T], right: &[T], frames: usize, out: &mut [T])
    requires
        frames <= left@.len(),
        frames <= right@.len(),
        2 * frames <= old(out)@.len(),
    ensures
        final(out)@ == interleaved(left@, right@, frames as int) + old(out)@.skip(2 * frames),
{
    let n = out.len();
    let mut i: usize = 0;
    while i < frames
        invariant
            i <= frames,
            n == out@.len(),
            frames <= left@.len(),
            frames <= right@.len(),
            2 * frames <= old(out)@.len(),
            out@.len() == old(out)@.len(),
            out@.take(2 * i) == interleaved(left@, right@, i as int),
            out@.skip(2 * i) == old(out)@.skip(2 * i),
        decreases frames - i,
    {
        proof {
            assert(out@[2 * i as int] == old(out)@[2 * i as int]) by {
                assert(out@.skip(2 * i)[0] == old(out)@.skip(2 * i)[0]);
            }
        }
        let ghost before = out@;
        out[2 * i] = left[i];
        out[2 * i + 1] = right[i];
        proof {
            assert(out@.take(2 * (i + 1)) =~= interleaved(left@, right@, (i + 1) as int)) by {
                assert forall|k: int| 0 <= k < 2 * (i + 1) implies #[trigger] out@.take(2 * (i + 1))[k]
                    == interleaved(left@, right@, (i + 1) as int)[k] by {
                    if k < 2 * i {
                        assert(before.take(2 * i)[k] == interleaved(left@, right@, i as int)[k]);
                    }
                }
            }
            assert(out@.skip(2 * (i + 1)) =~= old(out)@.skip(2 * (i + 1))) by {
                assert forall|k: int| 0 <= k < out@.len() - 2 * (i + 1) implies #[trigger] out@.skip(
                    2 * (i + 1),
                )[k] == old(out)@.skip(2 * (i + 1))[k] by {
                    assert(before.skip(2 * i)[k + 2] == old(out)@.skip(2 * i)[k + 2]);
                }
            }
        }
        i = i + 1;
    }
    assert(out@ =~= out@.take(2 * frames) + out@.skip(2 * frames));
}

} // verus!
