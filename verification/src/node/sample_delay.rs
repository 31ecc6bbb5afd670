use vstd::prelude::*;

verus! {

/// What a delay line holding `history` (oldest sample first) outputs when it
/// is fed `input`: the history, followed by the input, as long as the input.
pub open spec fn delayed_output<T>(history: Seq<T>, input: Seq<T>) -> Seq<T> {
    (history + input).take(input.len() as int)
}

/// What a delay line holding `history` holds after being fed `input`: the
/// last `history.len()` samples of the history followed by the input.
pub open spec fn delayed_history<T>(history: Seq<T>, input: Seq<T>) -> Seq<T> {
    (history + input).skip(input.len() as int)
}

/// `len` copies of `silence`.
pub open spec fn silence_of<T>(silence: T, len: nat) -> Seq<T> {
    Seq::new(len, |_i: int| silence)
}

/// `dst[dst_start..dst_start + n]` overwritten by `src[src_start..src_start + n]`.
pub open spec fn copied<T>(dst: Seq<T>, dst_start: int, src: Seq<T>, src_start: int, n: int) -> Seq<T> {
    dst.take(dst_start) + src.subrange(src_start, src_start + n) + dst.skip(dst_start + n)
}

/// Copy `src[src_start..src_start + n]` into `dst[dst_start..]`.
fn copy_into<T: Copy>(dst: &mut Vec<T>, dst_start: usize, src: &Vec<T>, src_start: usize, n: usize)
    requires
        dst_start + n <= old(dst)@.len(),
        src_start + n <= src@.len(),
    ensures
        final(dst)@ == copied(old(dst)@, dst_start as int, src@, src_start as int, n as int),
{
    let ghost d0 = dst@;
    let src_len = src.len();
    let dst_len = dst.len();
    let mut k: usize = 0;
    while k < n
        invariant
            src_len == src@.len(),
            dst_len == d0.len(),
            dst_start + n <= d0.len(),
            src_start + n <= src@.len(),
            k <= n,
            dst@.len() == d0.len(),
            forall|i: int| 0 <= i < dst_start ==> #[trigger] dst@[i] == d0[i],
            forall|i: int| dst_start <= i < dst_start + k ==> #[trigger] dst@[i] == src@[src_start + i - dst_start],
            forall|i: int| dst_start + k <= i < d0.len() ==> #[trigger] dst@[i] == d0[i],
        decreases n - k,
    {
        let v = src[src_start + k];
        dst.set(dst_start + k, v);
        k = k + 1;
    }
    assert(dst@ =~= copied(d0, dst_start as int, src@, src_start as int, n as int));
}

/// Write `frames` copies of `silence` to the start of `dst`.
fn fill_silence<T: Copy>(dst: &mut Vec<T>, frames: usize, silence: T)
    requires
        frames <= old(dst)@.len(),
    ensures
        final(dst)@ == silence_of(silence, frames as nat) + old(dst)@.skip(frames as int),
{
    let ghost d0 = dst@;
    let mut k: usize = 0;
    while k < frames
        invariant
            k <= frames,
            frames <= d0.len(),
            dst@.len() == d0.len(),
            forall|i: int| 0 <= i < k ==> #[trigger] dst@[i] == silence,
            forall|i: int| k <= i < d0.len() ==> #[trigger] dst@[i] == d0[i],
        decreases frames - k,
    {
        dst.set(k, silence);
        k = k + 1;
    }
    assert(dst@ =~= silence_of(silence, frames as nat) + d0.skip(frames as int));
}

/// The samples waiting in a ring buffer `buf` read from `read_pointer`, oldest first.
pub open spec fn ring_history<T>(buf: Seq<T>, read_pointer: int) -> Seq<T> {
    buf.subrange(read_pointer, buf.len() as int) + buf.subrange(0, read_pointer)
}

/// Where the read pointer of a ring buffer of length `len` moves when
/// `frames` samples go through it.
pub open spec fn next_read_pointer(len: int, read_pointer: int, frames: int) -> int {
    if frames > len {
        0
    } else if read_pointer + frames >= len {
        read_pointer + frames - len
    } else {
        read_pointer + frames
    }
}

/// One channel of a delay line fed more frames than it holds: the whole
/// history goes out, followed by the start of the input, and the ring buffer
/// keeps the end of the input.
fn process_channel_long<T: Copy>(buf: &mut Vec<T>, read_pointer: usize, frames: usize, src: &Vec<T>, dst: &mut Vec<T>)
    requires
        read_pointer < old(buf)@.len() || (read_pointer == 0 && old(buf)@.len() == 0),
        frames > old(buf)@.len(),
        frames <= src@.len(),
        frames <= old(dst)@.len(),
    ensures
        final(buf)@.len() == old(buf)@.len(),
        ring_history(final(buf)@, 0) == delayed_history(
            ring_history(old(buf)@, read_pointer as int),
            src@.take(frames as int),
        ),
        final(dst)@ == delayed_output(ring_history(old(buf)@, read_pointer as int), src@.take(frames as int))
            + old(dst)@.skip(frames as int),
{
    let ghost b0 = buf@;
    let ghost d0 = dst@;
    let ghost h = ring_history(b0, read_pointer as int);
    let ghost input = src@.take(frames as int);
    let len = buf.len();
    if read_pointer == 0 {
        // Only one copy is needed.
        copy_into(dst, 0, buf, 0, len);
    } else if read_pointer < len {
        // Two copies are needed.
        let first_len = len - read_pointer;
        copy_into(dst, 0, buf, read_pointer, first_len);
        copy_into(dst, first_len, buf, 0, read_pointer);
    }
    // Copy the remaining frames from the input buffer to the output buffer.
    let remaining = frames - len;
    copy_into(dst, len, src, 0, remaining);
    // Copy the final remaining frames from the input buffer into the ring
    // buffer, which is "empty" at this point, so the read pointer starts over.
    copy_into(buf, 0, src, remaining, len);
    proof {
        assert(dst@ =~= delayed_output(h, input) + d0.skip(frames as int));
        assert(ring_history(buf@, 0) =~= delayed_history(h, input));
    }
}

/// One channel of a delay line fed at most as many frames as it holds.
fn process_channel_short<T: Copy>(buf: &mut Vec<T>, read_pointer: usize, frames: usize, src: &Vec<T>, dst: &mut Vec<T>) -> (r:
    usize)
    requires
        read_pointer < old(buf)@.len() || (read_pointer == 0 && old(buf)@.len() == 0),
        frames <= old(buf)@.len(),
        frames <= src@.len(),
        frames <= old(dst)@.len(),
    ensures
        final(buf)@.len() == old(buf)@.len(),
        r < final(buf)@.len() || (r == 0 && final(buf)@.len() == 0),
        r as int == next_read_pointer(old(buf)@.len() as int, read_pointer as int, frames as int),
        ring_history(final(buf)@, r as int) == delayed_history(
            ring_history(old(buf)@, read_pointer as int),
            src@.take(frames as int),
        ),
        final(dst)@ == delayed_output(ring_history(old(buf)@, read_pointer as int), src@.take(frames as int))
            + old(dst)@.skip(frames as int),
{
    let ghost b0 = buf@;
    let ghost d0 = dst@;
    let ghost h = ring_history(b0, read_pointer as int);
    let ghost input = src@.take(frames as int);
    let len = buf.len();
    // `read_pointer + frames < len`, written so that it cannot overflow.
    if frames < len - read_pointer {
        // Only one copy is needed.
        copy_into(dst, 0, buf, read_pointer, frames);
        copy_into(buf, read_pointer, src, 0, frames);
        proof {
            assert(dst@ =~= delayed_output(h, input) + d0.skip(frames as int));
            assert(ring_history(buf@, read_pointer + frames) =~= delayed_history(h, input));
        }
        read_pointer + frames
    } else {
        // Two copies are needed.
        let first_len = len - read_pointer;
        let second_len = frames - first_len;
        copy_into(dst, 0, buf, read_pointer, first_len);
        copy_into(dst, first_len, buf, 0, second_len);
        copy_into(buf, read_pointer, src, 0, first_len);
        copy_into(buf, 0, src, first_len, second_len);
        proof {
            assert(dst@ =~= delayed_output(h, input) + d0.skip(frames as int));
            assert(ring_history(buf@, second_len as int) =~= delayed_history(h, input));
        }
        // The read pointer wraps around to `read_pointer + frames - len`.
        second_len
    }
}

/// One channel of a delay line: the ring buffer `buf` read from `read_pointer`,
/// fed `frames` samples of `src`, writing `frames` samples to `dst`.
fn process_channel<T: Copy>(buf: &mut Vec<T>, read_pointer: usize, frames: usize, src: &Vec<T>, dst: &mut Vec<T>) -> (r:
    usize)
    requires
        read_pointer < old(buf)@.len() || (read_pointer == 0 && old(buf)@.len() == 0),
        frames <= src@.len(),
        frames <= old(dst)@.len(),
    ensures
        final(buf)@.len() == old(buf)@.len(),
        r < final(buf)@.len() || (r == 0 && final(buf)@.len() == 0),
        r as int == next_read_pointer(old(buf)@.len() as int, read_pointer as int, frames as int),
        ring_history(final(buf)@, r as int) == delayed_history(
            ring_history(old(buf)@, read_pointer as int),
            src@.take(frames as int),
        ),
        final(dst)@ == delayed_output(ring_history(old(buf)@, read_pointer as int), src@.take(frames as int))
            + old(dst)@.skip(frames as int),
{
    if frames > buf.len() {
        process_channel_long(buf, read_pointer, frames, src, dst);
        0
    } else {
        process_channel_short(buf, read_pointer, frames, src, dst)
    }
}

/// A mono delay line that delays its input by a fixed number of frames.
pub struct MonoSampleDelayNode<T> {
    buf: Vec<T>,
    read_pointer: usize,
    silence: T,
}

impl<T> MonoSampleDelayNode<T> {
    /// The read pointer lies in the ring buffer (which may be empty).
    pub closed spec fn wf(&self) -> bool {
        self.read_pointer < self.buf@.len() || (self.read_pointer == 0 && self.buf@.len() == 0)
    }

    /// The sample the node outputs as silence.
    pub closed spec fn silence(&self) -> T {
        self.silence
    }

    /// The samples that the node will output next, oldest first. There are
    /// always as many as the delay.
    pub closed spec fn history(&self) -> Seq<T> {
        ring_history(self.buf@, self.read_pointer as int)
    }
}

impl<T: Copy> MonoSampleDelayNode<T> {
    /// A delay line of `delay` frames, filled with `silence`.
    pub fn new(delay: u32, silence: T) -> (r: Self)
        ensures
            r.history() == silence_of(silence, delay as nat),
            r.silence() == silence,
            r.wf(),
    {
        let mut buf: Vec<T> = Vec::new();
        let n = delay as usize;
        let mut k: usize = 0;
        while k < n
            invariant
                k <= n,
                n == delay,
                buf@ =~= silence_of(silence, k as nat),
            decreases n - k,
        {
            buf.push(silence);
            k = k + 1;
        }
        let r = MonoSampleDelayNode { buf, read_pointer: 0, silence };
        assert(r.history() =~= silence_of(silence, delay as nat));
        r
    }

    /// The delay in frames that this node produces.
    pub fn delay(&self) -> (r: u32)
        requires
            self.wf(),
        ensures
            r == self.history().len() as u32,
    {
        self.buf.len() as u32
    }

    /// Feed `frames` samples of `src` through the delay line, writing as many
    /// to the start of `dst`.
    pub fn process(&mut self, frames: usize, src: &Vec<T>, dst: &mut Vec<T>)
        requires
            old(self).wf(),
            frames <= src@.len(),
            frames <= old(dst)@.len(),
        ensures
            final(self).wf(),
            final(dst)@ == delayed_output(old(self).history(), src@.take(frames as int)) + old(dst)@.skip(
                frames as int,
            ),
            final(self).history() == delayed_history(old(self).history(), src@.take(frames as int)),
            final(self).history().len() == old(self).history().len(),
            final(self).silence() == old(self).silence(),
    {
        let rp = process_channel(&mut self.buf, self.read_pointer, frames, src, dst);
        self.read_pointer = rp;
        proof {
            lemma_delay_keeps_length(old(self).history(), src@.take(frames as int));
        }
    }
}

impl<T: Copy> MonoSampleDelayNode<T> {
    /// Feed `frames` samples of the input port through the delay line into
    /// the output port, or, when the input port is not connected (`src` is
    /// `None`), write silence to the output and leave the line as it is.
    pub fn process_ports(&mut self, frames: usize, src: Option<&Vec<T>>, dst: &mut Vec<T>)
        requires
            old(self).wf(),
            frames <= old(dst)@.len(),
            src matches Some(s) ==> frames <= s@.len(),
        ensures
            final(self).wf(),
            final(self).silence() == old(self).silence(),
            match src {
                Some(s) => {
                    &&& final(dst)@ == delayed_output(old(self).history(), s@.take(frames as int)) + old(dst)@.skip(
                        frames as int,
                    )
                    &&& final(self).history() == delayed_history(old(self).history(), s@.take(frames as int))
                },
                None => {
                    &&& final(dst)@ == silence_of(old(self).silence(), frames as nat) + old(dst)@.skip(frames as int)
                    &&& final(self).history() == old(self).history()
                },
            },
    {
        match src {
            Some(s) => self.process(frames, s, dst),
            None => fill_silence(dst, frames, self.silence),
        }
    }
}

/// A stereo delay line that delays both channels by the same fixed number of frames.
pub struct StereoSampleDelayNode<T> {
    buf_left: Vec<T>,
    buf_right: Vec<T>,
    read_pointer: usize,
    silence: T,
}

impl<T> StereoSampleDelayNode<T> {
    /// The read pointer lies in the ring buffer (which may be empty).
    pub closed spec fn wf(&self) -> bool {
        &&& self.buf_left@.len() == self.buf_right@.len()
        &&& self.read_pointer < self.buf_left@.len() || (self.read_pointer == 0 && self.buf_left@.len() == 0)
    }

    /// The sample the node outputs as silence.
    pub closed spec fn silence(&self) -> T {
        self.silence
    }

    /// The samples of the left channel that the node will output next, oldest first.
    pub closed spec fn history_left(&self) -> Seq<T> {
        ring_history(self.buf_left@, self.read_pointer as int)
    }

    /// The samples of the right channel that the node will output next, oldest first.
    pub closed spec fn history_right(&self) -> Seq<T> {
        ring_history(self.buf_right@, self.read_pointer as int)
    }
}

impl<T: Copy> StereoSampleDelayNode<T> {
    /// A delay line of `delay` frames, filled with `silence`.
    pub fn new(delay: u32, silence: T) -> (r: Self)
        ensures
            r.history_left() == silence_of(silence, delay as nat),
            r.history_right() == silence_of(silence, delay as nat),
            r.silence() == silence,
            r.wf(),
    {
        let mut buf_left: Vec<T> = Vec::new();
        let mut buf_right: Vec<T> = Vec::new();
        let n = delay as usize;
        let mut k: usize = 0;
        while k < n
            invariant
                k <= n,
                n == delay,
                buf_left@ =~= silence_of(silence, k as nat),
                buf_right@ =~= silence_of(silence, k as nat),
            decreases n - k,
        {
            buf_left.push(silence);
            buf_right.push(silence);
            k = k + 1;
        }
        let r = StereoSampleDelayNode { buf_left, buf_right, read_pointer: 0, silence };
        assert(r.history_left() =~= silence_of(silence, delay as nat));
        assert(r.history_right() =~= silence_of(silence, delay as nat));
        r
    }

    /// The delay in frames that this node produces.
    pub fn delay(&self) -> (r: u32)
        requires
            self.wf(),
        ensures
            r == self.history_left().len() as u32,
            self.history_left().len() == self.history_right().len(),
    {
        self.buf_left.len() as u32
    }

    /// Feed `frames` samples of each input channel through the delay line,
    /// writing as many to the start of each output channel.
    pub fn process(
        &mut self,
        frames: usize,
        src_left: &Vec<T>,
        src_right: &Vec<T>,
        dst_left: &mut Vec<T>,
        dst_right: &mut Vec<T>,
    )
        requires
            old(self).wf(),
            frames <= src_left@.len(),
            frames <= src_right@.len(),
            frames <= old(dst_left)@.len(),
            frames <= old(dst_right)@.len(),
        ensures
            final(self).wf(),
            final(dst_left)@ == delayed_output(old(self).history_left(), src_left@.take(frames as int))
                + old(dst_left)@.skip(frames as int),
            final(dst_right)@ == delayed_output(old(self).history_right(), src_right@.take(frames as int))
                + old(dst_right)@.skip(frames as int),
            final(self).history_left() == delayed_history(old(self).history_left(), src_left@.take(frames as int)),
            final(self).history_right() == delayed_history(old(self).history_right(), src_right@.take(frames as int)),
            final(self).history_left().len() == old(self).history_left().len(),
            final(self).history_right().len() == old(self).history_right().len(),
            final(self).silence() == old(self).silence(),
    {
        let rp = process_channel(&mut self.buf_left, self.read_pointer, frames, src_left, dst_left);
        let rp2 = process_channel(&mut self.buf_right, self.read_pointer, frames, src_right, dst_right);
        self.read_pointer = rp;
        proof {
            lemma_delay_keeps_length(old(self).history_left(), src_left@.take(frames as int));
            lemma_delay_keeps_length(old(self).history_right(), src_right@.take(frames as int));
        }
    }
}

impl<T: Copy> StereoSampleDelayNode<T> {
    /// Feed `frames` samples of the input port's two channels through the
    /// delay line into the output port's, or, when the input port is not
    /// connected (`src` is `None`), write silence to both output channels and
    /// leave the line as it is.
    pub fn process_ports(
        &mut self,
        frames: usize,
        src: Option<(&Vec<T>, &Vec<T>)>,
        dst_left: &mut Vec<T>,
        dst_right: &mut Vec<T>,
    )
        requires
            old(self).wf(),
            frames <= old(dst_left)@.len(),
            frames <= old(dst_right)@.len(),
            src matches Some((l, r)) ==> frames <= l@.len() && frames <= r@.len(),
        ensures
            final(self).wf(),
            final(self).silence() == old(self).silence(),
            match src {
                Some((l, r)) => {
                    &&& final(dst_left)@ == delayed_output(old(self).history_left(), l@.take(frames as int))
                        + old(dst_left)@.skip(frames as int)
                    &&& final(dst_right)@ == delayed_output(old(self).history_right(), r@.take(frames as int))
                        + old(dst_right)@.skip(frames as int)
                    &&& final(self).history_left() == delayed_history(old(self).history_left(), l@.take(frames as int))
                    &&& final(self).history_right() == delayed_history(
                        old(self).history_right(),
                        r@.take(frames as int),
                    )
                },
                None => {
                    &&& final(dst_left)@ == silence_of(old(self).silence(), frames as nat) + old(dst_left)@.skip(
                        frames as int,
                    )
                    &&& final(dst_right)@ == silence_of(old(self).silence(), frames as nat) + old(dst_right)@.skip(
                        frames as int,
                    )
                    &&& final(self).history_left() == old(self).history_left()
                    &&& final(self).history_right() == old(self).history_right()
                },
            },
    {
        match src {
            Some((l, r)) => self.process(frames, l, r, dst_left, dst_right),
            None => {
                fill_silence(dst_left, frames, self.silence);
                fill_silence(dst_right, frames, self.silence);
            },
        }
    }
}

/// The samples of the first `k` blocks, one block after another.
pub open spec fn concat_blocks<T>(blocks: Seq<Seq<T>>, k: int) -> Seq<T>
    decreases k,
{
    if k <= 0 {
        Seq::empty()
    } else {
        concat_blocks(blocks, k - 1) + blocks[k - 1]
    }
}

/// What a delay line holding `history` holds after being fed the first `k`
/// blocks, one call per block.
pub open spec fn history_after_blocks<T>(history: Seq<T>, blocks: Seq<Seq<T>>, k: int) -> Seq<T>
    decreases k,
{
    if k <= 0 {
        history
    } else {
        delayed_history(history_after_blocks(history, blocks, k - 1), blocks[k - 1])
    }
}

/// The outputs of a delay line holding `history` fed the first `k` blocks,
/// one call per block, one after another.
pub open spec fn output_of_blocks<T>(history: Seq<T>, blocks: Seq<Seq<T>>, k: int) -> Seq<T>
    decreases k,
{
    if k <= 0 {
        Seq::empty()
    } else {
        output_of_blocks(history, blocks, k - 1) + delayed_output(
            history_after_blocks(history, blocks, k - 1),
            blocks[k - 1],
        )
    }
}

/// Fed any number of blocks of any sizes, one call per block, a delay line
/// outputs its history followed by the input stream, as long as the input
/// stream, and it ends holding the last samples of that: it is an ideal delay
/// of `history.len()` frames whatever the block sizes, and its delay never
/// changes. For a line made by `new(delay, silence)` the output is `delay`
/// copies of `silence` followed by the input, cut to the input's length. Each
/// channel of a stereo line is such a line of its own.
pub proof fn lemma_delay_over_blocks<T>(history: Seq<T>, blocks: Seq<Seq<T>>, k: int)
    requires
        0 <= k <= blocks.len(),
    ensures
        output_of_blocks(history, blocks, k) == delayed_output(history, concat_blocks(blocks, k)),
        history_after_blocks(history, blocks, k) == delayed_history(history, concat_blocks(blocks, k)),
        history_after_blocks(history, blocks, k).len() == history.len(),
    decreases k,
{
    if k == 0 {
        assert(delayed_output(history, Seq::<T>::empty()) =~= Seq::<T>::empty());
        assert(delayed_history(history, Seq::<T>::empty()) =~= history);
    } else {
        lemma_delay_over_blocks(history, blocks, k - 1);
        lemma_delay_block_size_independent(history, concat_blocks(blocks, k - 1), blocks[k - 1]);
        lemma_delay_keeps_length(history, concat_blocks(blocks, k));
    }
}

/// A delay line keeps exactly as many samples as its delay, whatever it is fed.
pub proof fn lemma_delay_keeps_length<T>(history: Seq<T>, input: Seq<T>)
    ensures
        delayed_history(history, input).len() == history.len(),
        delayed_output(history, input).len() == input.len(),
{
}

/// Feeding a delay line `a` and then `b` outputs the same samples, and leaves
/// it holding the same history, as feeding it `a + b` at once: how the input
/// is cut into blocks does not matter.
pub proof fn lemma_delay_block_size_independent<T>(history: Seq<T>, a: Seq<T>, b: Seq<T>)
    ensures
        delayed_output(history, a + b) == delayed_output(history, a) + delayed_output(
            delayed_history(history, a),
            b,
        ),
        delayed_history(history, a + b) == delayed_history(delayed_history(history, a), b),
{
    let h1 = delayed_history(history, a);
    assert(h1 + b =~= (history + (a + b)).skip(a.len() as int));
    assert(delayed_output(history, a + b) =~= delayed_output(history, a) + delayed_output(h1, b));
    assert(delayed_history(history, a + b) =~= delayed_history(h1, b));
}

/// A delay line of `delay` frames that starts out silent outputs silence for
/// the first `delay` frames and then its input, `delay` frames late.
pub proof fn lemma_delay_shifts_input<T>(silence: T, delay: nat, input: Seq<T>)
    ensures
        forall|i: int|
            0 <= i < input.len() ==> #[trigger] delayed_output(silence_of(silence, delay), input)[i] == if i
                < delay {
                silence
            } else {
                input[i - delay]
            },
{
}

} // verus!
