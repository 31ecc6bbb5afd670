use vstd::prelude::*;
use clap_sys::process::{
    CLAP_PROCESS_CONTINUE, CLAP_PROCESS_CONTINUE_IF_NOT_QUIET, CLAP_PROCESS_ERROR,
    CLAP_PROCESS_SLEEP,
};

verus! {

/// `clap_sys::process::CLAP_PROCESS_ERROR`, which clap-sys defines as 0.
#[verifier::external_body]
fn clap_process_error() -> (r: i32)
    ensures
        r == 0,
{
    CLAP_PROCESS_ERROR
}

/// `clap_sys::process::CLAP_PROCESS_CONTINUE`, which clap-sys defines as 1.
#[verifier::external_body]
fn clap_process_continue() -> (r: i32)
    ensures
        r == 1,
{
    CLAP_PROCESS_CONTINUE
}

/// `clap_sys::process::CLAP_PROCESS_CONTINUE_IF_NOT_QUIET`, which clap-sys defines as 2.
#[verifier::external_body]
fn clap_process_continue_if_not_quiet() -> (r: i32)
    ensures
        r == 2,
{
    CLAP_PROCESS_CONTINUE_IF_NOT_QUIET
}

/// `clap_sys::process::CLAP_PROCESS_SLEEP`, which clap-sys defines as 4.
#[verifier::external_body]
fn clap_process_sleep() -> (r: i32)
    ensures
        r == 4,
{
    CLAP_PROCESS_SLEEP
}

/// The status of a call to a plugin's `process()` method.
#[derive(Debug, Clone, Copy, PartialEq, Eq, Structural)]
pub enum ProcessStatus {
    /// Processing failed. The output buffer must be discarded.
    Error,
    /// Processing succeeded, keep processing.
    Continue,
    /// Processing succeeded, keep processing if the output is not quiet.
    ContinueIfNotQuiet,
    /// Processing succeeded, but no more processing is required until
    /// the next event or variation in audio input.
    Sleep,
}

/// The CLAP status code of each status.
pub open spec fn clap_status_code(s: ProcessStatus) -> i32 {
    match s {
        ProcessStatus::Error => 0,
        ProcessStatus::Continue => 1,
        ProcessStatus::ContinueIfNotQuiet => 2,
        ProcessStatus::Sleep => 4,
    }
}

/// The status that a CLAP status code stands for, if any.
pub open spec fn status_of_code(code: i32) -> Option<ProcessStatus> {
    if code == 0 {
        Some(ProcessStatus::Error)
    } else if code == 1 {
        Some(ProcessStatus::Continue)
    } else if code == 2 {
        Some(ProcessStatus::ContinueIfNotQuiet)
    } else if code == 4 {
        Some(ProcessStatus::Sleep)
    } else {
        None
    }
}

/// A status survives the round trip through its CLAP code, and the codes of
/// different statuses differ.
pub proof fn lemma_status_round_trip(s: ProcessStatus, t: ProcessStatus)
    ensures
        status_of_code(clap_status_code(s)) == Some(s),
        s != t ==> clap_status_code(s) != clap_status_code(t),
{
}

impl ProcessStatus {
    /// Parse a CLAP status code: each of the four codes gives back the status
    /// it stands for; any other code gives `None`.
    pub fn from_clap(status: i32) -> (r: Option<ProcessStatus>)
        ensures
            r == status_of_code(status),
    {
        if status == clap_process_error() {
            Some(ProcessStatus::Error)
        } else if status == clap_process_continue() {
            Some(ProcessStatus::Continue)
        } else if status == clap_process_continue_if_not_quiet() {
            Some(ProcessStatus::ContinueIfNotQuiet)
        } else if status == clap_process_sleep() {
            Some(ProcessStatus::Sleep)
        } else {
            None
        }
    }

    /// The CLAP status code of this status.
    pub fn to_clap(&self) -> (r: i32)
        ensures
            r == clap_status_code(*self),
    {
        match self {
            ProcessStatus::Error => clap_process_error(),
            ProcessStatus::Continue => clap_process_continue(),
            ProcessStatus::ContinueIfNotQuiet => clap_process_continue_if_not_quiet(),
            ProcessStatus::Sleep => clap_process_sleep(),
        }
    }
}

/// The steady time that CLAP's counter `t` stands for: none when it is negative.
pub open spec fn steady_time_of(t: i64) -> Option<u64> {
    if t < 0 {
        None
    } else {
        Some(t as u64)
    }
}

/// The steady time that CLAP's counter `t` stands for: none when it is negative.
pub fn steady_time_from_clap(t: i64) -> (r: Option<u64>)
    ensures
        r == steady_time_of(t),
{
    if t < 0 {
        None
    } else {
        Some(t as u64)
    }
}

/// Information about the block to process.
pub struct ProcInfo {
    steady_time: Option<u64>,
    frames: usize,
}

impl ProcInfo {
    /// The steady sample time counter, when known.
    pub closed spec fn steady_time_spec(&self) -> Option<u64> {
        self.steady_time
    }

    /// The number of frames to process.
    pub closed spec fn frames_spec(&self) -> usize {
        self.frames
    }

    /// The block's information from the `steady_time` and `frames_count`
    /// fields of CLAP's process information: a negative steady time means
    /// that it is not available.
    pub fn from_clap(steady_time: i64, frames_count: u32) -> (r: Self)
        ensures
            r.steady_time_spec() == steady_time_of(steady_time),
            r.frames_spec() == frames_count as usize,
    {
        ProcInfo { steady_time: steady_time_from_clap(steady_time), frames: frames_count as usize }
    }

    /// A steady sample time counter.
    ///
    /// This field can be used to calculate the sleep duration between two process calls.
    /// This will return `None` if not available, otherwise the value will be increased by
    /// at least `frames_count` for the next call to process.
    pub fn steady_time(&self) -> (r: Option<u64>)
        ensures
            r == self.steady_time_spec(),
    {
        self.steady_time
    }

    /// The number of frames to process.
    pub fn frames(&self) -> (r: usize)
        ensures
            r == self.frames_spec(),
    {
        self.frames
    }
}

/// A buffer of one audio port: its first channel, and a second channel when
/// the port is stereo.
pub struct ProcAudioBuffer<T, const MAX_BLOCKSIZE: usize> {
    pub left: [T; MAX_BLOCKSIZE],
    pub right: Option<[T; MAX_BLOCKSIZE]>,
}

impl<T, const MAX_BLOCKSIZE: usize> ProcAudioBuffer<T, MAX_BLOCKSIZE> {
    /// The buffer's first channel.
    pub fn mono(&self) -> (r: &[T; MAX_BLOCKSIZE])
        ensures
            *r == self.left,
    {
        &self.left
    }

    /// The buffer's first channel, mutably.
    pub fn mono_mut(&mut self) -> (r: &mut [T; MAX_BLOCKSIZE])
        ensures
            *r == old(self).left,
            *final(self) == (ProcAudioBuffer { left: *final(r), right: old(self).right }),
    {
        &mut self.left
    }

    /// Both channels, when the buffer is stereo.
    pub fn stereo(&self) -> (r: Option<(&[T; MAX_BLOCKSIZE], &[T; MAX_BLOCKSIZE])>)
        ensures
            match self.right {
                Some(right) => r matches Some((a, b)) && *a == self.left && *b == right,
                None => r is None,
            },
    {
        match &self.right {
            Some(right) => Some((&self.left, right)),
            None => None,
        }
    }

    /// Both channels, mutably, when the buffer is stereo.
    pub fn stereo_mut(&mut self) -> (r: Option<(&mut [T; MAX_BLOCKSIZE], &mut [T; MAX_BLOCKSIZE])>)
        ensures
            match old(self).right {
                Some(right) => r matches Some((a, b)) && *a == old(self).left && *b == right && *final(self)
                    == (ProcAudioBuffer { left: *final(a), right: Some(*final(b)) }),
                None => r is None && *final(self) == *old(self),
            },
    {
        let ProcAudioBuffer { left, right } = self;
        match right {
            Some(right) => Some((left, right)),
            None => None,
        }
    }
}

/// The audio buffers of a processor's ports.
pub struct ProcAudioPorts<T, const MAX_BLOCKSIZE: usize> {
    /// The main audio input buffer.
    ///
    /// Note this may be `None` even when a main input port exists.
    /// In that case it means the host has given the same buffer for
    /// the main input and output ports (process replacing).
    pub main_in: Option<ProcAudioBuffer<T, MAX_BLOCKSIZE>>,
    /// The main audio output buffer.
    pub main_out: Option<ProcAudioBuffer<T, MAX_BLOCKSIZE>>,
    /// The extra inputs buffers (not including the main input buffer).
    pub extra_inputs: Vec<ProcAudioBuffer<T, MAX_BLOCKSIZE>>,
    /// The extra output buffers (not including the main output buffer).
    pub extra_outputs: Vec<ProcAudioBuffer<T, MAX_BLOCKSIZE>>,
}

/// The main mono input and output of a processor.
pub enum MonoInOutStatus<'a, T, const MAX_BLOCKSIZE: usize> {
    /// The host has given a single buffer for both the input and output port.
    InPlace(&'a mut [T; MAX_BLOCKSIZE]),
    /// The host has given a separate input and output buffer.
    Separate { input: &'a [T; MAX_BLOCKSIZE], output: &'a mut [T; MAX_BLOCKSIZE] },
    /// The host has not given a main mono output buffer.
    NoMonoOut,
}

/// The main stereo input and output of a processor.
pub enum StereoInOutStatus<'a, T, const MAX_BLOCKSIZE: usize> {
    /// The host has given a single buffer for both the input and output port.
    InPlace((&'a mut [T; MAX_BLOCKSIZE], &'a mut [T; MAX_BLOCKSIZE])),
    /// The host has given a separate input and output buffer.
    Separate {
        input: (&'a [T; MAX_BLOCKSIZE], &'a [T; MAX_BLOCKSIZE]),
        output: (&'a mut [T; MAX_BLOCKSIZE], &'a mut [T; MAX_BLOCKSIZE]),
    },
    /// The host has not given a stereo output buffer.
    NoStereoOut,
}

impl<T, const MAX_BLOCKSIZE: usize> ProcAudioPorts<T, MAX_BLOCKSIZE> {
    /// The main mono input and output buffers: in place when the host gave
    /// only an output buffer, separate when it gave both, and none without an
    /// output buffer.
    pub fn main_mono_in_out<'a>(&'a mut self) -> (r: MonoInOutStatus<'a, T, MAX_BLOCKSIZE>)
        ensures
            match old(self).main_out {
                None => r is NoMonoOut && *final(self) == *old(self),
                Some(out) => match old(self).main_in {
                    None => r matches MonoInOutStatus::InPlace(b) && *b == out.left && *final(self) == (ProcAudioPorts {
                        main_out: Some(ProcAudioBuffer { left: *final(b), right: out.right }),
                        ..*old(self)
                    }),
                    Some(inp) => r matches MonoInOutStatus::Separate { input, output } && *input == inp.left
                        && *output == out.left && *final(self) == (ProcAudioPorts {
                        main_out: Some(ProcAudioBuffer { left: *final(output), right: out.right }),
                        ..*old(self)
                    }),
                },
            },
    {
        let ProcAudioPorts { main_in, main_out, .. } = self;
        if let Some(main_out) = main_out {
            if let Some(main_in) = main_in {
                return MonoInOutStatus::Separate { input: main_in.mono(), output: main_out.mono_mut() };
            } else {
                return MonoInOutStatus::InPlace(main_out.mono_mut());
            }
        }
        MonoInOutStatus::NoMonoOut
    }

    /// The main stereo input and output buffers: none unless the host gave a
    /// stereo output buffer; separate when it also gave a stereo input buffer,
    /// in place otherwise.
    pub fn main_stereo_in_out<'a>(&'a mut self) -> (r: StereoInOutStatus<'a, T, MAX_BLOCKSIZE>)
        ensures
            match old(self).main_out {
                Some(out) if out.right is Some => {
                    let out_right = out.right->0;
                    match old(self).main_in {
                        Some(inp) if inp.right is Some => r matches StereoInOutStatus::Separate { input, output }
                            && *input.0 == inp.left && *input.1 == inp.right->0 && *output.0 == out.left
                            && *output.1 == out_right && *final(self) == (ProcAudioPorts {
                            main_out: Some(ProcAudioBuffer { left: *final(output.0), right: Some(*final(output.1)) }),
                            ..*old(self)
                        }),
                        _ => r matches StereoInOutStatus::InPlace(bufs) && *bufs.0 == out.left && *bufs.1
                            == out_right && *final(self) == (ProcAudioPorts {
                            main_out: Some(ProcAudioBuffer { left: *final(bufs.0), right: Some(*final(bufs.1)) }),
                            ..*old(self)
                        }),
                    }
                },
                _ => r is NoStereoOut && *final(self) == *old(self),
            },
    {
        let ProcAudioPorts { main_in, main_out, .. } = self;
        if let Some(main_out) = main_out {
            if let Some(out_bufs) = main_out.stereo_mut() {
                if let Some(main_in) = main_in {
                    if let Some(in_bufs) = main_in.stereo() {
                        return StereoInOutStatus::Separate { input: in_bufs, output: out_bufs };
                    } else {
                        return StereoInOutStatus::InPlace(out_bufs);
                    }
                } else {
                    return StereoInOutStatus::InPlace(out_bufs);
                }
            }
        }
        StereoInOutStatus::NoStereoOut
    }

    /// The main mono output buffer, when the host gave one.
    pub fn main_mono_out<'a>(&'a mut self) -> (r: Option<&'a mut [T; MAX_BLOCKSIZE]>)
        ensures
            match old(self).main_out {
                None => r is None && *final(self) == *old(self),
                Some(out) => r matches Some(b) && *b == out.left && *final(self) == (ProcAudioPorts {
                    main_out: Some(ProcAudioBuffer { left: *final(b), right: out.right }),
                    ..*old(self)
                }),
            },
    {
        if let Some(main_out) = &mut self.main_out {
            Some(main_out.mono_mut())
        } else {
            None
        }
    }

    /// The main stereo output buffer, when the host gave a stereo one.
    pub fn main_stereo_out<'a>(&'a mut self) -> (r: Option<(&'a mut [T; MAX_BLOCKSIZE], &'a mut [T; MAX_BLOCKSIZE])>)
        ensures
            match old(self).main_out {
                Some(out) if out.right is Some => r matches Some(bufs) && *bufs.0 == out.left && *bufs.1
                    == out.right->0 && *final(self) == (ProcAudioPorts {
                    main_out: Some(ProcAudioBuffer { left: *final(bufs.0), right: Some(*final(bufs.1)) }),
                    ..*old(self)
                }),
                _ => r is None && *final(self) == *old(self),
            },
    {
        if let Some(main_out) = &mut self.main_out {
            if let Some(out_bufs) = main_out.stereo_mut() {
                return Some(out_bufs);
            }
        }
        None
    }
}

/// A processor of audio.
pub trait Processor<const MAX_BLOCKSIZE: usize> {}

} // verus!
