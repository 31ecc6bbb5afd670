use vstd::prelude::*;

verus! {

/// Sums any number of mono inputs into one output.
///
/// The first input is a "process replacing" port, which also carries the sum
/// out; all the others are independent input ports.
pub struct MonoSumNode {
    num_inputs: u32,
}

impl MonoSumNode {
    /// The number of inputs this node sums.
    pub closed spec fn inputs(&self) -> u32 {
        self.num_inputs
    }

    /// A node that sums `num_inputs` mono inputs.
    pub fn new(num_inputs: u32) -> (r: Self)
        ensures
            r.inputs() == num_inputs,
    {
        MonoSumNode { num_inputs }
    }

    /// The name of this node, for debugging.
    pub fn debug_name(&self) -> (r: &'static str)
        ensures
            r@ == "RustyDAWAudioGraph::MonoSum"@,
    {
        "RustyDAWAudioGraph::MonoSum"
    }

    /// One "process replacing" port, unless there are no inputs at all.
    pub fn mono_replacing_ports(&self) -> (r: u32)
        ensures
            r == if self.inputs() == 0 { 0u32 } else { 1u32 },
    {
        if self.num_inputs == 0 {
            0
        } else {
            1
        }
    }

    /// All inputs but the first are independent ports.
    pub fn indep_mono_in_ports(&self) -> (r: u32)
        ensures
            r == if self.inputs() == 0 { 0 } else { self.inputs() - 1 },
            r + (if self.inputs() == 0 { 0u32 } else { 1u32 }) == self.inputs(),
    {
        if self.num_inputs == 0 {
            0
        } else {
            self.num_inputs - 1
        }
    }
}

/// Sums any number of stereo inputs into one output.
///
/// The first input is a "process replacing" port, which also carries the sum
/// out; all the others are independent input ports.
pub struct StereoSumNode {
    num_stereo_inputs: u32,
}

impl StereoSumNode {
    /// The number of inputs this node sums.
    pub closed spec fn inputs(&self) -> u32 {
        self.num_stereo_inputs
    }

    /// A node that sums `num_stereo_inputs` stereo inputs.
    pub fn new(num_stereo_inputs: u32) -> (r: Self)
        ensures
            r.inputs() == num_stereo_inputs,
    {
        StereoSumNode { num_stereo_inputs }
    }

    /// The name of this node, for debugging.
    pub fn debug_name(&self) -> (r: &'static str)
        ensures
            r@ == "RustyDAWAudioGraph::StereoSum"@,
    {
        "RustyDAWAudioGraph::StereoSum"
    }

    /// One "process replacing" port, unless there are no inputs at all.
    pub fn stereo_replacing_ports(&self) -> (r: u32)
        ensures
            r == if self.inputs() == 0 { 0u32 } else { 1u32 },
    {
        if self.num_stereo_inputs == 0 {
            0
        } else {
            1
        }
    }

    /// All inputs but the first are independent ports.
    pub fn indep_stereo_in_ports(&self) -> (r: u32)
        ensures
            r == if self.inputs() == 0 { 0 } else { self.inputs() - 1 },
            r + (if self.inputs() == 0 { 0u32 } else { 1u32 }) == self.inputs(),
    {
        if self.num_stereo_inputs == 0 {
            0
        } else {
            self.num_stereo_inputs - 1
        }
    }
}

} // verus!
