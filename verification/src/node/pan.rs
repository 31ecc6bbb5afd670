use vstd::prelude::*;

verus! {

/// How a stereo gain/pan node splits its gain between the two channels.
#[non_exhaustive]
#[derive(Debug, Clone, Copy, PartialEq, Eq, Structural)]
pub enum PanLaw {
    Linear,
}

} // verus!
