use vstd::prelude::*;

use crate::shared::SharedBuffer;
use crate::task::AudioGraphTask;

verus! {

/// A compiled schedule: the tasks to run in order for every block, and the
/// buffer that holds the root node's output.
pub struct Schedule {
    pub tasks: Vec<AudioGraphTask>,
    pub root_out_buffer: SharedBuffer,
}

} // verus!
