use vstd::prelude::*;

verus! {

/// Identifies one plugin instance for the lifetime of the host.
#[derive(Debug, Clone, Copy, PartialEq, Eq, Structural)]
pub struct UniquePluginInstanceID(pub u64);

impl UniquePluginInstanceID {
    /// The next identifier: the accumulator is advanced by one and its new
    /// value names the instance.
    pub fn new(accumulator: &mut u64) -> (r: Self)
        requires
            *old(accumulator) < u64::MAX,
        ensures
            *final(accumulator) == *old(accumulator) + 1,
            r.0 == *final(accumulator),
    {
        *accumulator = *accumulator + 1;
        UniquePluginInstanceID(*accumulator)
    }
}

/// The kind of a processor. Used for debugging and verifying purposes.
#[derive(Debug, Clone, Copy, PartialEq, Eq, Structural)]
pub enum UniqueProcessorType {
    Internal,
    Sum,
    DelayComp,
}

impl UniqueProcessorType {
    /// The three-letter name that this kind of processor is shown by.
    pub open spec fn label_spec(self) -> &'static str {
        match self {
            UniqueProcessorType::Internal => "Int",
            UniqueProcessorType::Sum => "Sum",
            UniqueProcessorType::DelayComp => "Dly",
        }
    }

    /// The three-letter name that this kind of processor is shown by.
    pub fn label(&self) -> (r: &'static str)
        ensures
            r == self.label_spec(),
    {
        match self {
            UniqueProcessorType::Internal => "Int",
            UniqueProcessorType::Sum => "Sum",
            UniqueProcessorType::DelayComp => "Dly",
        }
    }
}

/// Identifies a processor. Used for debugging and verifying purposes. Two
/// identifiers are equal when their type and index are; the name is only
/// carried along for display.
#[derive(Debug, Clone, Copy)]
pub struct UniqueProcessorID {
    pub node_type: UniqueProcessorType,
    pub index: u32,
    pub name: &'static str,
}

impl UniqueProcessorID {
    /// What identifies the processor: its type and index.
    pub open spec fn key(self) -> (UniqueProcessorType, u32) {
        (self.node_type, self.index)
    }
}

impl PartialEq for UniqueProcessorID {
    fn eq(&self, other: &Self) -> (r: bool) {
        self.node_type == other.node_type && self.index == other.index
    }
}

impl vstd::std_specs::cmp::PartialEqSpecImpl for UniqueProcessorID {
    open spec fn obeys_eq_spec() -> bool {
        true
    }

    open spec fn eq_spec(&self, other: &Self) -> bool {
        self.key() == other.key()
    }
}

/// Identifiers handed out one after another from the same accumulator never
/// repeat: when the accumulator held `start`, the `k`-th call of `new` hands
/// out `start + k + 1`, so any two of the identifiers differ.
pub proof fn lemma_plugin_instance_ids_unique(start: u64, ids: Seq<UniquePluginInstanceID>)
    requires
        forall|k: int| 0 <= k < ids.len() ==> #[trigger] ids[k].0 == start + k + 1,
    ensures
        forall|i: int, j: int| 0 <= i < j < ids.len() ==> ids[i] != ids[j],
{
    assert forall|i: int, j: int| 0 <= i < j < ids.len() implies ids[i] != ids[j] by {
        assert(ids[i].0 == start + i + 1);
        assert(ids[j].0 == start + j + 1);
    }
}

} // verus!
