pub mod pan;
pub mod sample_delay;
pub mod sum;

use vstd::prelude::*;

verus! {

/// The kind of a node. Used for debugging and verifying purposes.
#[derive(Debug, Clone, Copy, PartialEq, Eq, Structural)]
pub enum UniqueNodeType {
    Internal,
    Sum,
    DelayComp,
}

impl UniqueNodeType {
    /// The three-letter name that this kind of node is shown by.
    pub open spec fn label_spec(self) -> &'static str {
        match self {
            UniqueNodeType::Internal => "Int",
            UniqueNodeType::Sum => "Sum",
            UniqueNodeType::DelayComp => "Dly",
        }
    }

    /// The three-letter name that this kind of node is shown by.
    pub fn label(&self) -> (r: &'static str)
        ensures
            r == self.label_spec(),
    {
        match self {
            UniqueNodeType::Internal => "Int",
            UniqueNodeType::Sum => "Sum",
            UniqueNodeType::DelayComp => "Dly",
        }
    }
}

/// Identifies a node. Used for debugging and verifying purposes. Two
/// identifiers are equal when their type and index are; the name is only
/// carried along for display.
#[derive(Debug, Clone, Copy)]
pub struct UniqueNodeID {
    pub node_type: UniqueNodeType,
    pub index: u32,
    pub name: &'static str,
}

impl UniqueNodeID {
    /// What identifies the node: its type and index.
    pub open spec fn key(self) -> (UniqueNodeType, u32) {
        (self.node_type, self.index)
    }
}

impl PartialEq for UniqueNodeID {
    fn eq(&self, other: &Self) -> (r: bool) {
        self.node_type == other.node_type && self.index == other.index
    }
}

impl vstd::std_specs::cmp::PartialEqSpecImpl for UniqueNodeID {
    open spec fn obeys_eq_spec() -> bool {
        true
    }

    open spec fn eq_spec(&self, other: &Self) -> bool {
        self.key() == other.key()
    }
}

} // verus!
