//! The processor identifiers, shared with the plugin instance pool.

pub use crate::plugin_instance_pool::{UniqueProcessorID, UniqueProcessorType};
