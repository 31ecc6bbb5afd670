use vstd::prelude::*;

use crate::graph_state::NodeRef;
use crate::compiler::{inserted_kinds_ok, user_kinds_ok};
use crate::resource_pool::{
    root_output_buffer_spec, set_user_node_spec, DebugNodeID, DebugNodeType, GraphResourcePool,
    PoolModel,
};
use crate::schedule_verifier::Verifier;
use crate::shared::SharedUserNode;

verus! {

/// Why a change to the graph was refused.
#[derive(Debug, Clone, Copy, PartialEq, Eq, Structural)]
pub enum GraphError {
    /// The node does not exist, or is the root node, which cannot be removed or replaced.
    NodeDoesNotExist,
}

/// The non-realtime side of the audio graph: the resource pool, the root node,
/// the counters that name inserted nodes, and the schedule verifier.
pub struct GraphInterface {
    pub resource_pool: GraphResourcePool,
    pub root_node_ref: NodeRef,
    pub next_delay_comp_node_id: u64,
    pub next_sum_node_id: u64,
    pub verifier: Verifier,
}

/// The debug identifier of the user node at `index` with the name `name`.
pub open spec fn user_node_id(index: usize, name: &'static str) -> DebugNodeID {
    DebugNodeID { node_type: DebugNodeType::User, index: index as u64, name: Some(name) }
}

/// The debug identifier of the root node.
pub open spec fn root_node_id() -> DebugNodeID {
    DebugNodeID { node_type: DebugNodeType::Root, index: 0, name: None }
}

impl GraphInterface {
    /// A graph holding only its root node `root_node_ref`, with the given
    /// numbers of "process replacing" ports.
    pub fn new(root_node_ref: NodeRef, root_mono_replacing_ports: u32, root_stereo_replacing_ports: u32) -> (r: Self)
        requires
            root_node_ref.0 < usize::MAX,
        ensures
            r.resource_pool.model() == (PoolModel {
                user_nodes: set_user_node_spec(
                    Seq::empty(),
                    root_node_ref.0 as int,
                    Some(
                        SharedUserNode {
                            node: root_node_id(),
                            num_mono_replacing_ports: root_mono_replacing_ports,
                            num_stereo_replacing_ports: root_stereo_replacing_ports,
                        },
                    ),
                ),
                delay_comp_nodes: Seq::empty(),
                sum_nodes: Seq::empty(),
                root_output_buffer: root_output_buffer_spec(),
                mono_block_buffers: Seq::empty(),
                stereo_block_buffers: Seq::empty(),
                temp_mono_block_buffers: Seq::empty(),
                temp_stereo_block_buffers: Seq::empty(),
            }),
            r.resource_pool.model().wf(),
            user_kinds_ok(r.resource_pool.model()),
            inserted_kinds_ok(r.resource_pool.model()),
            r.root_node_ref == root_node_ref,
            r.next_delay_comp_node_id == 0,
            r.next_sum_node_id == 0,
    {
        let mut resource_pool = GraphResourcePool::new();
        resource_pool.add_user_node(
            root_node_ref,
            DebugNodeID { node_type: DebugNodeType::Root, index: 0, name: None },
            root_mono_replacing_ports,
            root_stereo_replacing_ports,
        );
        GraphInterface {
            resource_pool,
            root_node_ref,
            next_delay_comp_node_id: 0,
            next_sum_node_id: 0,
            verifier: Verifier::new(),
        }
    }

    /// The root node.
    pub fn root_node(&self) -> (r: NodeRef)
        ensures
            r == self.root_node_ref,
    {
        self.root_node_ref
    }

    /// Record the node that the graph added as `node_ref`, named `debug_name`,
    /// with the given numbers of "process replacing" ports. The graph hands
    /// out a new reference for every node it adds, never the root node's.
    pub fn add_new_node(
        &mut self,
        node_ref: NodeRef,
        debug_name: &'static str,
        mono_replacing_ports: u32,
        stereo_replacing_ports: u32,
    ) -> (r: NodeRef)
        requires
            node_ref.0 < usize::MAX,
            node_ref != old(self).root_node_ref,
            old(self).resource_pool.model().wf(),
        ensures
            r == node_ref,
            final(self).resource_pool.model() == (PoolModel {
                user_nodes: set_user_node_spec(
                    old(self).resource_pool.model().user_nodes,
                    node_ref.0 as int,
                    Some(
                        SharedUserNode {
                            node: user_node_id(node_ref.0, debug_name),
                            num_mono_replacing_ports: mono_replacing_ports,
                            num_stereo_replacing_ports: stereo_replacing_ports,
                        },
                    ),
                ),
                ..old(self).resource_pool.model()
            }),
            final(self).resource_pool.model().wf(),
            user_kinds_ok(old(self).resource_pool.model()) ==> user_kinds_ok(final(self).resource_pool.model()),
            inserted_kinds_ok(old(self).resource_pool.model()) ==> inserted_kinds_ok(
                final(self).resource_pool.model(),
            ),
            final(self).root_node_ref == old(self).root_node_ref,
            final(self).next_delay_comp_node_id == old(self).next_delay_comp_node_id,
            final(self).next_sum_node_id == old(self).next_sum_node_id,
    {
        let index = node_ref.index();
        let node_id = DebugNodeID { node_type: DebugNodeType::User, index: index as u64, name: Some(debug_name) };
        self.resource_pool.add_user_node(node_ref, node_id, mono_replacing_ports, stereo_replacing_ports);
        node_ref
    }

    /// The user node `node_ref` when it exists and is not the root node.
    pub fn existing_user_node(&self, node_ref: NodeRef) -> (r: Result<SharedUserNode, GraphError>)
        ensures
            match r {
                Ok(u) => node_ref != self.root_node_ref && node_ref.0 < self.resource_pool.user_nodes@.len()
                    && self.resource_pool.user_nodes@[node_ref.0 as int] == Some(u),
                Err(e) => e == GraphError::NodeDoesNotExist && (node_ref == self.root_node_ref || node_ref.0
                    >= self.resource_pool.user_nodes@.len() || self.resource_pool.user_nodes@[node_ref.0 as int]
                    is None),
            },
    {
        if node_ref == self.root_node_ref {
            return Err(GraphError::NodeDoesNotExist);
        }
        let index = node_ref.index();
        if index >= self.resource_pool.user_nodes.len() {
            return Err(GraphError::NodeDoesNotExist);
        }
        match self.resource_pool.user_nodes[index] {
            Some(u) => Ok(u),
            None => Err(GraphError::NodeDoesNotExist),
        }
    }

    /// Replace the user node `node_ref` by a node named `debug_name` with the
    /// given numbers of "process replacing" ports. The root node cannot be
    /// replaced.
    pub fn replace_node(
        &mut self,
        node_ref: NodeRef,
        debug_name: &'static str,
        mono_replacing_ports: u32,
        stereo_replacing_ports: u32,
    ) -> (r: Result<(), GraphError>)
        requires
            old(self).resource_pool.model().wf(),
        ensures
            ({
                let users = old(self).resource_pool.model().user_nodes;
                let exists = node_ref != old(self).root_node_ref && node_ref.0 < users.len()
                    && users[node_ref.0 as int] is Some;
                &&& r is Ok <==> exists
                &&& r is Err ==> r == Err::<(), GraphError>(GraphError::NodeDoesNotExist)
                &&& final(self).resource_pool.model() == if exists {
                    PoolModel {
                        user_nodes: users.update(
                            node_ref.0 as int,
                            Some(
                                SharedUserNode {
                                    node: user_node_id(node_ref.0, debug_name),
                                    num_mono_replacing_ports: mono_replacing_ports,
                                    num_stereo_replacing_ports: stereo_replacing_ports,
                                },
                            ),
                        ),
                        ..old(self).resource_pool.model()
                    }
                } else {
                    old(self).resource_pool.model()
                }
            }),
            final(self).resource_pool.model().wf(),
            user_kinds_ok(old(self).resource_pool.model()) ==> user_kinds_ok(final(self).resource_pool.model()),
            inserted_kinds_ok(old(self).resource_pool.model()) ==> inserted_kinds_ok(
                final(self).resource_pool.model(),
            ),
            final(self).root_node_ref == old(self).root_node_ref,
            final(self).next_delay_comp_node_id == old(self).next_delay_comp_node_id,
            final(self).next_sum_node_id == old(self).next_sum_node_id,
    {
        match self.existing_user_node(node_ref) {
            Err(e) => Err(e),
            Ok(_) => {
                let index = node_ref.index();
                let new_node_id = DebugNodeID {
                    node_type: DebugNodeType::User,
                    index: index as u64,
                    name: Some(debug_name),
                };
                let ghost m0 = self.resource_pool.model();
                self.resource_pool.remove_user_node(node_ref);
                let len = self.resource_pool.user_nodes.len();
                assert(index < len);
                self.resource_pool.add_user_node(node_ref, new_node_id, mono_replacing_ports, stereo_replacing_ports);
                proof {
                    assert(self.resource_pool.model().user_nodes =~= m0.user_nodes.update(
                        index as int,
                        Some(
                            SharedUserNode {
                                node: new_node_id,
                                num_mono_replacing_ports: mono_replacing_ports,
                                num_stereo_replacing_ports: stereo_replacing_ports,
                            },
                        ),
                    ));
                }
                Ok(())
            },
        }
    }

    /// Remove the user node `node_ref`. The root node cannot be removed.
    pub fn remove_node(&mut self, node_ref: NodeRef) -> (r: Result<(), GraphError>)
        requires
            old(self).resource_pool.model().wf(),
        ensures
            ({
                let users = old(self).resource_pool.model().user_nodes;
                let exists = node_ref != old(self).root_node_ref && node_ref.0 < users.len()
                    && users[node_ref.0 as int] is Some;
                &&& r is Ok <==> exists
                &&& r is Err ==> r == Err::<(), GraphError>(GraphError::NodeDoesNotExist)
                &&& final(self).resource_pool.model() == if exists {
                    PoolModel { user_nodes: users.update(node_ref.0 as int, None), ..old(self).resource_pool.model() }
                } else {
                    old(self).resource_pool.model()
                }
            }),
            final(self).resource_pool.model().wf(),
            user_kinds_ok(old(self).resource_pool.model()) ==> user_kinds_ok(final(self).resource_pool.model()),
            inserted_kinds_ok(old(self).resource_pool.model()) ==> inserted_kinds_ok(
                final(self).resource_pool.model(),
            ),
            final(self).root_node_ref == old(self).root_node_ref,
            final(self).next_delay_comp_node_id == old(self).next_delay_comp_node_id,
            final(self).next_sum_node_id == old(self).next_sum_node_id,
    {
        match self.existing_user_node(node_ref) {
            Err(e) => Err(e),
            Ok(_) => {
                self.resource_pool.remove_user_node(node_ref);
                Ok(())
            },
        }
    }
}

} // verus!
