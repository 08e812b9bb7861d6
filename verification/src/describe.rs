//! `skate describe`: the full state of one object of the cluster.
use vstd::prelude::*;
use crate::cli::ConfigFileArgs;
use crate::state::{ClusterState, NodeState, NodeStateView};

verus! {

/// What `skate describe` is given.
#[derive(Debug)]
pub struct DescribeArgs {
    pub commands: DescribeCommands,
}

/// Which object to describe.
#[derive(Debug)]
pub struct DescribeObjectArgs {
    pub config: ConfigFileArgs,
    /// Filter by namespace.
    pub namespace: Option<String>,
    /// The object's name.
    pub id: String,
}

/// The kinds of objects `skate describe` knows.
#[derive(Debug)]
pub enum DescribeCommands {
    Pod(DescribeObjectArgs),
    Deployment(DescribeObjectArgs),
    Node(DescribeObjectArgs),
}

/// The index of the first node state of the given name.
pub open spec fn first_node_state(nodes: Seq<NodeStateView>, name: Seq<char>) -> Option<int>
    decreases nodes.len(),
{
    if nodes.len() == 0 {
        None
    } else if nodes[0].node_name == name {
        Some(0)
    } else {
        match first_node_state(nodes.drop_first(), name) {
            Some(i) => Some(i + 1),
            None => None,
        }
    }
}

proof fn lemma_first_node_state(nodes: Seq<NodeStateView>, name: Seq<char>, k: int)
    requires
        0 <= k <= nodes.len(),
        forall|j: int| 0 <= j < k ==> #[trigger] nodes[j].node_name != name,
    ensures
        k < nodes.len() && nodes[k].node_name == name ==> first_node_state(nodes, name) == Some(k),
        k == nodes.len() ==> first_node_state(nodes, name) is None,
    decreases k,
{
    if k > 0 {
        lemma_first_node_state(nodes.drop_first(), name, k - 1);
    }
}

/// The state of the first node of the given name (what `skate describe node` shows).
pub fn find_node_state(state: &ClusterState, id: &str) -> (res: Option<NodeState>)
    ensures
        match first_node_state(state.deep_view().nodes, id@) {
            Some(i) => res matches Some(n) && n.deep_view() == state.deep_view().nodes[i],
            None => res is None,
        },
{
    let ghost all = state.nodes.deep_view();
    let mut i: usize = 0;
    while i < state.nodes.len()
        invariant
            i <= state.nodes@.len(),
            all == state.nodes.deep_view(),
            forall|j: int| 0 <= j < i ==> #[trigger] all[j].node_name != id@,
        decreases state.nodes.len() - i,
    {
        if crate::text::text_eq(state.nodes[i].node_name.as_str(), id) {
            proof {
                lemma_first_node_state(all, id@, i as int);
            }
            return Some(state.nodes[i].clone());
        }
        i = i + 1;
    }
    proof {
        lemma_first_node_state(all, id@, i as int);
    }
    None
}

} // verus!
