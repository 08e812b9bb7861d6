//! `skate cluster`: operations on the cluster as a whole.
use vstd::prelude::*;
use crate::cli::ConfigFileArgs;
use crate::state::{ClusterState, ClusterStateView, NodeState, NodeStateView};

verus! {

/// What `skate cluster` is given.
#[derive(Debug)]
pub struct ClusterArgs {
    pub config: ConfigFileArgs,
    pub command: Commands,
}

/// The subcommands of `skate cluster`.
#[derive(Debug)]
pub enum Commands {
    /// Re-apply all resources in the cluster (after a cordon, an uncordon or a new node).
    Reschedule(RescheduleArgs),
}

/// What `skate cluster reschedule` is given.
#[derive(Debug)]
pub struct RescheduleArgs {
    pub config: ConfigFileArgs,
    /// Report what would change without changing the cluster.
    pub dry_run: bool,
}

impl ClusterArgs {
    /// The arguments of the reschedule subcommand, which takes the configuration file
    /// arguments given to `skate cluster`.
    pub fn reschedule_args(self) -> (res: RescheduleArgs)
        ensures
            res.config == self.config,
            self.command matches Commands::Reschedule(a) && res.dry_run == a.dry_run,
    {
        match self.command {
            Commands::Reschedule(a) => RescheduleArgs { config: self.config, dry_run: a.dry_run },
        }
    }
}

/// The nodes that take part in rescheduling: all but the one named `donor`, in order.
pub open spec fn kept_nodes(nodes: Seq<NodeStateView>, donor: Option<Seq<char>>) -> Seq<NodeStateView>
    decreases nodes.len(),
{
    if nodes.len() == 0 {
        Seq::empty()
    } else {
        let rest = kept_nodes(nodes.drop_last(), donor);
        if donor matches Some(d) && nodes.last().node_name == d {
            rest
        } else {
            rest.push(nodes.last())
        }
    }
}

/// The cluster state without the node that gives its resources away (all of it where there is
/// none).
pub fn without_donor(state: &ClusterState, donor: Option<&str>) -> (res: ClusterState)
    ensures
        res.deep_view().cluster_name == state.deep_view().cluster_name,
        res.deep_view().nodes == kept_nodes(state.deep_view().nodes, match donor { Some(d) => Some(d@), None => None }),
{
    let ghost d = match donor { Some(d) => Some(d@), None => None };
    let ghost all = state.nodes.deep_view();
    let mut nodes: Vec<NodeState> = Vec::new();
    let mut i: usize = 0;
    while i < state.nodes.len()
        invariant
            i <= state.nodes@.len(),
            all == state.nodes.deep_view(),
            d == (match donor { Some(x) => Some(x@), None => None::<Seq<char>> }),
            nodes.deep_view() == kept_nodes(all.take(i as int), d),
        decreases state.nodes.len() - i,
    {
        let n = &state.nodes[i];
        proof {
            assert(all.take(i + 1).drop_last() =~= all.take(i as int));
            assert(all.take(i + 1).last() == n.deep_view());
        }
        let drop = match donor {
            Some(dn) => crate::text::text_eq(n.node_name.as_str(), dn),
            None => false,
        };
        if !drop {
            let ghost before = nodes.deep_view();
            nodes.push(n.clone());
            assert(nodes.deep_view() =~= before.push(n.deep_view()));
        }
        i = i + 1;
    }
    assert(all.take(all.len() as int) =~= all);
    ClusterState { cluster_name: state.cluster_name.clone(), nodes }
}

} // verus!
