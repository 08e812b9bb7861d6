//! `skate delete`: removing resources, nodes, namespaces and clusters.
use vstd::prelude::*;
use crate::cli::ConfigFileArgs;
use crate::config::{Config, first_cluster_named, position_of_cluster};
use crate::cron::{trim, trimmed};
use crate::errors::SkateError;
use crate::resource::ResourceType;
use crate::text::{owned, split_pieces, split_text, views};

verus! {

/// What `skate delete` is given.
#[derive(Debug)]
pub struct DeleteArgs {
    pub config: ConfigFileArgs,
    pub command: DeleteCommands,
}

/// The subcommands of `skate delete`.
#[derive(Debug)]
pub enum DeleteCommands {
    Node(DeleteResourceArgs),
    Ingress(DeleteResourceArgs),
    Cronjob(DeleteResourceArgs),
    Secret(DeleteResourceArgs),
    Deployment(DeleteResourceArgs),
    Daemonset(DeleteResourceArgs),
    Service(DeleteResourceArgs),
    ClusterIssuer(DeleteResourceArgs),
    Cluster(DeleteClusterArgs),
    Namespace(DeleteNamespaceArgs),
}

/// What `skate delete namespace` is given.
#[derive(Debug)]
pub struct DeleteNamespaceArgs {
    pub name: String,
    pub config: ConfigFileArgs,
}

/// Which resource `skate delete` removes.
#[derive(Debug)]
pub struct DeleteResourceArgs {
    pub name: String,
    /// Its namespace (`default` where none is given).
    pub namespace: String,
    pub config: ConfigFileArgs,
}

/// Which cluster `skate delete cluster` removes.
#[derive(Debug)]
pub struct DeleteClusterArgs {
    pub name: String,
    pub config: ConfigFileArgs,
    /// Answer yes to the confirmation.
    pub yes: bool,
}

/// What a delete subcommand removes.
#[derive(Debug)]
pub enum DeleteTarget {
    /// A node of the configuration.
    Node(DeleteResourceArgs),
    /// A resource of this kind on every node.
    Resource(ResourceType, DeleteResourceArgs),
    /// A namespace: the name is the namespace too.
    Namespace(DeleteResourceArgs),
    /// A cluster of the configuration.
    Cluster(DeleteClusterArgs),
}

impl DeleteCommands {
    /// What the subcommand removes; a namespace is removed as the resource named after it in
    /// itself.
    pub fn target(self) -> (res: DeleteTarget)
        ensures
            match self {
                DeleteCommands::Node(a) => res == DeleteTarget::Node(a),
                DeleteCommands::Ingress(a) => res == DeleteTarget::Resource(ResourceType::Ingress, a),
                DeleteCommands::Cronjob(a) => res == DeleteTarget::Resource(ResourceType::CronJob, a),
                DeleteCommands::Secret(a) => res == DeleteTarget::Resource(ResourceType::Secret, a),
                DeleteCommands::Deployment(a) => res == DeleteTarget::Resource(ResourceType::Deployment, a),
                DeleteCommands::Daemonset(a) => res == DeleteTarget::Resource(ResourceType::DaemonSet, a),
                DeleteCommands::Service(a) => res == DeleteTarget::Resource(ResourceType::Service, a),
                DeleteCommands::ClusterIssuer(a) => res == DeleteTarget::Resource(ResourceType::ClusterIssuer, a),
                DeleteCommands::Cluster(a) => res == DeleteTarget::Cluster(a),
                DeleteCommands::Namespace(a) => res matches DeleteTarget::Namespace(r)
                    && r.name == a.name && r.namespace == a.name && r.config == a.config,
            },
    {
        match self {
            DeleteCommands::Node(a) => DeleteTarget::Node(a),
            DeleteCommands::Ingress(a) => DeleteTarget::Resource(ResourceType::Ingress, a),
            DeleteCommands::Cronjob(a) => DeleteTarget::Resource(ResourceType::CronJob, a),
            DeleteCommands::Secret(a) => DeleteTarget::Resource(ResourceType::Secret, a),
            DeleteCommands::Deployment(a) => DeleteTarget::Resource(ResourceType::Deployment, a),
            DeleteCommands::Daemonset(a) => DeleteTarget::Resource(ResourceType::DaemonSet, a),
            DeleteCommands::Service(a) => DeleteTarget::Resource(ResourceType::Service, a),
            DeleteCommands::ClusterIssuer(a) => DeleteTarget::Resource(ResourceType::ClusterIssuer, a),
            DeleteCommands::Cluster(a) => DeleteTarget::Cluster(a),
            DeleteCommands::Namespace(a) => DeleteTarget::Namespace(DeleteResourceArgs {
                name: a.name.clone(),
                namespace: a.name,
                config: a.config,
            }),
        }
    }
}

/// The lines a node printed while removing a resource, each prefixed with the node's name:
/// none when it printed nothing, otherwise one per line of the output with surrounding
/// whitespace taken off.
pub open spec fn node_output_lines_spec(node: Seq<char>, output: Seq<char>) -> Seq<Seq<char>> {
    if output.len() == 0 {
        Seq::empty()
    } else {
        split_pieces(trimmed(output), '\n').map_values(|l: Seq<char>| node + " - "@ + l)
    }
}

/// The lines a node printed while removing a resource (see `node_output_lines_spec`).
pub fn node_output_lines(node: &str, output: &str) -> (res: Vec<String>)
    ensures
        views(res@) == node_output_lines_spec(node@, output@),
{
    let mut out: Vec<String> = Vec::new();
    if output.unicode_len() == 0 {
        assert(views(out@) =~= Seq::<Seq<char>>::empty());
        return out;
    }
    let t = trim(output);
    let lines = split_text(t.as_str(), '\n');
    let ghost ls = views(lines@);
    let mut i: usize = 0;
    while i < lines.len()
        invariant
            i <= lines@.len(),
            ls == views(lines@),
            views(out@) == ls.take(i as int).map_values(|l: Seq<char>| node@ + " - "@ + l),
        decreases lines.len() - i,
    {
        let mut s = owned(node);
        s.append(" - ");
        s.append(lines[i].as_str());
        let ghost before = views(out@);
        out.push(s);
        proof {
            assert(views(out@) =~= before.push(node@ + " - "@ + ls[i as int]));
            assert(ls.take(i + 1) =~= ls.take(i as int).push(ls[i as int]));
            assert(ls.take(i + 1).map_values(|l: Seq<char>| node@ + " - "@ + l)
                =~= ls.take(i as int).map_values(|l: Seq<char>| node@ + " - "@ + l).push(node@ + " - "@ + ls[i as int]));
        }
        i = i + 1;
    }
    assert(ls.take(ls.len() as int) =~= ls);
    out
}

/// Removes the first cluster of the given name from the configuration; refused where there is
/// none.
pub fn delete_cluster(config: &mut Config, name: &str) -> (res: Result<(), SkateError>)
    ensures
        match first_cluster_named(old(config).clusters@, name@) {
            Some(i) => res is Ok && final(config).clusters@ == old(config).clusters@.remove(i)
                && final(config).current_context == old(config).current_context,
            None => res matches Err(e) && e.message() == "cluster not found"@ && *final(config) == *old(config),
        },
{
    match position_of_cluster(&config.clusters, name) {
        Some(i) => {
            config.clusters.remove(i);
            Ok(())
        },
        None => Err(SkateError::msg("cluster not found")),
    }
}

} // verus!
