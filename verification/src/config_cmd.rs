//! `skate config`: reading and changing the configuration's contexts.
use vstd::prelude::*;
use crate::cli::ConfigFileArgs;
use crate::config::{Cluster, Config};
use crate::text::{join3, owned, replace_all, replaced, views};

verus! {

/// What `skate config` is given.
#[derive(Debug)]
pub struct ConfigArgs {
    pub config: ConfigFileArgs,
    pub command: ConfigCommands,
}

/// What `skate config use-context` is given.
#[derive(Debug)]
pub struct UseContextArgs {
    pub context: String,
}

/// What `skate config delete-context` is given.
#[derive(Debug)]
pub struct DeleteContextArgs {
    pub context: String,
    /// Answer yes to the confirmation.
    pub yes: bool,
}

/// The subcommands of `skate config`.
#[derive(Debug)]
pub enum ConfigCommands {
    GetClusters,
    GetContexts,
    GetNodes,
    CurrentContext,
    UseContext(UseContextArgs),
    DeleteContext(DeleteContextArgs),
}

/// The names of the configured clusters, in order (the contexts that can be used).
pub fn cluster_names(config: &Config) -> (res: Vec<String>)
    ensures
        views(res@) == config.clusters@.map_values(|c: Cluster| c.name@),
{
    let mut out: Vec<String> = Vec::new();
    let mut i: usize = 0;
    while i < config.clusters.len()
        invariant
            i <= config.clusters@.len(),
            views(out@) == config.clusters@.take(i as int).map_values(|c: Cluster| c.name@),
        decreases config.clusters.len() - i,
    {
        let ghost before = views(out@);
        out.push(config.clusters[i].name.clone());
        proof {
            assert(views(out@) =~= before.push(config.clusters@[i as int].name@));
            assert(config.clusters@.take(i + 1) =~= config.clusters@.take(i as int).push(config.clusters@[i as int]));
            assert(config.clusters@.take(i + 1).map_values(|c: Cluster| c.name@)
                =~= config.clusters@.take(i as int).map_values(|c: Cluster| c.name@).push(config.clusters@[i as int].name@));
        }
        i = i + 1;
    }
    assert(config.clusters@.take(config.clusters@.len() as int) =~= config.clusters@);
    out
}

/// The names of a cluster's nodes, in order.
pub fn node_names(cluster: &Cluster) -> (res: Vec<String>)
    ensures
        views(res@) == cluster.nodes@.map_values(|n: crate::config::Node| n.name@),
{
    let mut out: Vec<String> = Vec::new();
    let mut i: usize = 0;
    while i < cluster.nodes.len()
        invariant
            i <= cluster.nodes@.len(),
            views(out@) == cluster.nodes@.take(i as int).map_values(|n: crate::config::Node| n.name@),
        decreases cluster.nodes.len() - i,
    {
        let ghost before = views(out@);
        out.push(cluster.nodes[i].name.clone());
        proof {
            assert(views(out@) =~= before.push(cluster.nodes@[i as int].name@));
            assert(cluster.nodes@.take(i + 1) =~= cluster.nodes@.take(i as int).push(cluster.nodes@[i as int]));
            assert(cluster.nodes@.take(i + 1).map_values(|n: crate::config::Node| n.name@)
                =~= cluster.nodes@.take(i as int).map_values(|n: crate::config::Node| n.name@).push(cluster.nodes@[i as int].name@));
        }
        i = i + 1;
    }
    assert(cluster.nodes@.take(cluster.nodes@.len() as int) =~= cluster.nodes@);
    out
}

/// The current context, empty where none is set.
pub fn current_context_text(config: &Config) -> (res: String)
    ensures
        res@ == (match config.current_context { Some(c) => c@, None => Seq::empty() }),
{
    match &config.current_context {
        Some(c) => c.clone(),
        None => String::new(),
    }
}

/// The report of a context change: `prefix`, the context with its double quotes taken out,
/// then a closing quote.
pub open spec fn context_message(prefix: Seq<char>, context: Seq<char>) -> Seq<char> {
    prefix + replaced(context, "\""@, ""@) + "\""@
}

/// The report after switching context: `Switched to context "<context>"`.
pub fn switched_message(context: &str) -> (res: String)
    ensures
        res@ == context_message("Switched to context \""@, context@),
{
    proof {
        reveal_strlit("\"");
    }
    let c = replace_all(context, "\"", "");
    join3("Switched to context \"", c.as_str(), "\"")
}

/// The report after deleting a context: `Deleted context "<context>"`.
pub fn deleted_message(context: &str) -> (res: String)
    ensures
        res@ == context_message("Deleted context \""@, context@),
{
    proof {
        reveal_strlit("\"");
    }
    let c = replace_all(context, "\"", "");
    join3("Deleted context \"", c.as_str(), "\"")
}

} // verus!
