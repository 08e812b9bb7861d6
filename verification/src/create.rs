//! `skate create`: new clusters, nodes, cluster resources and jobs.
use vstd::prelude::*;
use crate::cli::ConfigFileArgs;
use crate::config::{Cluster, Config, first_cluster_named, position_of_cluster};
use crate::errors::SkateError;
use crate::provision::CreateNodeArgs;
use crate::resource::ResourceType;
use crate::state::{ClusterState, first_in_cluster};
use crate::text::{join2, owned, split_once_char, split_once_spec, text_eq};

verus! {

/// What `skate create` is given.
#[derive(Debug)]
pub struct CreateArgs {
    pub config: ConfigFileArgs,
    pub command: CreateCommands,
}

/// The subcommands of `skate create`.
#[derive(Debug)]
pub enum CreateCommands {
    Node(CreateNodeArgs),
    Cluster(CreateClusterArgs),
    ClusterResources(CreateClusterResourcesArgs),
    Job(CreateJobArgs),
}

/// What `skate create cluster-resources` is given.
#[derive(Debug)]
pub struct CreateClusterResourcesArgs {
    pub config: ConfigFileArgs,
}

/// The job to start: where it comes from (`cronjob/<name>`), its name, and whether to wait for
/// it.
#[derive(Debug)]
pub struct JobArgs {
    pub from: String,
    pub name: String,
    pub wait: bool,
}

/// What `skate create job` is given.
#[derive(Debug)]
pub struct CreateJobArgs {
    pub config: ConfigFileArgs,
    pub args: JobArgs,
    /// The namespace of the cron job.
    pub namespace: String,
}

/// What `skate create cluster` is given.
#[derive(Debug)]
pub struct CreateClusterArgs {
    /// The configuration file.
    pub skateconfig: String,
    pub name: String,
    /// Default ssh user for the nodes.
    pub default_user: Option<String>,
    /// Default ssh key for the nodes.
    pub default_key: Option<String>,
}

/// Adds the new cluster, without nodes, and makes it the current context; refuses a name that
/// a configured cluster already has.
pub fn create_cluster(config: &mut Config, args: &CreateClusterArgs) -> (res: Result<(), SkateError>)
    ensures
        match first_cluster_named(old(config).clusters@, args.name@) {
            Some(_) => res matches Err(e) && e.message()
                == "cluster by name of "@ + args.name@ + " already exists in "@ + args.skateconfig@
                && *final(config) == *old(config),
            None => res is Ok
                && final(config).clusters@.len() == old(config).clusters@.len() + 1
                && final(config).clusters@.drop_last() == old(config).clusters@
                && final(config).clusters@.last().name == args.name
                && final(config).clusters@.last().default_user == args.default_user
                && final(config).clusters@.last().default_key == args.default_key
                && final(config).clusters@.last().nodes@.len() == 0
                && final(config).current_context == Some(args.name),
        },
{
    if position_of_cluster(&config.clusters, args.name.as_str()).is_some() {
        let mut m = owned("cluster by name of ");
        m.append(args.name.as_str());
        m.append(" already exists in ");
        m.append(args.skateconfig.as_str());
        return Err(SkateError::String(m));
    }
    let cluster = Cluster {
        name: args.name.clone(),
        default_user: crate::config::clone_opt_text(&args.default_user),
        default_key: crate::config::clone_opt_text(&args.default_key),
        nodes: Vec::new(),
    };
    let ghost before = config.clusters@;
    config.clusters.push(cluster);
    assert(config.clusters@.drop_last() =~= before);
    config.current_context = Some(args.name.clone());
    Ok(())
}

/// The name of the cron job that a job is made from: `from` must be `cronjob/<name>`.
pub open spec fn cronjob_source(from: Seq<char>) -> Result<Seq<char>, Seq<char>> {
    match split_once_spec(from, '/') {
        None => Err("invalid --from"@),
        Some((kind, name)) => if kind == "cronjob"@ { Ok(name) } else { Err("only cronjob is supported"@) },
    }
}

/// The name of the cron job that a job is made from (see `cronjob_source`).
pub fn cronjob_name(from: &str) -> (res: Result<String, SkateError>)
    ensures
        match cronjob_source(from@) {
            Ok(n) => res matches Ok(r) && r@ == n,
            Err(m) => res matches Err(e) && e.message() == m,
        },
{
    match split_once_char(from, '/') {
        None => Err(SkateError::msg("invalid --from")),
        Some((kind, name)) => {
            if text_eq(kind.as_str(), "cronjob") {
                Ok(name)
            } else {
                Err(SkateError::msg("only cronjob is supported"))
            }
        },
    }
}

/// The command run on the node that holds the cron job.
pub open spec fn job_command_spec(ns: Seq<char>, wait: bool, from: Seq<char>, name: Seq<char>) -> Seq<char> {
    "sudo skatelet create --namespace "@ + ns + " job "@ + (if wait { "--wait"@ } else { ""@ }) + " --from "@
        + from + " "@ + name
}

impl CreateJobArgs {
    /// The command that starts the job on the node (see `job_command_spec`).
    pub fn job_command(&self) -> (res: String)
        ensures
            res@ == job_command_spec(self.namespace@, self.args.wait, self.args.from@, self.args.name@),
    {
        let mut s = owned("sudo skatelet create --namespace ");
        s.append(self.namespace.as_str());
        s.append(" job ");
        if self.args.wait {
            s.append("--wait");
        } else {
            s.append("");
        }
        s.append(" --from ");
        s.append(self.args.from.as_str());
        s.append(" ");
        s.append(self.args.name.as_str());
        s
    }

    /// The node that holds the cron job the job is made from: the first node, in the cluster's
    /// order, that holds a cron job of that name in the job's namespace.
    pub fn cronjob_node(&self, state: &ClusterState) -> (res: Result<String, SkateError>)
        ensures
            match cronjob_source(self.args.from@) {
                Err(m) => res matches Err(e) && e.message() == m,
                Ok(n) => match first_in_cluster(state.nodes.deep_view(), ResourceType::CronJob, self.namespace@, n) {
                    Some((_, node)) => res matches Ok(r) && r@ == node.node_name,
                    None => res matches Err(e) && e.message() == "no cronjobs found by name of "@
                        + self.args.from@ + " in namespace "@ + self.namespace@,
                },
            },
    {
        let name = cronjob_name(self.args.from.as_str())?;
        match state.find_in_cluster(ResourceType::CronJob, self.namespace.as_str(), name.as_str()) {
            Some((_, node)) => Ok(node.node_name),
            None => {
                let mut m = owned("no cronjobs found by name of ");
                m.append(self.args.from.as_str());
                m.append(" in namespace ");
                m.append(self.namespace.as_str());
                Err(SkateError::String(m))
            },
        }
    }
}

} // verus!
