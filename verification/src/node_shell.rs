//! `skate node-shell`: running a command on one node of the cluster.
use vstd::prelude::*;
use crate::cli::ConfigFileArgs;
use crate::text::{join_with, joined, views};

verus! {

/// What `skate node-shell` is given.
#[derive(Debug)]
pub struct NodeShellArgs {
    pub config: ConfigFileArgs,
    /// The node to run the command on.
    pub node_name: String,
    /// The command and its arguments.
    pub cmd: Vec<String>,
}

impl NodeShellArgs {
    /// The command line run on the node: the words joined with single spaces.
    pub fn command_line(&self) -> (res: String)
        ensures
            res@ == joined(views(self.cmd@), " "@),
    {
        join_with(&self.cmd, " ")
    }
}

} // verus!
