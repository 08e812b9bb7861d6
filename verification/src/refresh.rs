//! `skate refresh`: collecting the state of every node.
use vstd::prelude::*;
use crate::cli::ConfigFileArgs;

verus! {

/// What `skate refresh` is given.
#[derive(Debug)]
pub struct RefreshArgs {
    pub config: ConfigFileArgs,
    /// Print the state as JSON rather than one line per node.
    pub json: bool,
}

} // verus!
