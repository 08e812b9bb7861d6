//! `skate cordon` and `skate uncordon`: keeping new work off a node, and letting it back.
use vstd::prelude::*;
use crate::cli::ConfigFileArgs;
use crate::text::owned;

verus! {

/// What `skate cordon` is given.
#[derive(Debug)]
pub struct CordonArgs {
    pub config: ConfigFileArgs,
    /// The node to cordon.
    pub node: String,
}

/// What `skate uncordon` is given.
#[derive(Debug)]
pub struct UncordonArgs {
    pub config: ConfigFileArgs,
    /// The node to uncordon.
    pub node: String,
}

/// The command run on the node to cordon it (`cordon`) or to uncordon it.
pub fn cordon_command(cordon: bool) -> (res: String)
    ensures
        res@ == (if cordon { "sudo skatelet cordon"@ } else { "sudo skatelet uncordon"@ }),
{
    if cordon {
        owned("sudo skatelet cordon")
    } else {
        owned("sudo skatelet uncordon")
    }
}

} // verus!
