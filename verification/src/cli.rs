//! Arguments shared by the commands.
use vstd::prelude::*;

verus! {

/// Which configuration file to read and which cluster context to use.
#[derive(Debug)]
pub struct ConfigFileArgs {
    pub skateconfig: String,
    pub context: Option<String>,
}

} // verus!
