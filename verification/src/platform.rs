//! What a node runs on: its architecture and its Linux distribution.
use vstd::prelude::*;

verus! {

/// A Linux distribution that a node may run.
#[derive(Debug, Clone, Copy, PartialEq, Eq, Structural)]
pub enum Distribution {
    Unknown,
    Debian,
    Raspbian,
    Ubuntu,
    Fedora,
    FedoraCoreOs,
}

/// A node's machine architecture and distribution.
#[derive(Debug)]
pub struct Platform {
    pub arch: String,
    pub distribution: Distribution,
}

} // verus!
