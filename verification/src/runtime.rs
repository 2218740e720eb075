//! The core-facing pieces of the runtime layer: its error kinds and the
//! provider value that names a node. Transaction construction, signing and
//! broadcast live outside the core.

use vstd::prelude::*;
use vstd::string::StringExecFns;

verus! {

/// A failure of the runtime layer around the core.
#[derive(Clone, Debug)]
pub enum RuntimeError {
    /// The node could not be reached or answered badly.
    Network(String),
    /// A script could not be built or embedded.
    Script(String),
    /// The wallet refused to sign.
    Wallet(String),
}

/// Names the node that deployments and calls talk to.
#[derive(Clone, Debug)]
pub struct Provider {
    /// The node's address.
    pub url: String,
}

impl Provider {
    /// Remembers the node address later operations talk to.
    pub fn new(node: &str) -> (r: Provider)
        ensures
            r.url@ == node@,
    {
        Provider { url: String::from_str(node) }
    }
}

} // verus!
