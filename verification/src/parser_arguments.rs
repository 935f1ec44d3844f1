use vstd::prelude::*;

verus! {

/// Timeout, in milliseconds, used when the caller names none.
pub const DEFAULT_TIMEOUT: u64 = 200;

/// What the user asks for: the nodes to probe and the time allowed per node.
#[derive(Debug)]
pub struct Arguments {
    /// Addresses of the nodes, one URI each.
    pub uri_nodes: Vec<String>,
    /// Time allowed for one request, in milliseconds.
    pub timeout: u64,
}

} // verus!
