/// The client of one node and the course of one exchange with it.
pub mod client;
/// The handshakes with a set of nodes and the report on each.
pub mod client_pool;
/// The JSON-RPC records exchanged with a node.
pub mod domain;
