//! Handshake with Solana nodes: the request and response records, the rules
//! by which one exchange is judged, and the bookkeeping of a pool of nodes.

/// Command-line arguments of the handshake client.
pub mod parser_arguments;
/// Records, client and pool for the Solana `getVersion` handshake.
pub mod solana;
