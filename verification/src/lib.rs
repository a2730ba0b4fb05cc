//! The transport of a JSON-RPC client for a Bitcoin Core node, with its
//! rules proved: how a request is written and a response read, how a failure
//! is named, how optional arguments are cut down and filled in, and how
//! the results of old and new servers are brought into one shape.

pub mod args;
pub mod auth;
pub mod client;
pub mod codec;
pub mod error;
pub mod json;
pub mod jsonrpc;
pub mod relay;
pub mod softfork;
