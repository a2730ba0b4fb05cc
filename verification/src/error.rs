//! What can go wrong in a call, by where it went wrong.

use crate::jsonrpc::JsonRpcError;
use vstd::prelude::*;

verus! {

/// Failures that arise around the calls of the node's interface rather than
/// in the exchange itself.
#[derive(Debug, PartialEq)]
pub enum CoreError {
    /// The cookie file has no colon in its first line.
    InvalidCookieFile,
    /// The JSON result had an unexpected structure.
    UnexpectedStructure,
    /// The daemon returned an error string.
    ReturnedError(String),
    /// Data was left over after a value had been decoded from it.
    TrailingData,
}

/// Errors for relay requests.
#[derive(Debug, PartialEq)]
pub enum Error {
    /// The request failed before a response body was obtained. Holds the
    /// transport's message.
    RequestError(String),
    /// The server answered with an error object.
    JsonRpcError(JsonRpcError),
    /// The server refused the request (status 400 to 499). Holds the body.
    ClientError { text: String },
    /// The server failed (any other status that is not a success). Holds the
    /// body.
    ServerError { text: String },
    /// The request could not be serialized. Holds the serializer's message.
    RequestSerdeJson(String),
    /// The response could not be deserialized. Holds the reason and the
    /// body as it was received.
    ResponseSerdeJson { err: String, text: String },
    /// A failure around the node's interface.
    BitcoinCoreRpcError(CoreError),
    /// The url could not be parsed. Holds the parser's message.
    UrlParseError(String),
}

} // verus!
