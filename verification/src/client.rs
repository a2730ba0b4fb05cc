//! A client for the JSON-RPC interface of a Bitcoin Core node or of a server
//! that speaks like one.
//!
//! The client holds the relay and decides; it does not send. A call is
//! started with [`Client::begin_call`], sent by whoever holds the connection,
//! and ended with [`Client::finish_call`].

use crate::auth::Auth;
use crate::codec::{render, rendered};
use crate::error::{CoreError, Error};
use crate::json::{field, models_of, present, u64_of, Json, JsonModel};
use crate::jsonrpc::request_model;
use crate::relay::{basic_auth_of, finished, url_of, Endpoint, Outgoing, Relay, Reply};
use vstd::prelude::*;

verus! {

/// Client implements a JSON-RPC client for the Bitcoin Core daemon or compatible APIs.
#[derive(Debug)]
pub struct Client {
    relay: Relay,
}

impl Client {
    /// The id of the last call, 0 before the first.
    pub closed spec fn last_id(&self) -> u64 {
        self.relay.last_id()
    }

    /// The address of the server.
    pub closed spec fn endpoint(&self) -> Seq<char> {
        self.relay.endpoint()
    }

    /// The name and password that calls carry, if they carry any.
    pub closed spec fn basic_auth(&self) -> Option<(Seq<char>, Seq<char>)> {
        self.relay.basic_auth()
    }

    /// Creates a client to a bitcoind JSON-RPC server.
    ///
    /// Fails for a cookie without a colon in its first line, and else for a
    /// `url` that is no absolute URL, with the parser's message.
    pub fn new(url: &str, auth: Auth) -> (r: Result<Self, Error>)
        ensures
            match (auth.credentials(), url_of(url@)) {
                (None, _) => r matches Err(e) && e == Error::BitcoinCoreRpcError(
                    CoreError::InvalidCookieFile,
                ),
                (Some(_), Err(reason)) => r matches Err(Error::UrlParseError(kept)) && kept@
                    == reason,
                (Some(credentials), Ok(address)) => {
                    &&& r matches Ok(client)
                    &&& client.endpoint() == address
                    &&& client.basic_auth() == basic_auth_of(credentials.0, credentials.1)
                    &&& client.last_id() == 0
                },
            },
    {
        let (user, pass) = auth.get_user_pass()?;
        let endpoint = Endpoint::parse(url)?;
        Ok(Client { relay: Relay::new(endpoint, user, pass) })
    }

    /// The id of the last call, 0 before the first.
    pub fn id(&self) -> (r: u64)
        ensures
            r == self.last_id(),
    {
        self.relay.id()
    }

    /// Starts the call of `cmd` with `args`: says what is to be sent. The
    /// arguments go out as the array of parameters.
    pub fn begin_call(&mut self, cmd: &str, args: Vec<Json>) -> (r: Result<Outgoing, Error>)
        requires
            old(self).last_id() < u64::MAX,
        ensures
            final(self).last_id() == old(self).last_id() + 1,
            final(self).endpoint() == old(self).endpoint(),
            final(self).basic_auth() == old(self).basic_auth(),
            match r {
                Ok(out) => {
                    &&& out.id == final(self).last_id()
                    &&& out.url@ == final(self).endpoint()
                    &&& match out.auth {
                        Some((user, pass)) => final(self).basic_auth() == Some((user@, pass@)),
                        None => final(self).basic_auth() is None,
                    }
                    &&& rendered(
                        request_model(out.id, cmd@, JsonModel::Array(models_of(args@))),
                    ) == Ok::<Seq<char>, Seq<char>>(out.body@)
                },
                Err(e) => e matches Error::RequestSerdeJson(reason) && rendered(
                    request_model(
                        final(self).last_id(),
                        cmd@,
                        JsonModel::Array(models_of(args@)),
                    ),
                ) == Err::<Seq<char>, Seq<char>>(reason@),
            },
    {
        self.relay.begin(cmd, Json::Array(args))
    }

    /// Ends a call: turns what came of sending into the result.
    pub fn finish_call(reply: Reply) -> (r: Result<Json, Error>)
        ensures
            finished(reply, r),
    {
        Relay::finish(reply)
    }
}

/// The version that the result of `getnetworkinfo` gives: its member
/// `version`, an unsigned integer.
pub open spec fn version_in(info: JsonModel) -> Option<usize> {
    match info {
        JsonModel::Object(members) => match u64_of(field(members, "version"@)) {
            Some(n) if n <= usize::MAX => Some(n as usize),
            _ => None,
        },
        _ => None,
    }
}

/// The version of the server, from the result of `getnetworkinfo`.
pub fn version_of(info: &Json) -> (r: Option<usize>)
    ensures
        r == version_in(info@),
{
    let n = present(info.as_object()?, "version")?.as_u64()?;
    if n <= usize::MAX as u64 {
        Some(n as usize)
    } else {
        None
    }
}

/// The error for an answer to `submitblock` that is not `null`. It holds the
/// answer as text, or the writer's message where the answer could not be
/// written.
pub fn returned_error(written: Result<String, String>) -> (r: Error)
    ensures
        r == Error::BitcoinCoreRpcError(
            CoreError::ReturnedError(
                match written {
                    Ok(text) => text,
                    Err(reason) => reason,
                },
            ),
        ),
{
    match written {
        Ok(text) => Error::BitcoinCoreRpcError(CoreError::ReturnedError(text)),
        Err(reason) => Error::BitcoinCoreRpcError(CoreError::ReturnedError(reason)),
    }
}

/// What `submitblock` came to. The server answers `null` for a block that it
/// accepts and gives its reason for one that it does not; the error then
/// holds the reason as the text that it is written as, or the writer's
/// message where it cannot be written.
pub fn submit_block_result(outcome: Result<Json, Error>) -> (r: Result<(), Error>)
    ensures
        match outcome {
            Ok(answer) => if answer@ is Null {
                r is Ok
            } else {
                r matches Err(Error::BitcoinCoreRpcError(CoreError::ReturnedError(reason)))
                    && reason@ == (match rendered(answer@) {
                    Ok(text) => text,
                    Err(message) => message,
                })
            },
            Err(e) => r == Err::<(), Error>(e),
        },
{
    match outcome {
        Ok(answer) => if answer.is_null() {
            Ok(())
        } else {
            Err(returned_error(render(&answer)))
        },
        Err(e) => Err(e),
    }
}

/// A decoded value, if nothing was left over after it; else the failure that
/// says that data was not consumed.
pub fn whole<T>(object: T, more: bool) -> (r: Result<T, Error>)
    ensures
        r == (if more {
            Err::<T, Error>(Error::BitcoinCoreRpcError(CoreError::TrailingData))
        } else {
            Ok(object)
        }),
{
    if more {
        Err(Error::BitcoinCoreRpcError(CoreError::TrailingData))
    } else {
        Ok(object)
    }
}

} // verus!
