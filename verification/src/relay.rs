//! One request and one response at a time.
//!
//! The relay does not talk to the network itself. [`Relay::begin`] says what
//! to send; whoever holds the connection sends it and reports what happened
//! as a [`Reply`]; [`Relay::finish`] turns that into the result of the call or
//! into the error that names the failure.

use crate::auth::text_of;
use crate::codec::{parsed, rendered};
use crate::error::Error;
use crate::json::{Json, JsonModel};
use crate::jsonrpc::{request_model, Request, Response, ResponseModel, RpcErrorModel};
use vstd::prelude::*;

verus! {

/// What `url::Url::parse` makes of `text`: the URL in its serialized form, or
/// the message of the error that it reports.
pub uninterp spec fn url_of(text: Seq<char>) -> Result<Seq<char>, Seq<char>>;

/// `url::Url::parse`, with the URL handed back as its serialization and an
/// error as its message, as its `Display` writes it.
#[verifier::external_body]
fn parse_url(text: &str) -> (r: Result<String, String>)
    ensures
        match r {
            Ok(url) => url_of(text@) == Ok::<Seq<char>, Seq<char>>(url@),
            Err(reason) => url_of(text@) == Err::<Seq<char>, Seq<char>>(reason@),
        },
{
    url::Url::parse(text).map(String::from).map_err(|e| e.to_string())
}

/// The address of a server: an absolute URL in its serialized form.
#[derive(Debug, PartialEq)]
pub struct Endpoint {
    url: String,
}

impl View for Endpoint {
    type V = Seq<char>;

    closed spec fn view(&self) -> Seq<char> {
        self.url@
    }
}

impl Endpoint {
    /// What [`Endpoint::parse`] returns for what the parser returned.
    pub fn parsed(outcome: Result<String, String>) -> (r: Result<Endpoint, Error>)
        ensures
            match outcome {
                Ok(url) => r matches Ok(endpoint) && endpoint@ == url@,
                Err(reason) => r == Err::<Endpoint, Error>(Error::UrlParseError(reason)),
            },
    {
        match outcome {
            Ok(url) => Ok(Endpoint { url }),
            Err(reason) => Err(Error::UrlParseError(reason)),
        }
    }

    /// Reads an absolute URL. Fails exactly where the parser does, with the
    /// parser's message.
    pub fn parse(text: &str) -> (r: Result<Endpoint, Error>)
        ensures
            match url_of(text@) {
                Ok(url) => r matches Ok(endpoint) && endpoint@ == url,
                Err(reason) => r matches Err(Error::UrlParseError(kept)) && kept@ == reason,
            },
    {
        Endpoint::parsed(parse_url(text))
    }

    /// The URL as text.
    pub fn as_str(&self) -> (r: &str)
        ensures
            r@ == self@,
    {
        self.url.as_str()
    }
}

impl Clone for Endpoint {
    fn clone(&self) -> (r: Self)
        ensures
            r@ == self@,
    {
        Endpoint { url: self.url.clone() }
    }
}

/// What an HTTP status says of a response.
#[derive(Clone, Copy, Debug, PartialEq, Eq, Structural)]
pub enum StatusClass {
    /// 200 to 299: the body holds the response.
    Success,
    /// 400 to 499: the request was refused.
    ClientError,
    /// Anything else: the server failed.
    ServerError,
}

/// The class of a status.
pub open spec fn status_class(status: u16) -> StatusClass {
    if 200 <= status <= 299 {
        StatusClass::Success
    } else if 400 <= status <= 499 {
        StatusClass::ClientError
    } else {
        StatusClass::ServerError
    }
}

/// The class of a status.
pub fn classify_status(status: u16) -> (r: StatusClass)
    ensures
        r == status_class(status),
{
    if 200 <= status && status <= 299 {
        StatusClass::Success
    } else if 400 <= status && status <= 499 {
        StatusClass::ClientError
    } else {
        StatusClass::ServerError
    }
}

/// The name and password for HTTP basic authentication: both, where both
/// are configured, and none where either is missing.
pub open spec fn basic_auth_of(user: Option<Seq<char>>, pass: Option<Seq<char>>) -> Option<
    (Seq<char>, Seq<char>),
> {
    match (user, pass) {
        (Some(u), Some(p)) => Some((u, p)),
        _ => None,
    }
}

/// What is to be sent: an HTTP POST of `body` to `url`, with basic
/// authentication where `auth` holds a name and a password.
#[derive(Debug, PartialEq)]
pub struct Outgoing {
    pub id: u64,
    pub url: String,
    pub auth: Option<(String, String)>,
    pub body: String,
}

/// What came of sending.
#[derive(Debug, PartialEq)]
pub enum Reply {
    /// No response was obtained. Holds the transport's message.
    Failed { reason: String },
    /// A response with this status was obtained. `body` holds its body, or
    /// the transport's message where the body could not be read.
    Received { status: u16, body: Result<String, String> },
}

/// What a call returns for a reply.
///
/// A failure of the transport is handed on. A status outside 200 to 299
/// makes a client error (400 to 499) or a server error (all others), each
/// holding the body. The body of a success must be a response; it gives the
/// result or the error that it carries. A body that is no response makes a
/// failure to deserialize, which holds the reason beside the body.
pub open spec fn finished(reply: Reply, r: Result<Json, Error>) -> bool {
    match reply {
        Reply::Failed { reason } => r == Err::<Json, Error>(Error::RequestError(reason)),
        Reply::Received { status, body: Err(reason) } => r == Err::<Json, Error>(
            Error::RequestError(reason),
        ),
        Reply::Received { status, body: Ok(text) } => match status_class(status) {
            StatusClass::ClientError => r == Err::<Json, Error>(Error::ClientError { text }),
            StatusClass::ServerError => r == Err::<Json, Error>(Error::ServerError { text }),
            StatusClass::Success => match Response::of_text(text@) {
                Ok(ResponseModel { id, payload: Ok(result) }) => r matches Ok(v) && v@
                    == result,
                Ok(ResponseModel { id, payload: Err(error) }) => r matches Err(
                    Error::JsonRpcError(e),
                ) && e@ == error,
                Err(reason) => r matches Err(Error::ResponseSerdeJson { err, text: kept })
                    && err@ == reason && kept == text,
            },
        },
    }
}

/// A reply with a status from 400 to 499 ends in a client error and one with
/// a status from 500 to 599 in a server error, and each error holds the body
/// as it was received.
pub proof fn lemma_error_statuses_keep_the_body(status: u16, text: String, r: Result<Json, Error>)
    requires
        finished(Reply::Received { status, body: Ok(text) }, r),
    ensures
        400 <= status <= 499 ==> r == Err::<Json, Error>(Error::ClientError { text }),
        500 <= status <= 599 ==> r == Err::<Json, Error>(Error::ServerError { text }),
{
}

/// A body that holds an object with an `error` that is not `null` never ends
/// in a result, whatever else the object holds.
pub proof fn lemma_error_body_is_no_result(status: u16, text: String, r: Result<Json, Error>)
    requires
        finished(Reply::Received { status, body: Ok(text) }, r),
        parsed(text@) matches Ok(JsonModel::Object(members)) && members.contains_key("error"@)
            && !(members["error"@] is Null),
    ensures
        r is Err,
{
}

/// A body with a status from 200 to 299 that is no JSON ends in a failure to
/// deserialize that holds the parser's message and the body, whole.
pub proof fn lemma_unreadable_body_is_kept(status: u16, text: String, r: Result<Json, Error>)
    requires
        finished(Reply::Received { status, body: Ok(text) }, r),
        200 <= status <= 299,
        parsed(text@) is Err,
    ensures
        r matches Err(Error::ResponseSerdeJson { err, text: kept }) && err@ == parsed(
            text@,
        )->Err_0 && kept == text,
{
}

/// Only a status from 200 to 299 lets a reply end in a result.
pub proof fn lemma_result_needs_success(reply: Reply, r: Result<Json, Error>)
    requires
        finished(reply, r),
        r is Ok,
    ensures
        match reply {
            Reply::Received { status, body: Ok(text) } => {
                &&& 200 <= status <= 299
                &&& Response::of_text(text@) matches Ok(response)
                &&& response.payload == Ok::<JsonModel, RpcErrorModel>(r->Ok_0@)
            },
            _ => false,
        },
{
}

/// The client side of one server: its address, the credentials, and the
/// counter from which request ids are taken.
#[derive(Debug)]
pub struct Relay {
    id: u64,
    url: Endpoint,
    user: Option<String>,
    pass: Option<String>,
}

impl Relay {
    /// The id of the last request, 0 before the first.
    pub closed spec fn last_id(&self) -> u64 {
        self.id
    }

    /// The address of the server.
    pub closed spec fn endpoint(&self) -> Seq<char> {
        self.url@
    }

    /// The name and password that requests carry, if they carry any.
    pub closed spec fn basic_auth(&self) -> Option<(Seq<char>, Seq<char>)> {
        basic_auth_of(text_of(self.user), text_of(self.pass))
    }

    /// Initializes a new relay client. Its first request will have id 1.
    pub fn new(url: Endpoint, user: Option<String>, pass: Option<String>) -> (r: Self)
        ensures
            r.last_id() == 0,
            r.endpoint() == url@,
            r.basic_auth() == basic_auth_of(text_of(user), text_of(pass)),
    {
        Relay { id: 0, url, user, pass }
    }

    /// The id of the last request, 0 before the first.
    pub fn id(&self) -> (r: u64)
        ensures
            r == self.last_id(),
    {
        self.id
    }

    /// Starts a request for `method` with `params`: takes the next id and
    /// says what is to be sent.
    ///
    /// The id is taken whether or not the request can be written. It cannot
    /// be written exactly where the serializer fails on it, and the error then
    /// holds the serializer's message.
    pub fn begin(&mut self, method: &str, params: Json) -> (r: Result<Outgoing, Error>)
        requires
            old(self).last_id() < u64::MAX,
        ensures
            final(self).last_id() == old(self).last_id() + 1,
            final(self).endpoint() == old(self).endpoint(),
            final(self).basic_auth() == old(self).basic_auth(),
            match r {
                Ok(out) => {
                    &&& out.id == final(self).last_id()
                    &&& out.url@ == final(self).endpoint()
                    &&& match out.auth {
                        Some((user, pass)) => final(self).basic_auth() == Some((user@, pass@)),
                        None => final(self).basic_auth() is None,
                    }
                    &&& rendered(request_model(out.id, method@, params@)) == Ok::<
                        Seq<char>,
                        Seq<char>,
                    >(out.body@)
                },
                Err(e) => e matches Error::RequestSerdeJson(reason) && rendered(
                    request_model(final(self).last_id(), method@, params@),
                ) == Err::<Seq<char>, Seq<char>>(reason@),
            },
    {
        let next_id = self.id + 1;
        self.id = next_id;
        let payload = Request::new(next_id, method, params);
        let body = payload.encode()?;
        let auth = match (&self.user, &self.pass) {
            (Some(user), Some(pass)) => Some((user.clone(), pass.clone())),
            _ => None,
        };
        Ok(Outgoing { id: next_id, url: self.url.as_str().to_owned(), auth, body })
    }

    /// Ends a request: turns what came of sending into the result of the
    /// call.
    pub fn finish(reply: Reply) -> (r: Result<Json, Error>)
        ensures
            finished(reply, r),
    {
        match reply {
            Reply::Failed { reason } => Err(Error::RequestError(reason)),
            Reply::Received { status, body: Err(reason) } => Err(Error::RequestError(reason)),
            Reply::Received { status, body: Ok(text) } => match classify_status(status) {
                StatusClass::ClientError => Err(Error::ClientError { text }),
                StatusClass::ServerError => Err(Error::ServerError { text }),
                StatusClass::Success => {
                    let response = Response::decode(text)?;
                    match response.data.into_result() {
                        Ok(result) => Ok(result),
                        Err(error) => Err(Error::JsonRpcError(error)),
                    }
                },
            },
        }
    }
}

impl Clone for Relay {
    /// A relay for the same server with the same credentials, and a counter
    /// of its own that starts again at 0.
    fn clone(&self) -> (r: Self)
        ensures
            r.last_id() == 0,
            r.endpoint() == self.endpoint(),
            r.basic_auth() == self.basic_auth(),
    {
        Relay {
            id: 0,
            url: self.url.clone(),
            user: match &self.user {
                Some(u) => Some(u.clone()),
                None => None,
            },
            pass: match &self.pass {
                Some(p) => Some(p.clone()),
                None => None,
            },
        }
    }
}

} // verus!
