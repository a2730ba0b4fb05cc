//! The JSON-RPC 2.0 envelope: the request that goes out and the response
//! that comes back.

use crate::codec::{parse, parsed, render, rendered};
use crate::error::Error;
use crate::json::{field, i64_of, lemma_members_of_push, opt_into_json, opt_result, present,
    u64_of, without_member, Json, JsonModel, JsonNumber, NumberModel};
use vstd::prelude::*;

verus! {

/// The error object of a response.
#[derive(Debug, PartialEq)]
pub struct JsonRpcError {
    pub code: i64,
    pub message: String,
    pub data: Option<Json>,
}

/// The model of a [`JsonRpcError`].
pub ghost struct RpcErrorModel {
    pub code: i64,
    pub message: Seq<char>,
    pub data: Option<JsonModel>,
}

impl View for JsonRpcError {
    type V = RpcErrorModel;

    open spec fn view(&self) -> RpcErrorModel {
        RpcErrorModel {
            code: self.code,
            message: self.message@,
            data: match self.data {
                Some(d) => Some(d@),
                None => None,
            },
        }
    }
}

/// A request: a correlation id, the name of the procedure and its
/// parameters. The protocol version is always `"2.0"`.
#[derive(Debug, PartialEq)]
pub struct Request {
    pub id: u64,
    pub method: String,
    pub params: Json,
}

/// The object that a request is on the wire.
pub open spec fn request_model(id: u64, method: Seq<char>, params: JsonModel) -> JsonModel {
    JsonModel::Object(
        Map::empty().insert("id"@, JsonModel::Number(NumberModel::Int(id as int))).insert(
            "jsonrpc"@,
            JsonModel::String("2.0"@),
        ).insert("method"@, JsonModel::String(method)).insert("params"@, params),
    )
}

/// What the envelope of a response holds.
#[derive(Debug, PartialEq)]
pub enum ResponseData {
    Error { error: JsonRpcError },
    Success { result: Json },
}

impl View for ResponseData {
    type V = Result<JsonModel, RpcErrorModel>;

    open spec fn view(&self) -> Result<JsonModel, RpcErrorModel> {
        match *self {
            ResponseData::Error { error } => Err(error@),
            ResponseData::Success { result } => Ok(result@),
        }
    }
}

/// A response: the id it carries, if it carries one, and its payload.
#[derive(Debug, PartialEq)]
pub struct Response {
    pub id: Option<u64>,
    pub data: ResponseData,
}

/// The model of a [`Response`].
pub ghost struct ResponseModel {
    pub id: Option<u64>,
    pub payload: Result<JsonModel, RpcErrorModel>,
}

impl View for Response {
    type V = ResponseModel;

    open spec fn view(&self) -> ResponseModel {
        ResponseModel { id: self.id, payload: self.data@ }
    }
}

/// The error object that `v` is: an object with an integer `code` and a
/// string `message`. Its `data` is optional, and a `null` there counts as
/// none. Other members are ignored.
pub open spec fn rpc_error_of(v: JsonModel) -> Option<RpcErrorModel> {
    match v {
        JsonModel::Object(members) => match (
            i64_of(field(members, "code"@)),
            field(members, "message"@),
        ) {
            (Some(code), JsonModel::String(message)) => Some(
                RpcErrorModel {
                    code,
                    message,
                    data: if field(members, "data"@) is Null {
                        None
                    } else {
                        Some(field(members, "data"@))
                    },
                },
            ),
            _ => None,
        },
        _ => None,
    }
}

/// The response that `v` is.
///
/// It is an object. If it has an `error` that is not `null`, that must be an
/// error object, and the response carries it. Otherwise the response
/// carries the `result`, `null` if there is none. The `id` is kept if it is an
/// unsigned integer. Other members are ignored.
pub open spec fn response_of(v: JsonModel) -> Option<ResponseModel> {
    match v {
        JsonModel::Object(members) => {
            let id = u64_of(field(members, "id"@));
            if field(members, "error"@) is Null {
                Some(ResponseModel { id, payload: Ok(field(members, "result"@)) })
            } else {
                match rpc_error_of(field(members, "error"@)) {
                    Some(error) => Some(ResponseModel { id, payload: Err(error) }),
                    None => None,
                }
            }
        },
        _ => None,
    }
}

/// A response with an `error` that is not `null` is never read as a success:
/// it carries the error, or it is not a response at all.
pub proof fn lemma_error_is_never_success(v: JsonModel)
    requires
        v is Object,
        v->Object_0.contains_key("error"@),
        !(v->Object_0["error"@] is Null),
    ensures
        match response_of(v) {
            Some(response) => response.payload is Err && rpc_error_of(v->Object_0["error"@])
                == Some(response.payload->Err_0),
            None => rpc_error_of(v->Object_0["error"@]) is None,
        },
{
}

/// A response without an `error`, or with `null` there, is a success that
/// carries its `result`.
pub proof fn lemma_no_error_is_success(v: JsonModel)
    requires
        v is Object,
        field(v->Object_0, "error"@) is Null,
    ensures
        response_of(v) is Some,
        response_of(v)->0.payload == Ok::<JsonModel, RpcErrorModel>(
            field(v->Object_0, "result"@),
        ),
{
}

impl JsonRpcError {
    /// Reads an error object.
    pub fn from_json(v: &Json) -> (r: Option<JsonRpcError>)
        ensures
            match r {
                Some(e) => rpc_error_of(v@) == Some(e@),
                None => rpc_error_of(v@) is None,
            },
    {
        let members = v.as_object()?;
        let code = present(members, "code")?.as_i64()?;
        let message = present(members, "message")?.as_str()?.to_owned();
        let data = match present(members, "data") {
            Some(d) => Some(d.clone()),
            None => None,
        };
        Some(JsonRpcError { code, message, data })
    }
}

/// Whether `r` is what writing a request comes to, where the writer gave
/// `written`: the text, or the failure to serialize with the writer's
/// message.
pub open spec fn encoded_as(written: Result<Seq<char>, Seq<char>>, r: Result<String, Error>) -> bool {
    match written {
        Ok(text) => r matches Ok(body) && body@ == text,
        Err(reason) => r matches Err(Error::RequestSerdeJson(kept)) && kept@ == reason,
    }
}

impl Request {
    /// A request for `method` with `params`, under `id`.
    pub fn new(id: u64, method: &str, params: Json) -> (r: Request)
        ensures
            r.id == id,
            r.method@ == method@,
            r.params == params,
    {
        Request { id, method: method.to_owned(), params }
    }

    /// The object that goes on the wire.
    pub fn into_json(self) -> (r: Json)
        ensures
            r@ == request_model(self.id, self.method@, self.params@),
    {
        let mut members: Vec<(String, Json)> = Vec::new();
        let id = ("id".to_owned(), Json::Number(JsonNumber::PosInt(self.id)));
        let version = ("jsonrpc".to_owned(), Json::String("2.0".to_owned()));
        let method = ("method".to_owned(), Json::String(self.method));
        let params = ("params".to_owned(), self.params);
        proof {
            let m0 = members@;
            let m1 = m0.push(id);
            let m2 = m1.push(version);
            let m3 = m2.push(method);
            lemma_members_of_push(m0, id);
            lemma_members_of_push(m1, version);
            lemma_members_of_push(m2, method);
            lemma_members_of_push(m3, params);
        }
        members.push(id);
        members.push(version);
        members.push(method);
        members.push(params);
        Json::Object(members)
    }

    /// What [`Request::encode`] returns for what the writer returned: the
    /// text, or the failure to serialize with the writer's message.
    pub fn encoded(written: Result<String, String>) -> (r: Result<String, Error>)
        ensures
            r == (match written {
                Ok(text) => Ok::<String, Error>(text),
                Err(reason) => Err(Error::RequestSerdeJson(reason)),
            }),
    {
        match written {
            Ok(text) => Ok(text),
            Err(reason) => Err(Error::RequestSerdeJson(reason)),
        }
    }

    /// The text that goes on the wire: that of the request's object. Fails
    /// exactly where the writer does, with the writer's message.
    pub fn encode(self) -> (r: Result<String, Error>)
        ensures
            encoded_as(rendered(request_model(self.id, self.method@, self.params@)), r),
    {
        let object = self.into_json();
        Request::encoded(render(&object))
    }
}

impl ResponseData {
    /// The payload as a result: the error if there is one, else the result.
    pub fn into_result(self) -> (r: Result<Json, JsonRpcError>)
        ensures
            r == (match self {
                ResponseData::Error { error } => Err::<Json, JsonRpcError>(error),
                ResponseData::Success { result } => Ok(result),
            }),
    {
        match self {
            ResponseData::Error { error } => Err(error),
            ResponseData::Success { result } => Ok(result),
        }
    }
}

impl Response {
    /// Reads a response from its object.
    pub fn from_json(v: Json) -> (r: Option<Response>)
        ensures
            match r {
                Some(response) => response_of(v@) == Some(response@),
                None => response_of(v@) is None,
            },
    {
        let members = match v {
            Json::Object(members) => members,
            _ => {
                return None;
            },
        };
        let id = match present(&members, "id") {
            Some(i) => i.as_u64(),
            None => None,
        };
        let (members, error) = without_member(members, "error");
        match opt_result(opt_into_json(error)) {
            Some(e) => {
                let error = JsonRpcError::from_json(&e)?;
                Some(Response { id, data: ResponseData::Error { error } })
            },
            None => {
                proof {
                    reveal_strlit("error");
                    reveal_strlit("result");
                    assert("error"@.len() != "result"@.len());
                }
                let (_, result) = without_member(members, "result");
                Some(Response { id, data: ResponseData::Success { result: opt_into_json(result) } })
            },
        }
    }

    /// What is said of JSON that is no response.
    pub open spec fn not_a_response() -> Seq<char> {
        "the body is not a JSON-RPC response"@
    }

    /// What `text` is as a response: the response, or why it is none. Text
    /// that is no JSON fails with the parser's message, and JSON that is no
    /// response with [`Response::not_a_response`].
    pub open spec fn of_text(text: Seq<char>) -> Result<ResponseModel, Seq<char>> {
        match parsed(text) {
            Ok(v) => match response_of(v) {
                Some(response) => Ok(response),
                None => Err(Response::not_a_response()),
            },
            Err(reason) => Err(reason),
        }
    }

    /// Whether `r` is what reading the body `text` comes to: the response, or
    /// the failure to deserialize that holds the reason and the body, whole.
    pub open spec fn decoded_as(text: String, r: Result<Response, Error>) -> bool {
        match Response::of_text(text@) {
            Ok(response) => r matches Ok(read) && read@ == response,
            Err(reason) => r matches Err(Error::ResponseSerdeJson { err, text: kept }) && err@
                == reason && kept == text,
        }
    }

    /// Reads a response from the body of an HTTP response. A body that
    /// cannot be read is handed back in the error, whole, beside the reason.
    pub fn decode(text: String) -> (r: Result<Response, Error>)
        ensures
            Response::decoded_as(text, r),
    {
        match parse(text.as_str()) {
            Ok(v) => match Response::from_json(v) {
                Some(response) => Ok(response),
                None => Err(
                    Error::ResponseSerdeJson {
                        err: "the body is not a JSON-RPC response".to_owned(),
                        text,
                    },
                ),
            },
            Err(reason) => Err(Error::ResponseSerdeJson { err: reason, text }),
        }
    }
}

} // verus!
