use rpc_relay::auth::Auth;
use rpc_relay::client::{returned_error, submit_block_result, version_of, whole, Client};
use rpc_relay::codec::parse;
use rpc_relay::error::{CoreError, Error};
use rpc_relay::json::{opt_result, Json, JsonNumber};
use rpc_relay::relay::Reply;

fn num(n: u64) -> Json {
    Json::Number(JsonNumber::PosInt(n))
}

#[test]
fn a_client_starts_at_id_zero_and_sends_to_its_url() {
    let mut c = Client::new("http://127.0.0.1:18443/wallet/w", Auth::UserPass("u".into(), "p".into()))
        .unwrap();
    assert_eq!(c.id(), 0);
    let out = c.begin_call("getbalance", vec![Json::String("*".to_string()), num(6)]).unwrap();
    assert_eq!(out.id, 1);
    assert_eq!(out.url, "http://127.0.0.1:18443/wallet/w");
    assert_eq!(out.auth, Some(("u".to_string(), "p".to_string())));
    assert_eq!(
        out.body,
        "{\"id\":1,\"jsonrpc\":\"2.0\",\"method\":\"getbalance\",\"params\":[\"*\",6]}"
    );
    assert_eq!(c.id(), 1);
}

#[test]
fn a_call_without_arguments_sends_an_empty_array() {
    let mut c = Client::new("http://localhost:8332", Auth::Anonymous).unwrap();
    let out = c.begin_call("uptime", vec![]).unwrap();
    assert_eq!(out.auth, None);
    assert_eq!(out.body, "{\"id\":1,\"jsonrpc\":\"2.0\",\"method\":\"uptime\",\"params\":[]}");
}

#[test]
fn a_cookie_gives_the_credentials_of_the_client() {
    let mut c =
        Client::new("http://localhost:8332", Auth::CookieFile("__cookie__:secret\n".into())).unwrap();
    assert_eq!(
        c.begin_call("ping", vec![]).unwrap().auth,
        Some(("__cookie__".to_string(), "secret".to_string()))
    );
}

#[test]
fn a_cookie_without_a_colon_fails_before_the_url_is_read() {
    assert_eq!(
        Client::new("not a url", Auth::CookieFile("foobar".into())).err(),
        Some(Error::BitcoinCoreRpcError(CoreError::InvalidCookieFile))
    );
}

#[test]
fn a_url_that_does_not_parse_fails() {
    assert_eq!(
        Client::new("not a url", Auth::Anonymous).err(),
        Some(Error::UrlParseError("relative URL without a base".to_string()))
    );
}

#[test]
fn finish_call_gives_the_result_of_the_call() {
    assert_eq!(
        Client::finish_call(Reply::Received { status: 200, body: Ok("{\"result\":3,\"id\":1}".into()) }),
        Ok(num(3))
    );
    assert_eq!(
        Client::finish_call(Reply::Received { status: 404, body: Ok("gone".into()) }),
        Err(Error::ClientError { text: "gone".to_string() })
    );
}

#[test]
fn the_version_is_read_from_the_network_info() {
    assert_eq!(version_of(&parse("{\"version\":180100,\"subversion\":\"x\"}").unwrap()), Some(180100));
    assert_eq!(version_of(&parse("{\"version\":0}").unwrap()), Some(0));
    assert_eq!(version_of(&parse("{\"subversion\":\"x\"}").unwrap()), None);
    assert_eq!(version_of(&parse("{\"version\":\"180100\"}").unwrap()), None);
    assert_eq!(version_of(&parse("{\"version\":-1}").unwrap()), None);
    assert_eq!(version_of(&parse("{\"version\":1.5}").unwrap()), None);
    assert_eq!(version_of(&parse("{\"version\":null}").unwrap()), None);
    assert_eq!(version_of(&parse("[180100]").unwrap()), None);
}

#[test]
fn a_null_result_is_none() {
    assert_eq!(opt_result(Json::Null), None);
    assert_eq!(opt_result(num(0)), Some(num(0)));
    assert_eq!(opt_result(Json::Bool(false)), Some(Json::Bool(false)));
    assert_eq!(opt_result(Json::Array(vec![])), Some(Json::Array(vec![])));
}

#[test]
fn a_block_is_accepted_with_null_and_refused_with_a_reason() {
    assert_eq!(submit_block_result(Ok(Json::Null)), Ok(()));
    assert_eq!(
        submit_block_result(Ok(Json::String("duplicate".to_string()))),
        Err(Error::BitcoinCoreRpcError(CoreError::ReturnedError("\"duplicate\"".to_string())))
    );
    assert_eq!(
        submit_block_result(Ok(parse("{\"why\":[1,2]}").unwrap())),
        Err(Error::BitcoinCoreRpcError(CoreError::ReturnedError("{\"why\":[1,2]}".to_string())))
    );
    assert_eq!(
        submit_block_result(Err(Error::ServerError { text: "x".to_string() })),
        Err(Error::ServerError { text: "x".to_string() })
    );
}

#[test]
fn returned_error_holds_the_text_or_the_message() {
    assert_eq!(
        returned_error(Ok("\"high-hash\"".to_string())),
        Error::BitcoinCoreRpcError(CoreError::ReturnedError("\"high-hash\"".to_string()))
    );
    assert_eq!(
        returned_error(Err("cannot write".to_string())),
        Error::BitcoinCoreRpcError(CoreError::ReturnedError("cannot write".to_string()))
    );
}

#[test]
fn data_left_over_is_a_failure_of_its_own() {
    assert_eq!(whole(7u8, false), Ok(7u8));
    assert_eq!(whole(7u8, true), Err(Error::BitcoinCoreRpcError(CoreError::TrailingData)));
    assert_eq!(
        whole("block".to_string(), true),
        Err(Error::BitcoinCoreRpcError(CoreError::TrailingData))
    );
}
