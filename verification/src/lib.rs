//! Testing utilities for JSON-RPC based protocol implementations.
//!
//! This crate provides a verified mock client, mock server and test harness
//! for driving request/response scenarios against a handler under test,
//! without a live network endpoint.  Requests, responses and notifications
//! are modelled as closed tagged types over a JSON value model; every
//! operation's behaviour is stated in its contract.

use vstd::prelude::*;

pub mod assertions;
pub mod errors;
pub mod harness;
pub mod inspector;
pub mod json;
pub mod mock_client;
pub mod mock_server;
pub mod protocol;
pub mod results;
pub mod text;

use crate::json::{jstr, obj0, obj1, obj2, obj3, JsonRep, JsonValue};
use crate::mock_client::is_placeholder_id;
use crate::protocol::{
    error_message_model, jsonrpc_version, latest_protocol_version, request_model, success_model,
    JsonRpcError, JsonRpcMessage, JsonRpcNotification, JsonRpcRequest, JsonRpcResponse,
    JsonRpcResponseOrError, NotificationModel,
};

verus! {

/// A request for testing, without parameters, under the placeholder id
/// `"test-123"` that [`mock_client::MockClient::queue_request`] replaces.
pub fn mock_request(method: &str) -> (r: JsonRpcRequest)
    ensures
        r@ == request_model(JsonRep::Str("test-123"@), method@, Option::None),
        r@.wf(),
        is_placeholder_id(r@.id),
{
    JsonRpcRequest::without_params(jstr("test-123"), String::from_str(method))
}

/// A request for testing that carries parameters, under the placeholder id
/// `"test-123"`.
pub fn mock_request_with_params(method: &str, params: JsonValue) -> (r: JsonRpcRequest)
    requires
        params.wf(),
    ensures
        r@ == request_model(JsonRep::Str("test-123"@), method@, Option::Some(params@)),
        r@.wf(),
        is_placeholder_id(r@.id),
{
    match JsonRpcRequest::with_params(jstr("test-123"), String::from_str(method), params) {
        Result::Ok(r) => r,
        Result::Err(_) => JsonRpcRequest::without_params(
            jstr("test-123"),
            String::from_str(method),
        ),
    }
}

/// Succeeds exactly when the message is an error carrying the expected
/// code.
pub fn assert_error_response(response: &JsonRpcMessage, expected_code: i32) -> (r: Result<
    (),
    String,
>)
    ensures
        r is Ok <==> (response@ matches protocol::MessageModel::Error(e) && e.error.code
            == expected_code as int),
{
    match response {
        JsonRpcMessage::Error(err) => {
            if err.error.code == expected_code {
                Result::Ok(())
            } else {
                Result::Err(String::from_str("Expected error code was not matched"))
            }
        },
        _ => Result::Err(String::from_str("Expected error response")),
    }
}

/// Succeeds exactly when the message is a successful response.
pub fn assert_success_response(response: &JsonRpcMessage) -> (r: Result<(), String>)
    ensures
        r is Ok <==> response@ is Response,
{
    match response {
        JsonRpcMessage::Response(_) => Result::Ok(()),
        _ => Result::Err(String::from_str("Expected success response")),
    }
}

/// A tool-call request for testing, under the placeholder id
/// `"test-tool-123"`.
pub fn mock_tool_call(tool_name: &str, args: JsonValue) -> (r: JsonRpcRequest)
    requires
        args.wf(),
    ensures
        r@ == request_model(
            JsonRep::Str("test-tool-123"@),
            "tools/call"@,
            Option::Some(
                JsonRep::Obj(seq![("name"@, JsonRep::Str(tool_name@)), ("arguments"@, args@)]),
            ),
        ),
        r@.wf(),
        is_placeholder_id(r@.id),
{
    proof {
        reveal_strlit("name");
        reveal_strlit("arguments");
        assert("name"@.len() == 4 && "arguments"@.len() == 9);
    }
    let params = obj2("name", jstr(tool_name), "arguments", args);
    match JsonRpcRequest::with_params(
        jstr("test-tool-123"),
        String::from_str("tools/call"),
        params,
    ) {
        Result::Ok(r) => r,
        Result::Err(_) => JsonRpcRequest::without_params(
            jstr("test-tool-123"),
            String::from_str("tools/call"),
        ),
    }
}

/// A resource-read request for testing, under the placeholder id
/// `"test-resource-123"`.
pub fn mock_resource_read(uri: &str) -> (r: JsonRpcRequest)
    ensures
        r@ == request_model(
            JsonRep::Str("test-resource-123"@),
            "resources/read"@,
            Option::Some(JsonRep::Obj(seq![("uri"@, JsonRep::Str(uri@))])),
        ),
        r@.wf(),
        is_placeholder_id(r@.id),
{
    let params = obj1("uri", jstr(uri));
    match JsonRpcRequest::with_params(
        jstr("test-resource-123"),
        String::from_str("resources/read"),
        params,
    ) {
        Result::Ok(r) => r,
        Result::Err(_) => JsonRpcRequest::without_params(
            jstr("test-resource-123"),
            String::from_str("resources/read"),
        ),
    }
}

/// A prompt-get request for testing, under the placeholder id
/// `"test-prompt-123"`.
pub fn mock_prompt_get(prompt_name: &str, args: JsonValue) -> (r: JsonRpcRequest)
    requires
        args.wf(),
    ensures
        r@ == request_model(
            JsonRep::Str("test-prompt-123"@),
            "prompts/get"@,
            Option::Some(
                JsonRep::Obj(seq![("name"@, JsonRep::Str(prompt_name@)), ("arguments"@, args@)]),
            ),
        ),
        r@.wf(),
        is_placeholder_id(r@.id),
{
    proof {
        reveal_strlit("name");
        reveal_strlit("arguments");
        assert("name"@.len() == 4 && "arguments"@.len() == 9);
    }
    let params = obj2("name", jstr(prompt_name), "arguments", args);
    match JsonRpcRequest::with_params(
        jstr("test-prompt-123"),
        String::from_str("prompts/get"),
        params,
    ) {
        Result::Ok(r) => r,
        Result::Err(_) => JsonRpcRequest::without_params(
            jstr("test-prompt-123"),
            String::from_str("prompts/get"),
        ),
    }
}

/// An initialize request for testing, under the placeholder id
/// `"init-123"`.
pub fn mock_initialize(client_name: &str, client_version: &str) -> (r: JsonRpcRequest)
    ensures
        r@ == request_model(
            JsonRep::Str("init-123"@),
            "initialize"@,
            Option::Some(
                JsonRep::Obj(
                    seq![
                        ("protocolVersion"@, JsonRep::Str("2026-07-28"@)),
                        ("capabilities"@, JsonRep::Obj(Seq::empty())),
                        (
                            "clientInfo"@,
                            JsonRep::Obj(
                                seq![
                                    ("name"@, JsonRep::Str(client_name@)),
                                    ("version"@, JsonRep::Str(client_version@)),
                                ],
                            ),
                        ),
                    ],
                ),
            ),
        ),
        r@.wf(),
        is_placeholder_id(r@.id),
{
    proof {
        reveal_strlit("protocolVersion");
        reveal_strlit("capabilities");
        reveal_strlit("clientInfo");
        reveal_strlit("name");
        reveal_strlit("version");
        assert("name"@.len() == 4 && "version"@.len() == 7);
        assert("protocolVersion"@.len() == 15 && "capabilities"@.len() == 12 && "clientInfo"@.len()
            == 10);
    }
    let client_info = obj2("name", jstr(client_name), "version", jstr(client_version));
    let params = obj3(
        "protocolVersion",
        jstr(latest_protocol_version()),
        "capabilities",
        obj0(),
        "clientInfo",
        client_info,
    );
    match JsonRpcRequest::with_params(jstr("init-123"), String::from_str("initialize"), params) {
        Result::Ok(r) => r,
        Result::Err(_) => JsonRpcRequest::without_params(
            jstr("init-123"),
            String::from_str("initialize"),
        ),
    }
}

/// A notification for testing.
pub fn mock_notification(method: &str, params: JsonValue) -> (r: JsonRpcNotification)
    requires
        params.wf(),
    ensures
        r@ == (NotificationModel {
            jsonrpc: "2.0"@,
            method: method@,
            params: Option::Some(params@),
        }),
        r@.wf(),
{
    JsonRpcNotification {
        jsonrpc: String::from_str(jsonrpc_version()),
        method: String::from_str(method),
        params: Option::Some(params),
    }
}

/// A successful response for testing, under the id `"test-123"`.
pub fn mock_success(result: JsonValue) -> (r: JsonRpcResponse)
    ensures
        r@ == success_model(JsonRep::Str("test-123"@), result@),
        r@.well_formed(),
{
    JsonRpcResponse::success_value(jstr("test-123"), result)
}

/// An error message for testing, under the id `"test-123"`.
pub fn mock_error(code: i32, message: &str) -> (r: JsonRpcError)
    ensures
        r@ == error_message_model(JsonRep::Str("test-123"@), code as int, message@),
{
    JsonRpcError::new(jstr("test-123"), code, String::from_str(message))
}

/// Succeeds exactly when the response carries a result that, if it is an
/// object, holds every one of the expected fields; a response without a
/// result fails.
pub fn assert_response_contains(response: &JsonRpcResponse, expected_fields: &[&str]) -> (r:
    Result<(), String>)
    ensures
        r is Ok <==> match response.result {
            Option::Some(v) => match v@ {
                JsonRep::Obj(fs) => forall|j: int|
                    0 <= j < expected_fields@.len() ==> crate::json::field_of(
                        fs,
                        (#[trigger] expected_fields@[j])@,
                    ) is Some,
                _ => true,
            },
            Option::None => false,
        },
{
    let result = match &response.result {
        Option::Some(v) => v,
        Option::None => {
            return Result::Err(String::from_str("Response result is not an object"));
        },
    };
    if let JsonValue::Obj(_) = result {
        let mut j: usize = 0;
        while j < expected_fields.len()
            invariant
                0 <= j <= expected_fields@.len(),
                response.result matches Option::Some(v) && v == result && v@ is Obj,
                forall|k: int|
                    0 <= k < j ==> crate::json::field_of(
                        result@->Obj_0,
                        (#[trigger] expected_fields@[k])@,
                    ) is Some,
            decreases expected_fields@.len() - j,
        {
            match result.get(expected_fields[j]) {
                Option::Some(_) => {},
                Option::None => {
                    return Result::Err(
                        String::from_str("Response missing expected field: ").concat(
                            expected_fields[j],
                        ),
                    );
                },
            }
            j += 1;
        }
        Result::Ok(())
    } else {
        Result::Ok(())
    }
}

/// Wraps requests as a batch; a batch is the requests themselves.
pub fn create_batch_request(requests: Vec<JsonRpcRequest>) -> (r: crate::protocol::JsonRpcBatchRequest)
    ensures
        r == requests,
{
    requests
}

/// Wraps responses as a batch reply; a batch reply is the entries
/// themselves.
pub fn create_batch_response(responses: Vec<JsonRpcResponseOrError>) -> (r: Vec<
    JsonRpcResponseOrError,
>)
    ensures
        r == responses,
{
    responses
}

} // verus!
