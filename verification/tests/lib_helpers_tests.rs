//! Tests for the free request builders and message-level checks.

use prism_test_utils::json::JsonValue;
use prism_test_utils::protocol::{
    jsonrpc_version, latest_protocol_version, JsonRpcError, JsonRpcMessage, JsonRpcResponse,
};
use prism_test_utils::{
    assert_error_response, assert_response_contains, assert_success_response, mock_error,
    mock_initialize, mock_notification, mock_request, mock_request_with_params, mock_success,
    mock_tool_call,
};

fn obj(fields: Vec<(&str, JsonValue)>) -> JsonValue {
    JsonValue::Obj(fields.into_iter().map(|(k, v)| (k.to_string(), v)).collect())
}

#[test]
fn test_mock_request() {
    let request = mock_request("test_method");
    assert_eq!(request.method, "test_method");
    assert_eq!(request.jsonrpc, jsonrpc_version());
}

#[test]
fn test_mock_request_with_params() {
    let request = mock_request_with_params(
        "test",
        obj(vec![("key", JsonValue::Str("value".to_string()))]),
    );
    assert_eq!(request.method, "test");
    assert!(request.params.is_some());
}

#[test]
fn test_assert_error_response() {
    let error = JsonRpcMessage::Error(JsonRpcError::parse_error(JsonValue::Int(1)));
    assert_error_response(&error, -32700).unwrap();
}

#[test]
#[should_panic(expected = "Expected error response")]
fn test_assert_error_response_panic() {
    let response = JsonRpcMessage::Response(JsonRpcResponse::success_unchecked(
        JsonValue::Str("1".to_string()),
        obj(vec![]),
    ));
    assert_error_response(&response, -32700).unwrap();
}

#[test]
fn test_mock_tool_call() {
    let request = mock_tool_call("calc", obj(vec![("x", JsonValue::Int(1))]));
    assert_eq!(request.method, "tools/call");
    let params = request.params.unwrap();
    match params.get("name") {
        Some(JsonValue::Str(s)) => assert_eq!(s, "calc"),
        other => panic!("unexpected name field: {:?}", other),
    }
}

#[test]
fn test_mock_initialize() {
    let request = mock_initialize("client", "1.0.0");
    assert_eq!(request.method, "initialize");
    let params = request.params.unwrap();
    match params.get("protocolVersion") {
        Some(JsonValue::Str(s)) => assert_eq!(s, latest_protocol_version()),
        other => panic!("unexpected protocolVersion: {:?}", other),
    }
}

#[test]
fn test_assert_response_contains() {
    let response = mock_success(obj(vec![
        ("field1", JsonValue::Str("value1".to_string())),
        ("field2", JsonValue::Str("value2".to_string())),
    ]));
    assert_response_contains(&response, &["field1", "field2"]).unwrap();
}

#[test]
#[should_panic(expected = "Response missing expected field")]
fn test_assert_response_contains_missing() {
    let response = mock_success(obj(vec![("field1", JsonValue::Str("value1".to_string()))]));
    assert_response_contains(&response, &["field1", "field2"]).unwrap();
}

#[test]
fn mock_success_and_error_carry_the_placeholder_id() {
    let response = mock_success(obj(vec![]));
    assert!(matches!(response.id, Some(JsonValue::Str(ref s)) if s == "test-123"));
    assert!(response.result.is_some() && response.error.is_none());
    assert!(response.well_formed());
    assert_success_response(&JsonRpcMessage::Response(response)).unwrap();

    let error = mock_error(-32601, "Method not found");
    assert!(matches!(error.id, JsonValue::Str(ref s) if s == "test-123"));
    assert_eq!(error.error.code, -32601);
    assert_eq!(error.error.message, "Method not found");
}

#[test]
fn mock_notification_has_no_id() {
    let notification = mock_notification("initialized", obj(vec![]));
    assert_eq!(notification.method, "initialized");
    assert!(notification.params.is_some());
}

#[test]
fn batches_preserve_their_entries() {
    let batch = prism_test_utils::create_batch_request(vec![
        mock_request("tools/list"),
        mock_request("resources/list"),
    ]);
    assert_eq!(batch.len(), 2);

    let replies = prism_test_utils::create_batch_response(vec![
        prism_test_utils::protocol::JsonRpcResponseOrError::Response(mock_success(obj(vec![]))),
    ]);
    assert_eq!(replies.len(), 1);
}
