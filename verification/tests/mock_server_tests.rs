//! Scenario tests for the mock server: expectation matching, FIFO order,
//! fallbacks, verification, and the received log.

use prism_test_utils::json::{json_eq, JsonValue};
use prism_test_utils::mock_server::{EchoMethodResponder, MockServer};
use prism_test_utils::protocol::{JsonRpcRequest, JsonRpcResponse, METHOD_NOT_FOUND};

fn obj(fields: Vec<(&str, JsonValue)>) -> JsonValue {
    JsonValue::Obj(fields.into_iter().map(|(k, v)| (k.to_string(), v)).collect())
}

fn request(id: JsonValue, method: &str) -> JsonRpcRequest {
    JsonRpcRequest::new(id, method.to_string(), None).unwrap()
}

#[test]
fn test_mock_server_basic() {
    let mut server = MockServer::new();

    server.expect_request(
        "test_method",
        JsonRpcResponse::success_value(
            JsonValue::Int(1),
            obj(vec![("result", JsonValue::Str("ok".to_string()))]),
        ),
    );

    let request = request(JsonValue::Int(1), "test_method");

    let response = server.handle(request);
    assert!(response.result.is_some());
    match response.result.unwrap().get("result") {
        Some(JsonValue::Str(s)) => assert_eq!(s, "ok"),
        other => panic!("unexpected result field: {:?}", other),
    }

    server.verify().unwrap();
}

#[test]
fn test_mock_server_unexpected_request() {
    let mut server = MockServer::new();

    let request = request(JsonValue::Int(1), "unexpected");

    let response = server.handle(request);
    assert!(response.error.is_some());
    assert_eq!(response.error.unwrap().code, -32601);
}

#[test]
fn test_mock_server_multiple_expectations() {
    let mut server = MockServer::new();

    server.expect_requests(
        "multi",
        vec![
            JsonRpcResponse::success_value(
                JsonValue::Int(1),
                obj(vec![("call", JsonValue::Int(1))]),
            ),
            JsonRpcResponse::success_value(
                JsonValue::Int(2),
                obj(vec![("call", JsonValue::Int(2))]),
            ),
        ],
    );

    let request1 = request(JsonValue::Int(1), "multi");
    let response1 = server.handle(request1);
    match response1.result.unwrap().get("call") {
        Some(JsonValue::Int(n)) => assert_eq!(*n, 1),
        other => panic!("unexpected call field: {:?}", other),
    }

    let request2 = request(JsonValue::Int(2), "multi");
    let response2 = server.handle(request2);
    match response2.result.unwrap().get("call") {
        Some(JsonValue::Int(n)) => assert_eq!(*n, 2),
        other => panic!("unexpected call field: {:?}", other),
    }

    server.verify().unwrap();

    // A third call falls through: no default is installed, so the server
    // synthesizes a method-not-found error.
    let request3 = request(JsonValue::Int(3), "multi");
    let response3 = server.handle(request3);
    assert_eq!(response3.error.unwrap().code, METHOD_NOT_FOUND);
}

#[test]
fn test_mock_server_with_default() {
    let mut server = MockServer::new().with_default_response(EchoMethodResponder);

    let request = request(JsonValue::Int(1), "any_method");

    let response = server.handle(request);
    assert!(response.result.is_some());
    match response.result.unwrap().get("method") {
        Some(JsonValue::Str(s)) => assert_eq!(s, "any_method"),
        other => panic!("unexpected method field: {:?}", other),
    }
}

#[test]
fn test_verify_unmet_expectations() {
    let mut server = MockServer::new();
    server.expect_request(
        "never_called",
        JsonRpcResponse::success_value(JsonValue::Int(1), obj(vec![])),
    );

    let result = server.verify();
    assert!(result.is_err());
    assert!(result.unwrap_err().message().contains("never_called"));
}

#[test]
fn verify_reports_name_and_count() {
    let mut server = MockServer::new();
    server.expect_requests(
        "alpha",
        vec![
            JsonRpcResponse::success_value(JsonValue::Int(1), obj(vec![])),
            JsonRpcResponse::success_value(JsonValue::Int(2), obj(vec![])),
        ],
    );
    server.expect_request(
        "beta",
        JsonRpcResponse::success_value(JsonValue::Int(3), obj(vec![])),
    );

    // Drain beta only; alpha keeps both responses.
    let _ = server.handle(request(JsonValue::Int(9), "beta"));

    let err = server.verify().unwrap_err();
    assert_eq!(err.unmet.len(), 1);
    assert_eq!(err.unmet[0].0, "alpha");
    assert_eq!(err.unmet[0].1, 2);
    assert_eq!(
        err.message(),
        "Unmet expectations for methods: alpha (2 remaining)"
    );
}

#[test]
fn scenario_expect_tools_list_once() {
    // Expect "tools/list" once with {tools: []}; a tools/list request under
    // id 7 receives that result under id 7, and verify succeeds.
    let mut server = MockServer::new();
    server.expect_request(
        "tools/list",
        JsonRpcResponse::success_value(
            JsonValue::Int(99),
            obj(vec![("tools", JsonValue::Arr(vec![]))]),
        ),
    );

    let response = server.handle(request(JsonValue::Int(7), "tools/list"));
    match response.id {
        Some(JsonValue::Int(n)) => assert_eq!(n, 7),
        other => panic!("unexpected id: {:?}", other),
    }
    let result = response.result.unwrap();
    match result.get("tools") {
        Some(JsonValue::Arr(items)) => assert!(items.is_empty()),
        other => panic!("unexpected tools field: {:?}", other),
    }
    assert!(response.error.is_none());

    server.verify().unwrap();
}

#[test]
fn scenario_unexpected_method_gets_not_found() {
    // No expectations, no default: method "unexpected" under id 1 receives
    // error code -32601 under id 1.
    let mut server = MockServer::new();
    let response = server.handle(request(JsonValue::Int(1), "unexpected"));
    match response.id {
        Some(JsonValue::Int(n)) => assert_eq!(n, 1),
        other => panic!("unexpected id: {:?}", other),
    }
    let error = response.error.unwrap();
    assert_eq!(error.code, -32601);
    assert_eq!(error.message, "Unexpected method: unexpected");
}

#[test]
fn response_id_matches_request_regardless_of_stored_id() {
    let mut server = MockServer::new();
    server.expect_request(
        "echo",
        JsonRpcResponse::success_value(
            JsonValue::Str("stored-id".to_string()),
            obj(vec![]),
        ),
    );
    let response = server.handle(request(JsonValue::Str("real-id".to_string()), "echo"));
    match response.id {
        Some(JsonValue::Str(s)) => assert_eq!(s, "real-id"),
        other => panic!("unexpected id: {:?}", other),
    }
}

#[test]
fn distinct_methods_never_interfere() {
    let mut server = MockServer::new();
    server.expect_request(
        "a",
        JsonRpcResponse::success_value(JsonValue::Int(1), obj(vec![("from", JsonValue::Str("a".to_string()))])),
    );
    server.expect_request(
        "b",
        JsonRpcResponse::success_value(JsonValue::Int(2), obj(vec![("from", JsonValue::Str("b".to_string()))])),
    );

    let rb = server.handle(request(JsonValue::Int(5), "b"));
    match rb.result.unwrap().get("from") {
        Some(JsonValue::Str(s)) => assert_eq!(s, "b"),
        other => panic!("unexpected from field: {:?}", other),
    }
    let ra = server.handle(request(JsonValue::Int(6), "a"));
    match ra.result.unwrap().get("from") {
        Some(JsonValue::Str(s)) => assert_eq!(s, "a"),
        other => panic!("unexpected from field: {:?}", other),
    }
    server.verify().unwrap();
}

#[test]
fn reset_then_replay_gives_identical_outcome() {
    // Run a scenario, reset, run the exact same scenario again: the
    // responses and the received log must be identical.
    let mut server = MockServer::new();

    let run = |server: &mut MockServer<prism_test_utils::mock_server::NotFoundResponder>| {
        server.expect_request(
            "ping",
            JsonRpcResponse::success_value(JsonValue::Int(0), obj(vec![("pong", JsonValue::Bool(true))])),
        );
        let r1 = server.handle(request(JsonValue::Int(41), "ping"));
        let r2 = server.handle(request(JsonValue::Int(42), "missing"));
        (r1, r2)
    };

    let (a1, a2) = run(&mut server);
    let first_log: Vec<String> = server
        .received_requests()
        .iter()
        .map(|r| r.method.clone())
        .collect();

    server.reset();

    let (b1, b2) = run(&mut server);
    let second_log: Vec<String> = server
        .received_requests()
        .iter()
        .map(|r| r.method.clone())
        .collect();

    assert_eq!(format!("{:?}", a1), format!("{:?}", b1));
    assert_eq!(format!("{:?}", a2), format!("{:?}", b2));
    assert_eq!(first_log, second_log);
}

#[test]
fn notifications_are_logged_without_ids() {
    let mut server = MockServer::new();
    server.handle_notification(prism_test_utils::mock_notification(
        "notifications/initialized",
        obj(vec![]),
    ));
    let log = server.received_requests();
    assert_eq!(log.len(), 1);
    assert_eq!(log[0].method, "notifications/initialized");
    assert!(matches!(log[0].id, JsonValue::Null));

    assert_eq!(server.request_count("notifications/initialized"), 1);
    assert!(server.assert_request_received("notifications/initialized").is_ok());
    assert!(server.assert_request_received("never-sent").is_err());
}

#[test]
fn received_params_are_matched_by_value() {
    let mut server = MockServer::new();
    let params = obj(vec![("x", JsonValue::Int(1)), ("y", JsonValue::Int(2))]);
    let req = JsonRpcRequest::with_params(JsonValue::Int(1), "compute".to_string(), params)
        .unwrap();
    let _ = server.handle(req);

    // Field order is irrelevant: objects compare as maps.
    let same_other_order = obj(vec![("y", JsonValue::Int(2)), ("x", JsonValue::Int(1))]);
    assert!(server.assert_request_with_params("compute", same_other_order).is_ok());

    let different = obj(vec![("x", JsonValue::Int(1)), ("y", JsonValue::Int(3))]);
    assert!(server.assert_request_with_params("compute", different).is_err());
}

#[test]
fn queue_falls_back_to_default_after_drained() {
    let mut server = MockServer::new().with_default_response(EchoMethodResponder);
    server.expect_request(
        "multi",
        JsonRpcResponse::success_value(JsonValue::Int(0), obj(vec![("call", JsonValue::Int(1))])),
    );

    let first = server.handle(request(JsonValue::Int(1), "multi"));
    assert!(json_eq(
        first.result.as_ref().unwrap(),
        &obj(vec![("call", JsonValue::Int(1))])
    ));

    // The queue is drained: the default responder answers now.
    let second = server.handle(request(JsonValue::Int(2), "multi"));
    match second.result.unwrap().get("method") {
        Some(JsonValue::Str(s)) => assert_eq!(s, "multi"),
        other => panic!("unexpected method field: {:?}", other),
    }
}
