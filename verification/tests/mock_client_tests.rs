//! Tests for the mock client: request building, id assignment, queueing,
//! and the self-simulation path.

use prism_test_utils::json::JsonValue;
use prism_test_utils::mock_client::MockClient;
use prism_test_utils::protocol::METHOD_NOT_FOUND;

fn obj(fields: Vec<(&str, JsonValue)>) -> JsonValue {
    JsonValue::Obj(fields.into_iter().map(|(k, v)| (k.to_string(), v)).collect())
}

#[test]
fn test_create_requests() {
    let init_req = MockClient::create_initialize_request();
    assert_eq!(init_req.method, "initialize");

    let tool_req = MockClient::create_tool_call_request(
        "calc",
        obj(vec![("x", JsonValue::Int(1))]),
    );
    assert_eq!(tool_req.method, "tools/call");

    let resource_req = MockClient::create_resource_read_request("file:///test.txt");
    assert_eq!(resource_req.method, "resources/read");
}

#[test]
fn test_queue_and_send() {
    let mut client = MockClient::new();

    client.queue_request(MockClient::create_initialize_request());
    client.queue_request(MockClient::create_list_tools_request());

    assert_eq!(client.queue_len(), 2);

    let responses = client.send_all();
    assert_eq!(responses.len(), 2);
    assert_eq!(client.responses().len(), 2);

    client.assert_all_responses_success().unwrap();
}

#[test]
fn test_custom_request() {
    let mut client = MockClient::new();

    client
        .queue_custom("custom/method", obj(vec![("param", JsonValue::Str("value".to_string()))]))
        .unwrap();

    let request = client.next_request().unwrap();
    assert_eq!(request.method, "custom/method");
    let params = request.params.unwrap();
    match params.get("param") {
        Some(JsonValue::Str(s)) => assert_eq!(s, "value"),
        other => panic!("unexpected param: {:?}", other),
    }
}

#[test]
fn test_id_generation() {
    let mut client = MockClient::new();

    let id1 = client.next_id();
    let id2 = client.next_id();
    let id3 = client.next_id();

    assert!(matches!(id1, JsonValue::Int(1)));
    assert!(matches!(id2, JsonValue::Int(2)));
    assert!(matches!(id3, JsonValue::Int(3)));
}

#[test]
fn placeholder_ids_are_replaced_in_increasing_order() {
    let mut client = MockClient::new();

    client.queue_request(MockClient::create_initialize_request());
    client.queue_request(MockClient::create_list_tools_request());
    client.queue_request(MockClient::create_list_prompts_request());

    let mut last = 0i64;
    for _ in 0..3 {
        let request = client.next_request().unwrap();
        match request.id {
            JsonValue::Int(n) => {
                assert!(n > last, "assigned ids must strictly increase");
                last = n;
            },
            other => panic!("placeholder id was not replaced: {:?}", other),
        }
    }
}

#[test]
fn non_placeholder_ids_are_kept() {
    let mut client = MockClient::new();
    let request = prism_test_utils::protocol::JsonRpcRequest::new(
        JsonValue::Str("my-own-id".to_string()),
        "custom".to_string(),
        None,
    )
    .unwrap();
    client.queue_request(request);
    let queued = client.next_request().unwrap();
    match queued.id {
        JsonValue::Str(s) => assert_eq!(s, "my-own-id"),
        other => panic!("id was replaced: {:?}", other),
    }
}

#[test]
fn send_next_answers_known_methods_and_rejects_others() {
    let mut client = MockClient::new();

    client.queue_request(MockClient::create_list_tools_request());
    let listed = client.send_next().unwrap();
    assert!(listed.error.is_none());
    match listed.result.unwrap().get("tools") {
        Some(JsonValue::Arr(items)) => assert!(items.is_empty()),
        other => panic!("unexpected tools field: {:?}", other),
    }

    client.queue_request(prism_test_utils::mock_request("something/else"));
    let rejected = client.send_next().unwrap();
    assert_eq!(rejected.error.unwrap().code, METHOD_NOT_FOUND);

    assert!(client.send_next().is_none());

    assert!(client.assert_response_success(0).is_ok());
    assert!(client.assert_response_success(1).is_err());
    assert!(client.assert_response_success(9).is_err());
    assert!(client.assert_all_responses_success().is_err());

    client.clear_responses();
    assert_eq!(client.responses().len(), 0);
}

#[test]
fn initialize_simulation_carries_server_identity() {
    let mut client = MockClient::new();
    client.queue_request(MockClient::create_initialize_request());
    let response = client.send_next().unwrap();
    let result = response.result.unwrap();
    let server_info = result.get("serverInfo").unwrap();
    match server_info.get("name") {
        Some(JsonValue::Str(s)) => assert_eq!(s, "mock-server"),
        other => panic!("unexpected server name: {:?}", other),
    }
}

#[test]
fn with_info_keeps_the_given_identity() {
    let client = MockClient::with_info("acceptance".to_string(), "9.9.9".to_string());
    assert_eq!(client.queue_len(), 0);
    assert_eq!(client.responses().len(), 0);
}
