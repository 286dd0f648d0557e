//! End-to-end harness scenarios against a mock server as the handler
//! under test.

use prism_test_utils::harness::TestHarness;
use prism_test_utils::json::JsonValue;
use prism_test_utils::mock_server::{MockServer, NotFoundResponder};
use prism_test_utils::protocol::{latest_protocol_version, JsonRpcResponse};

fn obj(fields: Vec<(&str, JsonValue)>) -> JsonValue {
    JsonValue::Obj(fields.into_iter().map(|(k, v)| (k.to_string(), v)).collect())
}

fn jstr(s: &str) -> JsonValue {
    JsonValue::Str(s.to_string())
}

fn init_result_payload() -> JsonValue {
    obj(vec![
        ("protocolVersion", jstr(latest_protocol_version())),
        ("capabilities", obj(vec![])),
        (
            "serverInfo",
            obj(vec![("name", jstr("test-server")), ("version", jstr("1.0.0"))]),
        ),
    ])
}

fn server_expecting_initialize() -> MockServer<NotFoundResponder> {
    let mut server = MockServer::new();
    server.expect_request(
        "initialize",
        JsonRpcResponse::success_value(JsonValue::Int(0), init_result_payload()),
    );
    server
}

#[test]
fn test_harness_setup_and_initialize() {
    let mut harness = TestHarness::setup(server_expecting_initialize());

    let init_result = harness.initialize().unwrap();
    assert_eq!(init_result.protocol_version, latest_protocol_version());
    assert_eq!(init_result.server_info.name, "test-server");
    assert_eq!(init_result.server_info.version, "1.0.0");

    assert!(harness.is_ready());
    harness.assert_server_ready();
    harness.handler.verify().unwrap();
}

#[test]
fn test_harness_tool_call() {
    let mut server = server_expecting_initialize();
    server.expect_request(
        "tools/call",
        JsonRpcResponse::success_value(
            JsonValue::Int(0),
            obj(vec![
                (
                    "content",
                    JsonValue::Arr(vec![obj(vec![
                        ("type", jstr("text")),
                        ("text", jstr("Test result")),
                    ])]),
                ),
                ("isError", JsonValue::Bool(false)),
            ]),
        ),
    );
    let mut harness = TestHarness::setup(server);
    harness.initialize().unwrap();

    let result = harness.call_tool("test_tool", obj(vec![])).unwrap();
    assert_eq!(result.is_error, Some(false));
    assert!(!result.content.is_empty());
    harness.handler.verify().unwrap();
}

#[test]
fn test_harness_list_tools() {
    let mut server = server_expecting_initialize();
    server.expect_request(
        "tools/list",
        JsonRpcResponse::success_value(
            JsonValue::Int(0),
            obj(vec![(
                "tools",
                JsonValue::Arr(vec![
                    obj(vec![("name", jstr("tool1")), ("inputSchema", obj(vec![]))]),
                    obj(vec![("name", jstr("tool2")), ("inputSchema", obj(vec![]))]),
                ]),
            )]),
        ),
    );
    let mut harness = TestHarness::setup(server);
    harness.initialize().unwrap();

    let tools = harness.list_tools().unwrap();
    assert_eq!(tools.len(), 2);

    let tool_names: Vec<String> = tools.iter().map(|t| t.name.clone()).collect();
    assert!(tool_names.contains(&"tool1".to_string()));
    assert!(tool_names.contains(&"tool2".to_string()));
    harness.handler.verify().unwrap();
}

#[test]
fn test_harness_reset() {
    let mut harness = TestHarness::setup(server_expecting_initialize());
    harness.initialize().unwrap();
    assert!(harness.is_ready());

    harness.reset();

    assert!(!harness.is_ready());
}

#[test]
fn scenario_call_tool_before_initialize_fails_fast() {
    // A tool call before the handshake is a precondition error; the
    // harness stays uninitialized and the handler sees nothing.
    let mut harness = TestHarness::setup(MockServer::new());

    let outcome = harness.call_tool("test_tool", obj(vec![]));
    match outcome {
        Err(e) => assert_eq!(e.message(), "Server not initialized"),
        Ok(_) => panic!("call before initialize must fail"),
    }
    assert!(!harness.is_ready());
    assert_eq!(harness.handler.received_requests().len(), 0);

    assert!(harness.read_resource("file:///x").is_err());
    assert!(harness.get_prompt("greeting", obj(vec![])).is_err());
    assert!(harness.list_tools().is_err());
}

#[test]
fn scenario_initialize_without_server_info_is_a_protocol_error() {
    // The handler answers initialize with a payload missing serverInfo:
    // the decode failure surfaces as a protocol error and the harness
    // stays uninitialized.
    let mut server = MockServer::new();
    server.expect_request(
        "initialize",
        JsonRpcResponse::success_value(
            JsonValue::Int(0),
            obj(vec![
                ("protocolVersion", jstr(latest_protocol_version())),
                ("capabilities", obj(vec![])),
            ]),
        ),
    );
    let mut harness = TestHarness::setup(server);

    let outcome = harness.initialize();
    match outcome {
        Err(e) => assert!(e.is_protocol()),
        Ok(_) => panic!("initialize must fail without serverInfo"),
    }
    assert!(!harness.is_ready());
}

#[test]
fn initialize_with_error_response_stays_uninitialized() {
    // No expectation and no default: the mock server answers initialize
    // with a method-not-found error response, which carries no result.
    let mut harness = TestHarness::setup(MockServer::new());
    let outcome = harness.initialize();
    match outcome {
        Err(e) => assert!(e.is_protocol()),
        Ok(_) => panic!("initialize must fail on an error response"),
    }
    assert!(!harness.is_ready());
}

#[test]
fn read_resource_and_get_prompt_decode_their_payloads() {
    let mut server = server_expecting_initialize();
    server.expect_request(
        "resources/read",
        JsonRpcResponse::success_value(
            JsonValue::Int(0),
            obj(vec![
                ("uri", jstr("file:///example.txt")),
                ("text", jstr("File contents")),
                ("mimeType", jstr("text/plain")),
            ]),
        ),
    );
    server.expect_request(
        "prompts/get",
        JsonRpcResponse::success_value(
            JsonValue::Int(0),
            obj(vec![(
                "messages",
                JsonValue::Arr(vec![obj(vec![
                    ("role", jstr("user")),
                    (
                        "content",
                        JsonValue::Arr(vec![obj(vec![
                            ("type", jstr("text")),
                            ("text", jstr("Hello")),
                        ])]),
                    ),
                ])]),
            )]),
        ),
    );
    let mut harness = TestHarness::setup(server);
    harness.initialize().unwrap();

    match harness.read_resource("file:///example.txt").unwrap() {
        prism_test_utils::results::ResourceContents::Text { uri, text, mime_type } => {
            assert_eq!(uri, "file:///example.txt");
            assert_eq!(text, "File contents");
            assert_eq!(mime_type.as_deref(), Some("text/plain"));
        },
        other => panic!("unexpected contents: {:?}", other),
    }

    let prompt = harness.get_prompt("greeting", obj(vec![])).unwrap();
    assert_eq!(prompt.messages.len(), 1);
    assert_eq!(prompt.messages[0].role, "user");
    harness.handler.verify().unwrap();
}
