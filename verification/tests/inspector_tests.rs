//! Tests for the inspector's client stand-in and session store.

use prism_test_utils::inspector::{
    ConnectRequest, ConnectResponse, ConnectionInfo, InspectorClient, SaveSessionRequest,
    SessionStore,
};
use prism_test_utils::json::{json_eq, JsonValue};

fn obj(fields: Vec<(&str, JsonValue)>) -> JsonValue {
    JsonValue::Obj(fields.into_iter().map(|(k, v)| (k.to_string(), v)).collect())
}

fn connection() -> ConnectionInfo {
    ConnectionInfo {
        url: "http://localhost:3000".to_string(),
        transport: "http".to_string(),
        connected: true,
        server_name: Some("Mock Server".to_string()),
        server_version: Some("0.1.0".to_string()),
    }
}

#[test]
fn inspector_client_reports_fixed_data() {
    let request = ConnectRequest {
        url: "http://localhost:3000".to_string(),
        transport: "http".to_string(),
        headers: None,
    };
    let client = InspectorClient::connect(&request.url, &request.transport).unwrap();
    assert_eq!(client.url, "http://localhost:3000");

    let info = client.get_server_info().unwrap();
    assert_eq!(info.name, "Mock Server");
    assert_eq!(info.capabilities, vec!["tools".to_string()]);

    let response = ConnectResponse {
        success: true,
        message: "Connected successfully".to_string(),
        connection_info: Some(connection()),
    };
    assert!(response.success);

    let tools = client.list_tools().unwrap();
    assert_eq!(tools.len(), 1);
    assert_eq!(tools[0].name, "example_tool");

    assert!(client.get_tool("example_tool").is_ok());
    assert!(client.get_tool("nonexistent").is_err());

    let args = obj(vec![("message", JsonValue::Str("hi".to_string()))]);
    let reply = client.invoke_tool("example_tool", args.clone()).unwrap();
    match reply.get("tool") {
        Some(JsonValue::Str(s)) => assert_eq!(s, "example_tool"),
        other => panic!("unexpected tool field: {:?}", other),
    }
    assert!(json_eq(reply.get("arguments").unwrap(), &args));
}

#[test]
fn session_store_saves_finds_and_deletes() {
    let mut store = SessionStore::new();

    let refused = store.save_session(
        "id-1".to_string(),
        1700000000000,
        SaveSessionRequest { name: "first".to_string(), description: None },
        None,
    );
    assert!(refused.is_err());
    assert_eq!(store.sessions().len(), 0);

    let index = store
        .save_session(
            "id-1".to_string(),
            1700000000000,
            SaveSessionRequest {
                name: "first".to_string(),
                description: Some("a saved run".to_string()),
            },
            Some(connection()),
        )
        .unwrap();
    assert_eq!(index, 0);

    store
        .save_session(
            "id-2".to_string(),
            1700000000001,
            SaveSessionRequest { name: "second".to_string(), description: None },
            Some(connection()),
        )
        .unwrap();

    assert_eq!(store.sessions().len(), 2);
    let found = store.get_session("id-2").unwrap();
    assert_eq!(found.name, "second");
    assert!(store.get_session("id-3").is_none());

    assert!(store.delete_session("id-1"));
    assert!(!store.delete_session("id-1"));
    assert_eq!(store.sessions().len(), 1);
    assert_eq!(store.sessions()[0].id, "id-2");
}
