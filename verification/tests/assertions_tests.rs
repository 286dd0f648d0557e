//! Tests for the assertion helpers over typed results.

use prism_test_utils::assertions::{
    assert_error_code, assert_error_message_contains, assert_json_eq, assert_matches_schema,
    assert_prompt_valid, assert_resource_valid, assert_response_error, assert_response_success,
    assert_tool_content_contains, assert_tool_error, assert_tool_success,
};
use prism_test_utils::json::JsonValue;
use prism_test_utils::protocol::JsonRpcError;
use prism_test_utils::results::{
    Content, PromptMessage, PromptResult, ResourceContents, ToolResult,
};

fn obj(fields: Vec<(&str, JsonValue)>) -> JsonValue {
    JsonValue::Obj(fields.into_iter().map(|(k, v)| (k.to_string(), v)).collect())
}

#[test]
fn test_assert_tool_success() {
    let result = ToolResult {
        content: vec![Content::Text { text: "Success".to_string() }],
        is_error: Some(false),
    };
    assert_tool_success(&result).unwrap();
}

#[test]
#[should_panic(expected = "Tool result indicates error")]
fn test_assert_tool_success_fails_on_error() {
    let result = ToolResult {
        content: vec![Content::Text { text: "Error".to_string() }],
        is_error: Some(true),
    };
    assert_tool_success(&result).unwrap();
}

#[test]
fn test_assert_error_code() {
    let error = JsonRpcError::method_not_found(JsonValue::Int(1));
    assert_error_code(&error, -32601).unwrap();
}

#[test]
fn test_assert_json_eq() {
    let value1 = obj(vec![("a", JsonValue::Int(1)), ("b", JsonValue::Int(2))]);
    let value2 = obj(vec![("b", JsonValue::Int(2)), ("a", JsonValue::Int(1))]);
    assert_json_eq(&value1, &value2).unwrap();
}

#[test]
fn json_eq_rejects_different_values() {
    let value1 = obj(vec![("a", JsonValue::Int(1))]);
    let value2 = obj(vec![("a", JsonValue::Int(2))]);
    assert!(assert_json_eq(&value1, &value2).is_err());

    let arr1 = JsonValue::Arr(vec![JsonValue::Int(1), JsonValue::Int(2)]);
    let arr2 = JsonValue::Arr(vec![JsonValue::Int(2), JsonValue::Int(1)]);
    assert!(assert_json_eq(&arr1, &arr2).is_err(), "arrays stay ordered");
}

#[test]
fn tool_error_and_content_checks() {
    let result = ToolResult {
        content: vec![
            Content::Text { text: "The calculation".to_string() },
            Content::Image { data: "aGk=".to_string(), mime_type: "image/png".to_string() },
            Content::Text { text: "result is 42".to_string() },
        ],
        is_error: Some(false),
    };
    assert!(assert_tool_error(&result).is_err());
    assert_tool_content_contains(&result, "42").unwrap();
    // The text blocks are joined with single spaces, skipping images.
    assert_tool_content_contains(&result, "calculation result").unwrap();
    assert!(assert_tool_content_contains(&result, "absent words").is_err());

    let failing = ToolResult { content: vec![], is_error: Some(true) };
    assert_tool_error(&failing).unwrap();
    assert!(assert_tool_success(&failing).is_err());
}

#[test]
fn resource_and_prompt_checks() {
    let contents = ResourceContents::Text {
        uri: "file:///example.txt".to_string(),
        text: "File contents".to_string(),
        mime_type: Some("text/plain".to_string()),
    };
    assert_resource_valid(&contents).unwrap();

    let empty = ResourceContents::Blob {
        uri: "file:///x".to_string(),
        blob: "".to_string(),
        mime_type: None,
    };
    assert!(assert_resource_valid(&empty).is_err());

    let prompt = PromptResult {
        messages: vec![PromptMessage {
            role: "user".to_string(),
            content: vec![Content::Text { text: "Hello".to_string() }],
        }],
        description: None,
    };
    assert_prompt_valid(&prompt).unwrap();

    let hollow = PromptResult { messages: vec![], description: None };
    assert!(assert_prompt_valid(&hollow).is_err());
}

#[test]
fn response_checks_demand_exactly_one_outcome() {
    let ok = prism_test_utils::mock_success(obj(vec![("status", JsonValue::Str("ok".to_string()))]));
    assert_response_success(&ok).unwrap();
    assert!(assert_response_error(&ok).is_err());
}

#[test]
fn error_message_contains_finds_substrings() {
    let error = JsonRpcError::tool_not_found(JsonValue::Int(1), "calculator");
    assert_error_code(&error, -32000).unwrap();
    assert_error_message_contains(&error, "calculator").unwrap();
    assert!(assert_error_message_contains(&error, "abacus").is_err());
}

#[test]
fn schema_checks_look_at_the_top_level_type() {
    let value = obj(vec![
        ("name", JsonValue::Str("test".to_string())),
        ("age", JsonValue::Int(25)),
    ]);
    let schema = obj(vec![("type", JsonValue::Str("object".to_string()))]);
    assert_matches_schema(&value, &schema).unwrap();

    let string_schema = obj(vec![("type", JsonValue::Str("string".to_string()))]);
    assert!(assert_matches_schema(&value, &string_schema).is_err());

    let unknown = obj(vec![("type", JsonValue::Str("tuple".to_string()))]);
    assert!(assert_matches_schema(&value, &unknown).is_err());

    let silent = obj(vec![("title", JsonValue::Str("anything".to_string()))]);
    assert_matches_schema(&value, &silent).unwrap();
}
