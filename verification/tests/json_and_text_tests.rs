//! Tests for the JSON value model, the decoders, and the text helpers.

use prism_test_utils::json::{json_eq, str_eq, JsonValue};
use prism_test_utils::results::{
    decode_content_item, decode_initialize_result, decode_prompt_result,
    decode_resource_contents, decode_tool_result, decode_tools_list, Content,
};
use prism_test_utils::text::{str_contains, usize_to_string};

fn obj(fields: Vec<(&str, JsonValue)>) -> JsonValue {
    JsonValue::Obj(fields.into_iter().map(|(k, v)| (k.to_string(), v)).collect())
}

fn jstr(s: &str) -> JsonValue {
    JsonValue::Str(s.to_string())
}

#[test]
fn json_equality_is_structural_with_unordered_objects() {
    let a = obj(vec![
        ("x", JsonValue::Arr(vec![JsonValue::Int(1), JsonValue::Bool(true), JsonValue::Null])),
        ("y", obj(vec![("inner", jstr("v"))])),
    ]);
    let b = obj(vec![
        ("y", obj(vec![("inner", jstr("v"))])),
        ("x", JsonValue::Arr(vec![JsonValue::Int(1), JsonValue::Bool(true), JsonValue::Null])),
    ]);
    assert!(json_eq(&a, &b));
    assert!(!json_eq(&a, &obj(vec![("x", JsonValue::Null)])));
    assert!(!json_eq(&JsonValue::Int(1), &JsonValue::Bool(true)));
}

#[test]
fn json_get_reads_top_level_fields() {
    let v = obj(vec![("a", JsonValue::Int(7)), ("b", jstr("s"))]);
    assert!(matches!(v.get("a"), Some(JsonValue::Int(7))));
    assert!(v.get("missing").is_none());
    assert!(JsonValue::Int(3).get("a").is_none());
}

#[test]
fn json_clone_is_deep() {
    let v = obj(vec![("list", JsonValue::Arr(vec![jstr("one"), jstr("two")]))]);
    let copy = v.clone();
    assert!(json_eq(&v, &copy));
}

#[test]
fn string_helpers_behave_like_their_specs() {
    assert!(str_eq("same", "same"));
    assert!(!str_eq("same", "other"));

    assert!(str_contains("the calculation result is 42", "42"));
    assert!(str_contains("abc", ""));
    assert!(!str_contains("abc", "abcd"));
    assert!(!str_contains("", "a"));

    assert_eq!(usize_to_string(0), "0");
    assert_eq!(usize_to_string(7), "7");
    assert_eq!(usize_to_string(10), "10");
    assert_eq!(usize_to_string(90301), "90301");
}

#[test]
fn decode_initialize_result_accepts_the_promised_shape() {
    let good = obj(vec![
        ("protocolVersion", jstr("2026-07-28")),
        ("capabilities", obj(vec![])),
        ("serverInfo", obj(vec![("name", jstr("n")), ("version", jstr("v"))])),
    ]);
    let decoded = decode_initialize_result(&good).unwrap();
    assert_eq!(decoded.protocol_version, "2026-07-28");
    assert_eq!(decoded.server_info.name, "n");
    assert_eq!(decoded.server_info.version, "v");

    let missing_server = obj(vec![
        ("protocolVersion", jstr("2026-07-28")),
        ("capabilities", obj(vec![])),
    ]);
    assert!(decode_initialize_result(&missing_server).unwrap_err().is_protocol());

    let version_not_a_string = obj(vec![
        ("protocolVersion", JsonValue::Int(1)),
        ("capabilities", obj(vec![])),
        ("serverInfo", obj(vec![("name", jstr("n")), ("version", jstr("v"))])),
    ]);
    assert!(decode_initialize_result(&version_not_a_string).is_err());
}

#[test]
fn decode_tool_result_reads_content_and_flag() {
    let payload = obj(vec![
        (
            "content",
            JsonValue::Arr(vec![
                obj(vec![("type", jstr("text")), ("text", jstr("hi"))]),
                obj(vec![
                    ("type", jstr("image")),
                    ("data", jstr("aGk=")),
                    ("mimeType", jstr("image/png")),
                ]),
            ]),
        ),
        ("isError", JsonValue::Bool(false)),
    ]);
    let decoded = decode_tool_result(&payload).unwrap();
    assert_eq!(decoded.content.len(), 2);
    assert!(matches!(decoded.content[0], Content::Text { ref text } if text == "hi"));
    assert_eq!(decoded.is_error, Some(false));

    let bad_block = obj(vec![(
        "content",
        JsonValue::Arr(vec![obj(vec![("type", jstr("sound"))])]),
    )]);
    assert!(decode_tool_result(&bad_block).is_err());

    assert!(decode_content_item(&obj(vec![("type", jstr("text"))])).is_err());
}

#[test]
fn decode_resource_contents_prefers_text_over_blob() {
    let text = obj(vec![("uri", jstr("file:///a")), ("text", jstr("body"))]);
    assert!(matches!(
        decode_resource_contents(&text).unwrap(),
        prism_test_utils::results::ResourceContents::Text { .. }
    ));

    let blob = obj(vec![("uri", jstr("file:///a")), ("blob", jstr("aGk="))]);
    assert!(matches!(
        decode_resource_contents(&blob).unwrap(),
        prism_test_utils::results::ResourceContents::Blob { .. }
    ));

    let neither = obj(vec![("uri", jstr("file:///a"))]);
    assert!(decode_resource_contents(&neither).is_err());
}

#[test]
fn decode_prompt_result_requires_messages() {
    let payload = obj(vec![(
        "messages",
        JsonValue::Arr(vec![obj(vec![
            ("role", jstr("user")),
            (
                "content",
                JsonValue::Arr(vec![obj(vec![("type", jstr("text")), ("text", jstr("hi"))])]),
            ),
        ])]),
    )]);
    let decoded = decode_prompt_result(&payload).unwrap();
    assert_eq!(decoded.messages.len(), 1);

    assert!(decode_prompt_result(&obj(vec![])).is_err());
}

#[test]
fn decode_tools_list_requires_every_entry_to_decode() {
    let good = obj(vec![(
        "tools",
        JsonValue::Arr(vec![
            obj(vec![("name", jstr("one")), ("inputSchema", obj(vec![]))]),
            obj(vec![
                ("name", jstr("two")),
                ("description", jstr("second tool")),
                ("inputSchema", obj(vec![])),
            ]),
        ]),
    )]);
    let decoded = decode_tools_list(&good).unwrap();
    assert_eq!(decoded.len(), 2);
    assert_eq!(decoded[1].description.as_deref(), Some("second tool"));

    let bad = obj(vec![(
        "tools",
        JsonValue::Arr(vec![obj(vec![("name", jstr("no-schema"))])]),
    )]);
    assert!(decode_tools_list(&bad).is_err());
}
