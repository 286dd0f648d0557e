//! Assertion helpers over typed results and protocol messages.
//!
//! Each check returns `Ok(())` exactly when the asserted condition holds
//! and an explanatory message otherwise, so a test can `unwrap()` it.

use vstd::prelude::*;

use crate::json::{equiv, field_of, json_eq, JsonRep, JsonValue};
use crate::protocol::{JsonRpcError, JsonRpcResponse};
use crate::results::{
    Content, ContentModel, PromptResult, ResourceContents, ToolResult,
};
use crate::text::{is_substr, str_contains};

verus! {

/// Succeeds exactly when the tool result reports success and carries
/// content.
pub fn assert_tool_success(result: &ToolResult) -> (r: Result<(), String>)
    ensures
        r is Ok <==> result@.is_error == Option::Some(false) && result@.content.len() > 0,
{
    match result.is_error {
        Option::Some(false) => {},
        _ => {
            return Result::Err(String::from_str("Tool result indicates error"));
        },
    }
    if result.content.len() == 0 {
        return Result::Err(String::from_str("Tool result has no content"));
    }
    Result::Ok(())
}

/// Succeeds exactly when the tool result reports an error.
pub fn assert_tool_error(result: &ToolResult) -> (r: Result<(), String>)
    ensures
        r is Ok <==> result@.is_error == Option::Some(true),
{
    match result.is_error {
        Option::Some(true) => Result::Ok(()),
        _ => Result::Err(String::from_str("Tool result does not indicate error")),
    }
}

/// The text blocks of a content sequence, in order.
pub open spec fn texts_of(s: Seq<ContentModel>) -> Seq<Seq<char>>
    decreases s,
{
    if s.len() == 0 {
        Seq::empty()
    } else {
        let head = texts_of(s.subrange(0, s.len() - 1));
        match s[s.len() - 1] {
            ContentModel::Text(t) => head.push(t),
            _ => head,
        }
    }
}

/// The pieces joined with single spaces.
pub open spec fn joined_with_spaces(ts: Seq<Seq<char>>) -> Seq<char>
    decreases ts,
{
    if ts.len() == 0 {
        Seq::empty()
    } else if ts.len() == 1 {
        ts[0]
    } else {
        joined_with_spaces(ts.subrange(0, ts.len() - 1)) + " "@ + ts[ts.len() - 1]
    }
}

/// Succeeds exactly when `expected` occurs inside the result's text
/// blocks, joined with single spaces.
pub fn assert_tool_content_contains(result: &ToolResult, expected: &str) -> (r: Result<
    (),
    String,
>)
    ensures
        r is Ok <==> is_substr(joined_with_spaces(texts_of(result@.content)), expected@),
{
    let mut joined = String::new();
    let mut any = false;
    let mut i: usize = 0;
    while i < result.content.len()
        invariant
            0 <= i <= result.content@.len(),
            result@.content.len() == result.content@.len(),
            forall|j: int|
                0 <= j < result.content@.len() ==> #[trigger] result@.content[j]
                    == result.content@[j]@,
            any == (texts_of(result@.content.subrange(0, i as int)).len() > 0),
            joined@ == joined_with_spaces(texts_of(result@.content.subrange(0, i as int))),
        decreases result.content@.len() - i,
    {
        let ghost prefix = texts_of(result@.content.subrange(0, i as int));
        proof {
            let p1 = result@.content.subrange(0, i as int + 1);
            assert(p1.subrange(0, p1.len() - 1) =~= result@.content.subrange(0, i as int));
            assert(p1[p1.len() - 1] == result@.content[i as int]);
        }
        match &result.content[i] {
            Content::Text { text } => {
                if any {
                    joined.append(" ");
                    joined.append(text.as_str());
                    proof {
                        assert(texts_of(result@.content.subrange(0, i as int + 1)) =~= prefix.push(
                            text@,
                        ));
                        assert(prefix.push(text@).subrange(0, prefix.len() as int) =~= prefix);
                        assert(joined@ =~= joined_with_spaces(prefix.push(text@)));
                    }
                } else {
                    joined.append(text.as_str());
                    any = true;
                    proof {
                        assert(texts_of(result@.content.subrange(0, i as int + 1)) =~= prefix.push(
                            text@,
                        ));
                        assert(joined@ =~= joined_with_spaces(prefix.push(text@)));
                    }
                }
            },
            Content::Image { data, mime_type } => {
                proof {
                    assert(texts_of(result@.content.subrange(0, i as int + 1)) =~= prefix);
                }
            },
        }
        i += 1;
    }
    proof {
        assert(result@.content.subrange(0, result@.content.len() as int) =~= result@.content);
    }
    if str_contains(joined.as_str(), expected) {
        Result::Ok(())
    } else {
        Result::Err(
            String::from_str("Expected content '").concat(expected).concat(
                "' not found in: ",
            ).concat(joined.as_str()),
        )
    }
}

/// Succeeds exactly when the resource has a non-empty uri and non-empty
/// contents.
pub fn assert_resource_valid(contents: &ResourceContents) -> (r: Result<(), String>)
    ensures
        r is Ok <==> match contents@ {
            crate::results::ResourceContentsModel::Text { uri, text, .. } => uri.len() > 0
                && text.len() > 0,
            crate::results::ResourceContentsModel::Blob { uri, blob, .. } => uri.len() > 0
                && blob.len() > 0,
        },
{
    match contents {
        ResourceContents::Text { uri, text, mime_type } => {
            if uri.as_str().unicode_len() == 0 {
                return Result::Err(String::from_str("Resource URI is empty"));
            }
            if text.as_str().unicode_len() == 0 {
                return Result::Err(String::from_str("Text resource is empty"));
            }
            Result::Ok(())
        },
        ResourceContents::Blob { uri, blob, mime_type } => {
            if uri.as_str().unicode_len() == 0 {
                return Result::Err(String::from_str("Resource URI is empty"));
            }
            if blob.as_str().unicode_len() == 0 {
                return Result::Err(String::from_str("Blob resource is empty"));
            }
            Result::Ok(())
        },
    }
}

/// Succeeds exactly when the prompt has at least one message and every
/// message carries a role and content.
pub fn assert_prompt_valid(result: &PromptResult) -> (r: Result<(), String>)
    ensures
        r is Ok <==> result@.messages.len() > 0 && (forall|i: int|
            0 <= i < result@.messages.len() ==> (#[trigger] result@.messages[i]).role.len() > 0
                && result@.messages[i].content.len() > 0),
{
    if result.messages.len() == 0 {
        return Result::Err(String::from_str("Prompt has no messages"));
    }
    let mut i: usize = 0;
    while i < result.messages.len()
        invariant
            0 <= i <= result.messages@.len(),
            result@.messages.len() == result.messages@.len(),
            forall|j: int|
                0 <= j < result.messages@.len() ==> #[trigger] result@.messages[j]
                    == result.messages@[j]@,
            forall|j: int|
                0 <= j < i ==> (#[trigger] result@.messages[j]).role.len() > 0
                    && result@.messages[j].content.len() > 0,
        decreases result.messages@.len() - i,
    {
        if result.messages[i].role.as_str().unicode_len() == 0 {
            proof {
                assert((#[trigger] result@.messages[i as int]).role.len() == 0);
            }
            return Result::Err(String::from_str("Message has no role"));
        }
        if result.messages[i].content.len() == 0 {
            proof {
                assert((#[trigger] result@.messages[i as int]).content.len() == 0);
            }
            return Result::Err(String::from_str("Message has no content"));
        }
        i += 1;
    }
    Result::Ok(())
}

/// Succeeds exactly when the response carries a result and no error.
pub fn assert_response_success(response: &JsonRpcResponse) -> (r: Result<(), String>)
    ensures
        r is Ok <==> response@.result is Some && response@.error is None,
{
    if response.result.is_none() {
        return Result::Err(String::from_str("Response has no result"));
    }
    if response.error.is_some() {
        return Result::Err(String::from_str("Response has error"));
    }
    Result::Ok(())
}

/// Succeeds exactly when the response carries an error.
pub fn assert_response_error(response: &JsonRpcResponse) -> (r: Result<(), String>)
    ensures
        r is Ok <==> response@.error is Some,
{
    if response.error.is_some() {
        Result::Ok(())
    } else {
        Result::Err(String::from_str("Response has no error"))
    }
}

/// Succeeds exactly when the error message carries the expected code.
pub fn assert_error_code(error: &JsonRpcError, expected_code: i32) -> (r: Result<(), String>)
    ensures
        r is Ok <==> error@.error.code == expected_code as int,
{
    if error.error.code == expected_code {
        Result::Ok(())
    } else {
        Result::Err(String::from_str("Unexpected error code"))
    }
}

/// Succeeds exactly when `expected` occurs inside the error's message.
pub fn assert_error_message_contains(error: &JsonRpcError, expected: &str) -> (r: Result<
    (),
    String,
>)
    ensures
        r is Ok <==> is_substr(error@.error.message, expected@),
{
    if str_contains(error.error.message.as_str(), expected) {
        Result::Ok(())
    } else {
        Result::Err(
            String::from_str("Expected text '").concat(expected).concat(
                "' not found in error message",
            ),
        )
    }
}

/// Succeeds exactly when the two values are equal as JSON values, with
/// object fields compared regardless of their order.
pub fn assert_json_eq(actual: &JsonValue, expected: &JsonValue) -> (r: Result<(), String>)
    requires
        actual.wf(),
        expected.wf(),
    ensures
        r is Ok <==> equiv(actual@, expected@),
{
    if json_eq(actual, expected) {
        Result::Ok(())
    } else {
        Result::Err(String::from_str("JSON values not equal"))
    }
}

/// What a minimal schema check demands of a value: when the schema is an
/// object naming one of the known primitive types, the value must be of
/// that kind; any other schema demands nothing.
pub open spec fn schema_accepts(value: JsonRep, schema: JsonRep) -> bool {
    match schema {
        JsonRep::Obj(fs) => match field_of(fs, "type"@) {
            Option::Some(JsonRep::Str(t)) => if t == "object"@ {
                value is Obj
            } else if t == "array"@ {
                value is Arr
            } else if t == "string"@ {
                value is Str
            } else if t == "number"@ {
                value is Int
            } else if t == "boolean"@ {
                value is Bool
            } else if t == "null"@ {
                value is Null
            } else {
                false
            },
            _ => true,
        },
        _ => true,
    }
}

/// Succeeds exactly when [`schema_accepts`] holds: the top-level type
/// named by the schema, if any, matches the value's kind, and the named
/// type is known.
pub fn assert_matches_schema(value: &JsonValue, schema: &JsonValue) -> (r: Result<(), String>)
    ensures
        r is Ok <==> schema_accepts(value@, schema@),
{
    let t = match schema.get("type") {
        Option::Some(JsonValue::Str(t)) => t,
        Option::Some(_) => {
            return Result::Ok(());
        },
        Option::None => {
            return Result::Ok(());
        },
    };
    let kind_ok: bool;
    if crate::json::str_eq(t.as_str(), "object") {
        kind_ok = matches!(value, JsonValue::Obj(_));
    } else if crate::json::str_eq(t.as_str(), "array") {
        kind_ok = matches!(value, JsonValue::Arr(_));
    } else if crate::json::str_eq(t.as_str(), "string") {
        kind_ok = matches!(value, JsonValue::Str(_));
    } else if crate::json::str_eq(t.as_str(), "number") {
        kind_ok = matches!(value, JsonValue::Int(_));
    } else if crate::json::str_eq(t.as_str(), "boolean") {
        kind_ok = matches!(value, JsonValue::Bool(_));
    } else if crate::json::str_eq(t.as_str(), "null") {
        kind_ok = matches!(value, JsonValue::Null);
    } else {
        return Result::Err(String::from_str("Unknown schema type"));
    }
    proof {
        match value {
            JsonValue::Null => assert(value@ is Null),
            JsonValue::Bool(b) => assert(value@ is Bool),
            JsonValue::Int(x) => assert(value@ is Int),
            JsonValue::Str(s) => assert(value@ is Str),
            JsonValue::Arr(xs) => assert(value@ is Arr),
            JsonValue::Obj(fs) => assert(value@ is Obj),
        }
    }
    if kind_ok {
        Result::Ok(())
    } else {
        Result::Err(String::from_str("Value does not match schema type"))
    }
}

} // verus!
