//! Typed result payloads and their decoders.
//!
//! The harness's high-level operations require a response to carry a
//! result, then decode that result into the expected shape.  A value that
//! does not have the promised shape is a protocol error, distinct from a
//! handler-reported error travelling inside the response.

use vstd::prelude::*;

use crate::errors::McpError;
use crate::json::{field_of, str_eq, JsonRep, JsonValue};

verus! {

/// Model of one content block.
pub enum ContentModel {
    Text(Seq<char>),
    Image(Seq<char>, Seq<char>),
}

/// One block of tool or prompt output: text, or binary data with a mime
/// type.
#[derive(Debug)]
pub enum Content {
    Text { text: String },
    Image { data: String, mime_type: String },
}

impl View for Content {
    type V = ContentModel;

    open spec fn view(&self) -> ContentModel {
        match self {
            Content::Text { text } => ContentModel::Text(text@),
            Content::Image { data, mime_type } => ContentModel::Image(data@, mime_type@),
        }
    }
}

/// Model of a tool result.
#[verifier::ext_equal]
pub struct ToolResultModel {
    pub content: Seq<ContentModel>,
    pub is_error: Option<bool>,
}

/// What a tool call produced: content blocks and an optional error flag.
#[derive(Debug)]
pub struct ToolResult {
    pub content: Vec<Content>,
    pub is_error: Option<bool>,
}

/// The models of a sequence of content blocks.
pub open spec fn content_models(s: Seq<Content>) -> Seq<ContentModel> {
    s.map_values(|c: Content| c@)
}

impl View for ToolResult {
    type V = ToolResultModel;

    open spec fn view(&self) -> ToolResultModel {
        ToolResultModel { content: content_models(self.content@), is_error: self.is_error }
    }
}

/// Model of resource contents.
pub enum ResourceContentsModel {
    Text { uri: Seq<char>, text: Seq<char>, mime_type: Option<Seq<char>> },
    Blob { uri: Seq<char>, blob: Seq<char>, mime_type: Option<Seq<char>> },
}

/// What a resource read produced: text or base64 blob contents.
#[derive(Debug)]
pub enum ResourceContents {
    Text { uri: String, text: String, mime_type: Option<String> },
    Blob { uri: String, blob: String, mime_type: Option<String> },
}

impl View for ResourceContents {
    type V = ResourceContentsModel;

    open spec fn view(&self) -> ResourceContentsModel {
        match self {
            ResourceContents::Text { uri, text, mime_type } => ResourceContentsModel::Text {
                uri: uri@,
                text: text@,
                mime_type: match mime_type {
                    Option::Some(m) => Option::Some(m@),
                    Option::None => Option::None,
                },
            },
            ResourceContents::Blob { uri, blob, mime_type } => ResourceContentsModel::Blob {
                uri: uri@,
                blob: blob@,
                mime_type: match mime_type {
                    Option::Some(m) => Option::Some(m@),
                    Option::None => Option::None,
                },
            },
        }
    }
}

/// Model of one prompt message.
#[verifier::ext_equal]
pub struct PromptMessageModel {
    pub role: Seq<char>,
    pub content: Seq<ContentModel>,
}

/// One message of a prompt: a role and its content blocks.
#[derive(Debug)]
pub struct PromptMessage {
    pub role: String,
    pub content: Vec<Content>,
}

impl View for PromptMessage {
    type V = PromptMessageModel;

    open spec fn view(&self) -> PromptMessageModel {
        PromptMessageModel { role: self.role@, content: content_models(self.content@) }
    }
}

/// Model of a prompt result.
#[verifier::ext_equal]
pub struct PromptResultModel {
    pub messages: Seq<PromptMessageModel>,
    pub description: Option<Seq<char>>,
}

/// What a prompt get produced: its messages and an optional description.
#[derive(Debug)]
pub struct PromptResult {
    pub messages: Vec<PromptMessage>,
    pub description: Option<String>,
}

impl View for PromptResult {
    type V = PromptResultModel;

    open spec fn view(&self) -> PromptResultModel {
        PromptResultModel {
            messages: self.messages@.map_values(|m: PromptMessage| m@),
            description: match self.description {
                Option::Some(d) => Option::Some(d@),
                Option::None => Option::None,
            },
        }
    }
}

/// Model of a tool listing entry.
#[verifier::ext_equal]
pub struct ToolInfoModel {
    pub name: Seq<char>,
    pub description: Option<Seq<char>>,
    pub input_schema: JsonRep,
}

/// One tool a server offers: its name, an optional description, and its
/// input schema as a JSON value.
#[derive(Debug)]
pub struct ToolInfo {
    pub name: String,
    pub description: Option<String>,
    pub input_schema: JsonValue,
}

impl View for ToolInfo {
    type V = ToolInfoModel;

    open spec fn view(&self) -> ToolInfoModel {
        ToolInfoModel {
            name: self.name@,
            description: match self.description {
                Option::Some(d) => Option::Some(d@),
                Option::None => Option::None,
            },
            input_schema: self.input_schema@,
        }
    }
}

/// Model of the server identity inside an initialize result.
#[verifier::ext_equal]
pub struct ServerIdentityModel {
    pub name: Seq<char>,
    pub version: Seq<char>,
}

/// The server identity an initialize result carries.
#[derive(Debug)]
pub struct ServerIdentity {
    pub name: String,
    pub version: String,
}

impl View for ServerIdentity {
    type V = ServerIdentityModel;

    open spec fn view(&self) -> ServerIdentityModel {
        ServerIdentityModel { name: self.name@, version: self.version@ }
    }
}

/// Model of a decoded initialize result.
#[verifier::ext_equal]
pub struct InitializeResultModel {
    pub protocol_version: Seq<char>,
    pub capabilities: JsonRep,
    pub server_info: ServerIdentityModel,
}

/// The decoded initialize result: protocol version, capability object, and
/// server identity.
#[derive(Debug)]
pub struct InitializeResult {
    pub protocol_version: String,
    pub capabilities: JsonValue,
    pub server_info: ServerIdentity,
}

impl View for InitializeResult {
    type V = InitializeResultModel;

    open spec fn view(&self) -> InitializeResultModel {
        InitializeResultModel {
            protocol_version: self.protocol_version@,
            capabilities: self.capabilities@,
            server_info: self.server_info@,
        }
    }
}

/// What an initialize result payload decodes to, when it has the promised
/// shape: an object with a string `protocolVersion`, an object
/// `capabilities`, and a `serverInfo` object carrying string `name` and
/// `version`.
pub open spec fn init_result_of(v: JsonRep) -> Option<InitializeResultModel> {
    match v {
        JsonRep::Obj(fs) => {
            match (
                field_of(fs, "protocolVersion"@),
                field_of(fs, "capabilities"@),
                field_of(fs, "serverInfo"@),
            ) {
                (
                    Option::Some(JsonRep::Str(pv)),
                    Option::Some(JsonRep::Obj(caps)),
                    Option::Some(JsonRep::Obj(si)),
                ) => {
                    match (field_of(si, "name"@), field_of(si, "version"@)) {
                        (Option::Some(JsonRep::Str(n)), Option::Some(JsonRep::Str(ver))) => {
                            Option::Some(
                                InitializeResultModel {
                                    protocol_version: pv,
                                    capabilities: JsonRep::Obj(caps),
                                    server_info: ServerIdentityModel { name: n, version: ver },
                                },
                            )
                        },
                        _ => Option::None,
                    }
                },
                _ => Option::None,
            }
        },
        _ => Option::None,
    }
}

/// Decodes an initialize result payload; a value without the promised
/// shape is a protocol error.
pub fn decode_initialize_result(v: &JsonValue) -> (r: Result<InitializeResult, McpError>)
    ensures
        match init_result_of(v@) {
            Option::Some(m) => r is Ok && r->Ok_0@ == m,
            Option::None => r is Err && r->Err_0@ is Protocol,
        },
{
    let bad = "Failed to parse initialize result";
    let pv = match v.get("protocolVersion") {
        Option::Some(JsonValue::Str(s)) => s.clone(),
        _ => {
            return Result::Err(McpError::protocol(bad));
        },
    };
    let caps = match v.get("capabilities") {
        Option::Some(c) => {
            if let JsonValue::Obj(_) = c {
                c.clone()
            } else {
                return Result::Err(McpError::protocol(bad));
            }
        },
        _ => {
            return Result::Err(McpError::protocol(bad));
        },
    };
    let si = match v.get("serverInfo") {
        Option::Some(s) => s,
        _ => {
            return Result::Err(McpError::protocol(bad));
        },
    };
    proof {
        assert(si@ == field_of(v@->Obj_0, "serverInfo"@)->0);
    }
    let name = match si.get("name") {
        Option::Some(JsonValue::Str(s)) => s.clone(),
        _ => {
            return Result::Err(McpError::protocol(bad));
        },
    };
    let version = match si.get("version") {
        Option::Some(JsonValue::Str(s)) => s.clone(),
        _ => {
            return Result::Err(McpError::protocol(bad));
        },
    };
    if let JsonValue::Obj(_) = si {
        Result::Ok(
            InitializeResult {
                protocol_version: pv,
                capabilities: caps,
                server_info: ServerIdentity { name, version },
            },
        )
    } else {
        Result::Err(McpError::protocol(bad))
    }
}

/// What one content block decodes to: `{type: "text", text}` or
/// `{type: "image", data, mimeType}`.
pub open spec fn content_item_of(v: JsonRep) -> Option<ContentModel> {
    match v {
        JsonRep::Obj(fs) => match field_of(fs, "type"@) {
            Option::Some(JsonRep::Str(t)) => if t == "text"@ {
                match field_of(fs, "text"@) {
                    Option::Some(JsonRep::Str(s)) => Option::Some(ContentModel::Text(s)),
                    _ => Option::None,
                }
            } else if t == "image"@ {
                match (field_of(fs, "data"@), field_of(fs, "mimeType"@)) {
                    (
                        Option::Some(JsonRep::Str(d)),
                        Option::Some(JsonRep::Str(m)),
                    ) => Option::Some(ContentModel::Image(d, m)),
                    _ => Option::None,
                }
            } else {
                Option::None
            },
            _ => Option::None,
        },
        _ => Option::None,
    }
}

/// What a whole content array decodes to: every element must decode.
pub open spec fn contents_of(xs: Seq<JsonRep>) -> Option<Seq<ContentModel>>
    decreases xs,
{
    if xs.len() == 0 {
        Option::Some(Seq::empty())
    } else {
        match (contents_of(xs.subrange(0, xs.len() - 1)), content_item_of(xs[xs.len() - 1])) {
            (Option::Some(c), Option::Some(item)) => Option::Some(c.push(item)),
            _ => Option::None,
        }
    }
}

/// One undecodable element spoils the whole array.
pub proof fn lemma_contents_of_bad(xs: Seq<JsonRep>, i: int)
    requires
        0 <= i < xs.len(),
        content_item_of(xs[i]) is None,
    ensures
        contents_of(xs) is None,
    decreases xs,
{
    if i < xs.len() - 1 {
        assert(xs.subrange(0, xs.len() - 1)[i] == xs[i]);
        lemma_contents_of_bad(xs.subrange(0, xs.len() - 1), i);
    }
}

/// Decodes one content block.
pub fn decode_content_item(v: &JsonValue) -> (r: Result<Content, McpError>)
    ensures
        match content_item_of(v@) {
            Option::Some(m) => r is Ok && r->Ok_0@ == m,
            Option::None => r is Err && r->Err_0@ is Protocol,
        },
{
    let bad = "Failed to parse content block";
    let kind = match v.get("type") {
        Option::Some(JsonValue::Str(s)) => s,
        _ => {
            return Result::Err(McpError::protocol(bad));
        },
    };
    if str_eq(kind.as_str(), "text") {
        match v.get("text") {
            Option::Some(JsonValue::Str(s)) => Result::Ok(Content::Text { text: s.clone() }),
            _ => Result::Err(McpError::protocol(bad)),
        }
    } else if str_eq(kind.as_str(), "image") {
        let data = match v.get("data") {
            Option::Some(JsonValue::Str(s)) => s.clone(),
            _ => {
                return Result::Err(McpError::protocol(bad));
            },
        };
        match v.get("mimeType") {
            Option::Some(JsonValue::Str(m)) => Result::Ok(
                Content::Image { data, mime_type: m.clone() },
            ),
            _ => Result::Err(McpError::protocol(bad)),
        }
    } else {
        Result::Err(McpError::protocol(bad))
    }
}

/// Decodes a whole content array.
fn decode_contents(xs: &Vec<JsonValue>) -> (r: Result<Vec<Content>, McpError>)
    ensures
        match contents_of(crate::json::rep_list(xs@)) {
            Option::Some(m) => r is Ok && content_models(r->Ok_0@) == m,
            Option::None => r is Err && r->Err_0@ is Protocol,
        },
{
    proof {
        crate::json::lemma_rep_list_index(xs@);
    }
    let ghost reps = crate::json::rep_list(xs@);
    let mut out: Vec<Content> = Vec::new();
    let mut i: usize = 0;
    while i < xs.len()
        invariant
            0 <= i <= xs@.len(),
            reps == crate::json::rep_list(xs@),
            reps.len() == xs@.len(),
            forall|j: int| 0 <= j < xs@.len() ==> #[trigger] reps[j] == crate::json::rep(xs@[j]),
            contents_of(reps.subrange(0, i as int)) == Option::Some(content_models(out@)),
        decreases xs@.len() - i,
    {
        match decode_content_item(&xs[i]) {
            Result::Ok(c) => {
                out.push(c);
                proof {
                    let p1 = reps.subrange(0, i as int + 1);
                    assert(p1.subrange(0, p1.len() - 1) =~= reps.subrange(0, i as int));
                    assert(p1[p1.len() - 1] == reps[i as int]);
                    assert(content_models(out@) =~= contents_of(
                        reps.subrange(0, i as int),
                    )->0.push(out@[out@.len() - 1]@));
                }
            },
            Result::Err(e) => {
                proof {
                    lemma_contents_of_bad(reps, i as int);
                }
                return Result::Err(e);
            },
        }
        i += 1;
    }
    proof {
        assert(reps.subrange(0, reps.len() as int) =~= reps);
    }
    Result::Ok(out)
}

/// What a tool result payload decodes to: an object with a content array
/// and an optional boolean `isError`.
pub open spec fn tool_result_of(v: JsonRep) -> Option<ToolResultModel> {
    match v {
        JsonRep::Obj(fs) => match field_of(fs, "content"@) {
            Option::Some(JsonRep::Arr(xs)) => match contents_of(xs) {
                Option::Some(c) => match field_of(fs, "isError"@) {
                    Option::Some(JsonRep::Bool(b)) => Option::Some(
                        ToolResultModel { content: c, is_error: Option::Some(b) },
                    ),
                    Option::None => Option::Some(
                        ToolResultModel { content: c, is_error: Option::None },
                    ),
                    Option::Some(_) => Option::None,
                },
                Option::None => Option::None,
            },
            _ => Option::None,
        },
        _ => Option::None,
    }
}

/// Decodes a tool result payload; a value without the promised shape is a
/// protocol error.
pub fn decode_tool_result(v: &JsonValue) -> (r: Result<ToolResult, McpError>)
    ensures
        match tool_result_of(v@) {
            Option::Some(m) => r is Ok && r->Ok_0@ == m,
            Option::None => r is Err && r->Err_0@ is Protocol,
        },
{
    let bad = "Failed to parse tool result";
    let content = match v.get("content") {
        Option::Some(JsonValue::Arr(xs)) => {
            match decode_contents(xs) {
                Result::Ok(c) => c,
                Result::Err(e) => {
                    return Result::Err(e);
                },
            }
        },
        _ => {
            return Result::Err(McpError::protocol(bad));
        },
    };
    let is_error = match v.get("isError") {
        Option::Some(JsonValue::Bool(b)) => Option::Some(*b),
        Option::None => Option::None,
        Option::Some(_) => {
            return Result::Err(McpError::protocol(bad));
        },
    };
    Result::Ok(ToolResult { content, is_error })
}

/// What a resource read payload decodes to: a string `uri` with string
/// `text` or string `blob` contents and an optional string `mimeType`.
pub open spec fn resource_contents_of(v: JsonRep) -> Option<ResourceContentsModel> {
    match v {
        JsonRep::Obj(fs) => match field_of(fs, "uri"@) {
            Option::Some(JsonRep::Str(uri)) => {
                let mime = field_of(fs, "mimeType"@);
                if mime is Some && !(mime->0 is Str) {
                    Option::None
                } else {
                    let mt = match mime {
                        Option::Some(JsonRep::Str(m)) => Option::Some(m),
                        _ => Option::None,
                    };
                    match field_of(fs, "text"@) {
                        Option::Some(JsonRep::Str(t)) => Option::Some(
                            ResourceContentsModel::Text { uri, text: t, mime_type: mt },
                        ),
                        _ => match field_of(fs, "blob"@) {
                            Option::Some(JsonRep::Str(b)) => Option::Some(
                                ResourceContentsModel::Blob { uri, blob: b, mime_type: mt },
                            ),
                            _ => Option::None,
                        },
                    }
                }
            },
            _ => Option::None,
        },
        _ => Option::None,
    }
}

/// Decodes a resource read payload; a value without the promised shape is
/// a protocol error.
pub fn decode_resource_contents(v: &JsonValue) -> (r: Result<ResourceContents, McpError>)
    ensures
        match resource_contents_of(v@) {
            Option::Some(m) => r is Ok && r->Ok_0@ == m,
            Option::None => r is Err && r->Err_0@ is Protocol,
        },
{
    let bad = "Failed to parse resource contents";
    let uri = match v.get("uri") {
        Option::Some(JsonValue::Str(s)) => s.clone(),
        _ => {
            return Result::Err(McpError::protocol(bad));
        },
    };
    let mime_type = match v.get("mimeType") {
        Option::Some(JsonValue::Str(m)) => Option::Some(m.clone()),
        Option::None => Option::None,
        Option::Some(_) => {
            return Result::Err(McpError::protocol(bad));
        },
    };
    match v.get("text") {
        Option::Some(JsonValue::Str(t)) => {
            return Result::Ok(
                ResourceContents::Text { uri, text: t.clone(), mime_type },
            );
        },
        _ => {},
    }
    match v.get("blob") {
        Option::Some(JsonValue::Str(b)) => Result::Ok(
            ResourceContents::Blob { uri, blob: b.clone(), mime_type },
        ),
        _ => Result::Err(McpError::protocol(bad)),
    }
}

/// What one prompt message decodes to: a string role and a content array.
pub open spec fn prompt_message_of(v: JsonRep) -> Option<PromptMessageModel> {
    match v {
        JsonRep::Obj(fs) => match (field_of(fs, "role"@), field_of(fs, "content"@)) {
            (Option::Some(JsonRep::Str(role)), Option::Some(JsonRep::Arr(xs))) => match
                contents_of(xs) {
                Option::Some(c) => Option::Some(PromptMessageModel { role, content: c }),
                Option::None => Option::None,
            },
            _ => Option::None,
        },
        _ => Option::None,
    }
}

/// What a whole message array decodes to: every element must decode.
pub open spec fn messages_of(xs: Seq<JsonRep>) -> Option<Seq<PromptMessageModel>>
    decreases xs,
{
    if xs.len() == 0 {
        Option::Some(Seq::empty())
    } else {
        match (messages_of(xs.subrange(0, xs.len() - 1)), prompt_message_of(xs[xs.len() - 1])) {
            (Option::Some(m), Option::Some(item)) => Option::Some(m.push(item)),
            _ => Option::None,
        }
    }
}

/// One undecodable element spoils the whole array.
pub proof fn lemma_messages_of_bad(xs: Seq<JsonRep>, i: int)
    requires
        0 <= i < xs.len(),
        prompt_message_of(xs[i]) is None,
    ensures
        messages_of(xs) is None,
    decreases xs,
{
    if i < xs.len() - 1 {
        assert(xs.subrange(0, xs.len() - 1)[i] == xs[i]);
        lemma_messages_of_bad(xs.subrange(0, xs.len() - 1), i);
    }
}

/// Decodes one prompt message.
fn decode_prompt_message(v: &JsonValue) -> (r: Result<PromptMessage, McpError>)
    ensures
        match prompt_message_of(v@) {
            Option::Some(m) => r is Ok && r->Ok_0@ == m,
            Option::None => r is Err && r->Err_0@ is Protocol,
        },
{
    let bad = "Failed to parse prompt message";
    let role = match v.get("role") {
        Option::Some(JsonValue::Str(s)) => s.clone(),
        _ => {
            return Result::Err(McpError::protocol(bad));
        },
    };
    match v.get("content") {
        Option::Some(JsonValue::Arr(xs)) => {
            match decode_contents(xs) {
                Result::Ok(c) => Result::Ok(PromptMessage { role, content: c }),
                Result::Err(e) => Result::Err(e),
            }
        },
        _ => Result::Err(McpError::protocol(bad)),
    }
}

/// What a prompt result payload decodes to: a message array and an
/// optional string description.
pub open spec fn prompt_result_of(v: JsonRep) -> Option<PromptResultModel> {
    match v {
        JsonRep::Obj(fs) => match field_of(fs, "messages"@) {
            Option::Some(JsonRep::Arr(xs)) => match messages_of(xs) {
                Option::Some(m) => match field_of(fs, "description"@) {
                    Option::Some(JsonRep::Str(d)) => Option::Some(
                        PromptResultModel { messages: m, description: Option::Some(d) },
                    ),
                    Option::None => Option::Some(
                        PromptResultModel { messages: m, description: Option::None },
                    ),
                    Option::Some(_) => Option::None,
                },
                Option::None => Option::None,
            },
            _ => Option::None,
        },
        _ => Option::None,
    }
}

/// Decodes a prompt result payload; a value without the promised shape is
/// a protocol error.
pub fn decode_prompt_result(v: &JsonValue) -> (r: Result<PromptResult, McpError>)
    ensures
        match prompt_result_of(v@) {
            Option::Some(m) => r is Ok && r->Ok_0@ == m,
            Option::None => r is Err && r->Err_0@ is Protocol,
        },
{
    let bad = "Failed to parse prompt result";
    let mv = match v.get("messages") {
        Option::Some(m) => m,
        Option::None => {
            return Result::Err(McpError::protocol(bad));
        },
    };
    let messages = match mv {
        JsonValue::Arr(xs) => {
            proof {
                assert(mv@ == JsonRep::Arr(crate::json::rep_list(xs@)));
                crate::json::lemma_rep_list_index(xs@);
            }
            let ghost reps = crate::json::rep_list(xs@);
            let mut out: Vec<PromptMessage> = Vec::new();
            let mut i: usize = 0;
            while i < xs.len()
                invariant
                    0 <= i <= xs@.len(),
                    v@ is Obj,
                    field_of(v@->Obj_0, "messages"@) == Option::Some(JsonRep::Arr(reps)),
                    reps == crate::json::rep_list(xs@),
                    reps.len() == xs@.len(),
                    forall|j: int|
                        0 <= j < xs@.len() ==> #[trigger] reps[j] == crate::json::rep(xs@[j]),
                    messages_of(reps.subrange(0, i as int)) == Option::Some(
                        out@.map_values(|m: PromptMessage| m@),
                    ),
                decreases xs@.len() - i,
            {
                match decode_prompt_message(&xs[i]) {
                    Result::Ok(m) => {
                        out.push(m);
                        proof {
                            let p1 = reps.subrange(0, i as int + 1);
                            assert(p1.subrange(0, p1.len() - 1) =~= reps.subrange(0, i as int));
                            assert(p1[p1.len() - 1] == reps[i as int]);
                            assert(out@.map_values(|m: PromptMessage| m@) =~= messages_of(
                                reps.subrange(0, i as int),
                            )->0.push(out@[out@.len() - 1]@));
                        }
                    },
                    Result::Err(e) => {
                        proof {
                            lemma_messages_of_bad(reps, i as int);
                        }
                        return Result::Err(e);
                    },
                }
                i += 1;
            }
            proof {
                assert(reps.subrange(0, reps.len() as int) =~= reps);
            }
            out
        },
        _ => {
            return Result::Err(McpError::protocol(bad));
        },
    };
    let description = match v.get("description") {
        Option::Some(JsonValue::Str(d)) => Option::Some(d.clone()),
        Option::None => Option::None,
        Option::Some(_) => {
            return Result::Err(McpError::protocol(bad));
        },
    };
    Result::Ok(PromptResult { messages, description })
}

/// What one tool listing entry decodes to: a string name, an optional
/// string description, and any `inputSchema` value.
pub open spec fn tool_info_of(v: JsonRep) -> Option<ToolInfoModel> {
    match v {
        JsonRep::Obj(fs) => match (field_of(fs, "name"@), field_of(fs, "inputSchema"@)) {
            (Option::Some(JsonRep::Str(name)), Option::Some(schema)) => match field_of(
                fs,
                "description"@,
            ) {
                Option::Some(JsonRep::Str(d)) => Option::Some(
                    ToolInfoModel {
                        name,
                        description: Option::Some(d),
                        input_schema: schema,
                    },
                ),
                Option::None => Option::Some(
                    ToolInfoModel { name, description: Option::None, input_schema: schema },
                ),
                Option::Some(_) => Option::None,
            },
            _ => Option::None,
        },
        _ => Option::None,
    }
}

/// What a whole tool listing decodes to: every entry must decode.
pub open spec fn tools_of(xs: Seq<JsonRep>) -> Option<Seq<ToolInfoModel>>
    decreases xs,
{
    if xs.len() == 0 {
        Option::Some(Seq::empty())
    } else {
        match (tools_of(xs.subrange(0, xs.len() - 1)), tool_info_of(xs[xs.len() - 1])) {
            (Option::Some(m), Option::Some(item)) => Option::Some(m.push(item)),
            _ => Option::None,
        }
    }
}

/// One undecodable entry spoils the whole listing.
pub proof fn lemma_tools_of_bad(xs: Seq<JsonRep>, i: int)
    requires
        0 <= i < xs.len(),
        tool_info_of(xs[i]) is None,
    ensures
        tools_of(xs) is None,
    decreases xs,
{
    if i < xs.len() - 1 {
        assert(xs.subrange(0, xs.len() - 1)[i] == xs[i]);
        lemma_tools_of_bad(xs.subrange(0, xs.len() - 1), i);
    }
}

/// Decodes one tool listing entry.
fn decode_tool_info(v: &JsonValue) -> (r: Result<ToolInfo, McpError>)
    ensures
        match tool_info_of(v@) {
            Option::Some(m) => r is Ok && r->Ok_0@ == m,
            Option::None => r is Err && r->Err_0@ is Protocol,
        },
{
    let bad = "Failed to parse tools list";
    let name = match v.get("name") {
        Option::Some(JsonValue::Str(s)) => s.clone(),
        _ => {
            return Result::Err(McpError::protocol(bad));
        },
    };
    let input_schema = match v.get("inputSchema") {
        Option::Some(s) => s.clone(),
        _ => {
            return Result::Err(McpError::protocol(bad));
        },
    };
    let description = match v.get("description") {
        Option::Some(JsonValue::Str(d)) => Option::Some(d.clone()),
        Option::None => Option::None,
        Option::Some(_) => {
            return Result::Err(McpError::protocol(bad));
        },
    };
    Result::Ok(ToolInfo { name, description, input_schema })
}

/// What a tools-list payload decodes to: an object whose `tools` field is
/// an array of tool entries.
pub open spec fn tools_list_of(v: JsonRep) -> Option<Seq<ToolInfoModel>> {
    match v {
        JsonRep::Obj(fs) => match field_of(fs, "tools"@) {
            Option::Some(JsonRep::Arr(xs)) => tools_of(xs),
            _ => Option::None,
        },
        _ => Option::None,
    }
}

/// Decodes a tools-list payload; a value without the promised shape is a
/// protocol error.
pub fn decode_tools_list(v: &JsonValue) -> (r: Result<Vec<ToolInfo>, McpError>)
    ensures
        match tools_list_of(v@) {
            Option::Some(m) => r is Ok && r->Ok_0@.map_values(|t: ToolInfo| t@) == m,
            Option::None => r is Err && r->Err_0@ is Protocol,
        },
{
    let bad = "Failed to parse tools list";
    let tv = match v.get("tools") {
        Option::Some(t) => t,
        Option::None => {
            return Result::Err(McpError::protocol(bad));
        },
    };
    match tv {
        JsonValue::Arr(xs) => {
            proof {
                assert(tv@ == JsonRep::Arr(crate::json::rep_list(xs@)));
                crate::json::lemma_rep_list_index(xs@);
            }
            let ghost reps = crate::json::rep_list(xs@);
            let mut out: Vec<ToolInfo> = Vec::new();
            let mut i: usize = 0;
            while i < xs.len()
                invariant
                    0 <= i <= xs@.len(),
                    v@ is Obj,
                    field_of(v@->Obj_0, "tools"@) == Option::Some(JsonRep::Arr(reps)),
                    reps == crate::json::rep_list(xs@),
                    reps.len() == xs@.len(),
                    forall|j: int|
                        0 <= j < xs@.len() ==> #[trigger] reps[j] == crate::json::rep(xs@[j]),
                    tools_of(reps.subrange(0, i as int)) == Option::Some(
                        out@.map_values(|t: ToolInfo| t@),
                    ),
                decreases xs@.len() - i,
            {
                match decode_tool_info(&xs[i]) {
                    Result::Ok(t) => {
                        out.push(t);
                        proof {
                            let p1 = reps.subrange(0, i as int + 1);
                            assert(p1.subrange(0, p1.len() - 1) =~= reps.subrange(0, i as int));
                            assert(p1[p1.len() - 1] == reps[i as int]);
                            assert(out@.map_values(|t: ToolInfo| t@) =~= tools_of(
                                reps.subrange(0, i as int),
                            )->0.push(out@[out@.len() - 1]@));
                        }
                    },
                    Result::Err(e) => {
                        proof {
                            lemma_tools_of_bad(reps, i as int);
                        }
                        return Result::Err(e);
                    },
                }
                i += 1;
            }
            proof {
                assert(reps.subrange(0, reps.len() as int) =~= reps);
            }
            Result::Ok(out)
        },
        _ => Result::Err(McpError::protocol(bad)),
    }
}

} // verus!
