//! The message model: requests, responses, notifications and error objects.
//!
//! A request carries an id, a method and optional parameters.  A response
//! answers a request and is well formed exactly when it carries a result or
//! an error object, never both and never neither.  A notification carries no
//! id and is never answered.  Ids are JSON scalars compared by value.

use vstd::prelude::*;

use crate::errors::McpResult;
use crate::json::{rep_wf, JsonRep, JsonValue};

verus! {

/// Invalid JSON was received.
pub const PARSE_ERROR: i32 = -32700;

/// The message is not a valid request object.
pub const INVALID_REQUEST: i32 = -32600;

/// The method does not exist or is not available.
pub const METHOD_NOT_FOUND: i32 = -32601;

/// Invalid method parameters.
pub const INVALID_PARAMS: i32 = -32602;

/// Internal protocol error.
pub const INTERNAL_ERROR: i32 = -32603;

/// The named tool does not exist.
pub const TOOL_NOT_FOUND: i32 = -32000;

/// The named resource does not exist.
pub const RESOURCE_NOT_FOUND: i32 = -32001;

/// The named prompt does not exist.
pub const PROMPT_NOT_FOUND: i32 = -32002;

/// The JSON-RPC revision carried by every message.
pub fn jsonrpc_version() -> (r: &'static str)
    ensures
        r@ == "2.0"@,
{
    "2.0"
}

/// The protocol revision offered during the initialize handshake.
pub fn latest_protocol_version() -> (r: &'static str)
    ensures
        r@ == "2026-07-28"@,
{
    "2026-07-28"
}

/// Model of a request.
#[verifier::ext_equal]
pub struct RequestModel {
    pub jsonrpc: Seq<char>,
    pub id: JsonRep,
    pub method: Seq<char>,
    pub params: Option<JsonRep>,
}

/// An RPC call: an id for correlation, a method, optional parameters.
#[derive(Debug)]
pub struct JsonRpcRequest {
    pub jsonrpc: String,
    pub id: JsonValue,
    pub method: String,
    pub params: Option<JsonValue>,
}

impl View for JsonRpcRequest {
    type V = RequestModel;

    open spec fn view(&self) -> RequestModel {
        RequestModel {
            jsonrpc: self.jsonrpc@,
            id: self.id@,
            method: self.method@,
            params: match self.params {
                Option::Some(p) => Option::Some(p@),
                Option::None => Option::None,
            },
        }
    }
}

impl RequestModel {
    /// The payloads of this request never repeat an object key.
    pub open spec fn wf(self) -> bool {
        rep_wf(self.id) && match self.params {
            Option::Some(p) => rep_wf(p),
            Option::None => true,
        }
    }
}

impl Clone for JsonRpcRequest {
    /// A deep copy with the same model.
    fn clone(&self) -> (res: Self)
        ensures
            res@ == self@,
    {
        JsonRpcRequest {
            jsonrpc: self.jsonrpc.clone(),
            id: self.id.clone(),
            method: self.method.clone(),
            params: match &self.params {
                Option::Some(p) => Option::Some(p.clone()),
                Option::None => Option::None,
            },
        }
    }
}

/// Model of an error object.
#[verifier::ext_equal]
pub struct ErrorObjectModel {
    pub code: int,
    pub message: Seq<char>,
    pub data: Option<JsonRep>,
}

/// The payload of a failed response: a numeric code, a message, and
/// optional structured data.
#[derive(Debug)]
pub struct ErrorObject {
    pub code: i32,
    pub message: String,
    pub data: Option<JsonValue>,
}

impl View for ErrorObject {
    type V = ErrorObjectModel;

    open spec fn view(&self) -> ErrorObjectModel {
        ErrorObjectModel {
            code: self.code as int,
            message: self.message@,
            data: match self.data {
                Option::Some(d) => Option::Some(d@),
                Option::None => Option::None,
            },
        }
    }
}

impl Clone for ErrorObject {
    /// A deep copy with the same model.
    fn clone(&self) -> (res: Self)
        ensures
            res@ == self@,
    {
        ErrorObject {
            code: self.code,
            message: self.message.clone(),
            data: match &self.data {
                Option::Some(d) => Option::Some(d.clone()),
                Option::None => Option::None,
            },
        }
    }
}

/// Model of a response.
#[verifier::ext_equal]
pub struct ResponseModel {
    pub jsonrpc: Seq<char>,
    pub id: Option<JsonRep>,
    pub result: Option<JsonRep>,
    pub error: Option<ErrorObjectModel>,
}

/// The outcome of a request: the originating id, and a result or an error.
#[derive(Debug)]
pub struct JsonRpcResponse {
    pub jsonrpc: String,
    pub id: Option<JsonValue>,
    pub result: Option<JsonValue>,
    pub error: Option<ErrorObject>,
}

impl View for JsonRpcResponse {
    type V = ResponseModel;

    open spec fn view(&self) -> ResponseModel {
        ResponseModel {
            jsonrpc: self.jsonrpc@,
            id: match self.id {
                Option::Some(v) => Option::Some(v@),
                Option::None => Option::None,
            },
            result: match self.result {
                Option::Some(v) => Option::Some(v@),
                Option::None => Option::None,
            },
            error: match self.error {
                Option::Some(e) => Option::Some(e@),
                Option::None => Option::None,
            },
        }
    }
}

impl ResponseModel {
    /// A response is well formed when it carries a result or an error,
    /// never both and never neither.
    pub open spec fn well_formed(self) -> bool {
        self.result is Some <==> self.error is None
    }

    /// The model of a copy of this response answering `id` instead.
    pub open spec fn with_id(self, id: JsonRep) -> ResponseModel {
        ResponseModel { id: Option::Some(id), ..self }
    }

    /// The payloads of this response never repeat an object key.
    pub open spec fn wf(self) -> bool {
        &&& match self.id {
            Option::Some(v) => rep_wf(v),
            Option::None => true,
        }
        &&& match self.result {
            Option::Some(v) => rep_wf(v),
            Option::None => true,
        }
        &&& match self.error {
            Option::Some(e) => match e.data {
                Option::Some(d) => rep_wf(d),
                Option::None => true,
            },
            Option::None => true,
        }
    }
}

impl Clone for JsonRpcResponse {
    /// A deep copy with the same model.
    fn clone(&self) -> (res: Self)
        ensures
            res@ == self@,
    {
        JsonRpcResponse {
            jsonrpc: self.jsonrpc.clone(),
            id: match &self.id {
                Option::Some(v) => Option::Some(v.clone()),
                Option::None => Option::None,
            },
            result: match &self.result {
                Option::Some(v) => Option::Some(v.clone()),
                Option::None => Option::None,
            },
            error: match &self.error {
                Option::Some(e) => Option::Some(e.clone()),
                Option::None => Option::None,
            },
        }
    }
}

/// Model of a notification.
#[verifier::ext_equal]
pub struct NotificationModel {
    pub jsonrpc: Seq<char>,
    pub method: Seq<char>,
    pub params: Option<JsonRep>,
}

/// A one-way message: a method and optional parameters, no id, no reply.
#[derive(Debug)]
pub struct JsonRpcNotification {
    pub jsonrpc: String,
    pub method: String,
    pub params: Option<JsonValue>,
}

impl View for JsonRpcNotification {
    type V = NotificationModel;

    open spec fn view(&self) -> NotificationModel {
        NotificationModel {
            jsonrpc: self.jsonrpc@,
            method: self.method@,
            params: match self.params {
                Option::Some(p) => Option::Some(p@),
                Option::None => Option::None,
            },
        }
    }
}

impl NotificationModel {
    /// The payload of this notification never repeats an object key.
    pub open spec fn wf(self) -> bool {
        match self.params {
            Option::Some(p) => rep_wf(p),
            Option::None => true,
        }
    }
}

impl Clone for JsonRpcNotification {
    /// A deep copy with the same model.
    fn clone(&self) -> (res: Self)
        ensures
            res@ == self@,
    {
        JsonRpcNotification {
            jsonrpc: self.jsonrpc.clone(),
            method: self.method.clone(),
            params: match &self.params {
                Option::Some(p) => Option::Some(p.clone()),
                Option::None => Option::None,
            },
        }
    }
}

/// Model of an error message.
#[verifier::ext_equal]
pub struct ErrorMessageModel {
    pub jsonrpc: Seq<char>,
    pub id: JsonRep,
    pub error: ErrorObjectModel,
}

/// A failed response as a message of its own kind.
#[derive(Debug)]
pub struct JsonRpcError {
    pub jsonrpc: String,
    pub id: JsonValue,
    pub error: ErrorObject,
}

impl View for JsonRpcError {
    type V = ErrorMessageModel;

    open spec fn view(&self) -> ErrorMessageModel {
        ErrorMessageModel { jsonrpc: self.jsonrpc@, id: self.id@, error: self.error@ }
    }
}

impl Clone for JsonRpcError {
    /// A deep copy with the same model.
    fn clone(&self) -> (res: Self)
        ensures
            res@ == self@,
    {
        JsonRpcError {
            jsonrpc: self.jsonrpc.clone(),
            id: self.id.clone(),
            error: self.error.clone(),
        }
    }
}

impl ErrorMessageModel {
    /// The payloads of this error message never repeat an object key.
    pub open spec fn wf(self) -> bool {
        rep_wf(self.id) && match self.error.data {
            Option::Some(d) => rep_wf(d),
            Option::None => true,
        }
    }
}

/// Model of a message of any kind.
#[verifier::ext_equal]
pub enum MessageModel {
    Request(RequestModel),
    Response(ResponseModel),
    Notification(NotificationModel),
    Error(ErrorMessageModel),
}

/// The closed union of message kinds a transport can carry.
#[derive(Debug)]
pub enum JsonRpcMessage {
    Request(JsonRpcRequest),
    Response(JsonRpcResponse),
    Notification(JsonRpcNotification),
    Error(JsonRpcError),
}

impl View for JsonRpcMessage {
    type V = MessageModel;

    open spec fn view(&self) -> MessageModel {
        match self {
            JsonRpcMessage::Request(r) => MessageModel::Request(r@),
            JsonRpcMessage::Response(r) => MessageModel::Response(r@),
            JsonRpcMessage::Notification(n) => MessageModel::Notification(n@),
            JsonRpcMessage::Error(e) => MessageModel::Error(e@),
        }
    }
}

impl MessageModel {
    /// The payloads of this message never repeat an object key.
    pub open spec fn wf(self) -> bool {
        match self {
            MessageModel::Request(r) => r.wf(),
            MessageModel::Response(r) => r.wf(),
            MessageModel::Notification(n) => n.wf(),
            MessageModel::Error(e) => e.wf(),
        }
    }
}

impl Clone for JsonRpcMessage {
    /// A deep copy with the same model.
    fn clone(&self) -> (res: Self)
        ensures
            res@ == self@,
    {
        match self {
            JsonRpcMessage::Request(r) => JsonRpcMessage::Request(r.clone()),
            JsonRpcMessage::Response(r) => JsonRpcMessage::Response(r.clone()),
            JsonRpcMessage::Notification(n) => JsonRpcMessage::Notification(n.clone()),
            JsonRpcMessage::Error(e) => JsonRpcMessage::Error(e.clone()),
        }
    }
}

/// A batch of requests, delivered in order.
pub type JsonRpcBatchRequest = Vec<JsonRpcRequest>;

/// One entry of a batch reply.
#[derive(Debug)]
pub enum JsonRpcResponseOrError {
    Response(JsonRpcResponse),
    Error(JsonRpcError),
}

/// The model of a canonical request: revision "2.0", the given parts.
pub open spec fn request_model(id: JsonRep, method: Seq<char>, params: Option<JsonRep>)
    -> RequestModel {
    RequestModel { jsonrpc: "2.0"@, id, method, params }
}

/// The model of a successful response answering `id` with `result`.
pub open spec fn success_model(id: JsonRep, result: JsonRep) -> ResponseModel {
    ResponseModel {
        jsonrpc: "2.0"@,
        id: Option::Some(id),
        result: Option::Some(result),
        error: Option::None,
    }
}

/// The model of an error message with no attached data.
pub open spec fn error_message_model(id: JsonRep, code: int, message: Seq<char>)
    -> ErrorMessageModel {
    ErrorMessageModel {
        jsonrpc: "2.0"@,
        id,
        error: ErrorObjectModel { code, message, data: Option::None },
    }
}

impl JsonRpcRequest {
    /// Builds a request from already-structured parameters.  Construction
    /// cannot fail on structured values; the error arm mirrors builders
    /// whose parameters must first be serialized.
    pub fn new(id: JsonValue, method: String, params: Option<JsonValue>) -> (r: McpResult<
        JsonRpcRequest,
    >)
        ensures
            r is Ok && r->Ok_0@ == request_model(id@, method@, match params {
                Option::Some(p) => Option::Some(p@),
                Option::None => Option::None,
            }),
    {
        Result::Ok(
            JsonRpcRequest { jsonrpc: String::from_str(jsonrpc_version()), id, method, params },
        )
    }

    /// Builds a request that carries parameters.
    pub fn with_params(id: JsonValue, method: String, params: JsonValue) -> (r: McpResult<
        JsonRpcRequest,
    >)
        ensures
            r is Ok && r->Ok_0@ == request_model(id@, method@, Option::Some(params@)),
    {
        JsonRpcRequest::new(id, method, Option::Some(params))
    }

    /// Builds a request without parameters.
    pub fn without_params(id: JsonValue, method: String) -> (r: JsonRpcRequest)
        ensures
            r@ == request_model(id@, method@, Option::None),
    {
        JsonRpcRequest { jsonrpc: String::from_str(jsonrpc_version()), id, method, params: None }
    }
}

impl JsonRpcResponse {
    /// A successful response answering `id` with `result`.
    pub fn success_value(id: JsonValue, result: JsonValue) -> (r: JsonRpcResponse)
        ensures
            r@ == success_model(id@, result@),
            r@.well_formed(),
    {
        JsonRpcResponse {
            jsonrpc: String::from_str(jsonrpc_version()),
            id: Option::Some(id),
            result: Option::Some(result),
            error: Option::None,
        }
    }

    /// A successful response, without checking the result against any
    /// schema; identical to [`JsonRpcResponse::success_value`].
    pub fn success_unchecked(id: JsonValue, result: JsonValue) -> (r: JsonRpcResponse)
        ensures
            r@ == success_model(id@, result@),
            r@.well_formed(),
    {
        JsonRpcResponse::success_value(id, result)
    }

    /// Whether this response carries a result or an error, never both and
    /// never neither.
    pub fn well_formed(&self) -> (r: bool)
        ensures
            r == self@.well_formed(),
    {
        match (&self.result, &self.error) {
            (Option::Some(_), Option::None) => true,
            (Option::None, Option::Some(_)) => true,
            _ => false,
        }
    }
}

impl JsonRpcError {
    /// An error message with the given code and text.
    pub fn new(id: JsonValue, code: i32, message: String) -> (r: JsonRpcError)
        ensures
            r@ == error_message_model(id@, code as int, message@),
    {
        JsonRpcError {
            jsonrpc: String::from_str(jsonrpc_version()),
            id,
            error: ErrorObject { code, message, data: Option::None },
        }
    }

    /// "Parse error": invalid JSON was received.
    pub fn parse_error(id: JsonValue) -> (r: JsonRpcError)
        ensures
            r@ == error_message_model(id@, PARSE_ERROR as int, "Parse error"@),
    {
        JsonRpcError::new(id, PARSE_ERROR, String::from_str("Parse error"))
    }

    /// "Invalid Request": the message is not a valid request object.
    pub fn invalid_request(id: JsonValue) -> (r: JsonRpcError)
        ensures
            r@ == error_message_model(id@, INVALID_REQUEST as int, "Invalid Request"@),
    {
        JsonRpcError::new(id, INVALID_REQUEST, String::from_str("Invalid Request"))
    }

    /// "Method not found": the method does not exist.
    pub fn method_not_found(id: JsonValue) -> (r: JsonRpcError)
        ensures
            r@ == error_message_model(id@, METHOD_NOT_FOUND as int, "Method not found"@),
    {
        JsonRpcError::new(id, METHOD_NOT_FOUND, String::from_str("Method not found"))
    }

    /// "Invalid params": the method parameters are invalid.
    pub fn invalid_params(id: JsonValue) -> (r: JsonRpcError)
        ensures
            r@ == error_message_model(id@, INVALID_PARAMS as int, "Invalid params"@),
    {
        JsonRpcError::new(id, INVALID_PARAMS, String::from_str("Invalid params"))
    }

    /// "Internal error".
    pub fn internal_error(id: JsonValue) -> (r: JsonRpcError)
        ensures
            r@ == error_message_model(id@, INTERNAL_ERROR as int, "Internal error"@),
    {
        JsonRpcError::new(id, INTERNAL_ERROR, String::from_str("Internal error"))
    }

    /// "Tool not found", naming the tool in the message.
    pub fn tool_not_found(id: JsonValue, tool_name: &str) -> (r: JsonRpcError)
        ensures
            r@ == error_message_model(
                id@,
                TOOL_NOT_FOUND as int,
                "Tool '"@ + tool_name@ + "' not found"@,
            ),
    {
        let message = String::from_str("Tool '").concat(tool_name).concat("' not found");
        JsonRpcError::new(id, TOOL_NOT_FOUND, message)
    }

    /// "Resource not found", naming the uri in the message.
    pub fn resource_not_found(id: JsonValue, uri: &str) -> (r: JsonRpcError)
        ensures
            r@ == error_message_model(
                id@,
                RESOURCE_NOT_FOUND as int,
                "Resource '"@ + uri@ + "' not found"@,
            ),
    {
        let message = String::from_str("Resource '").concat(uri).concat("' not found");
        JsonRpcError::new(id, RESOURCE_NOT_FOUND, message)
    }
}

} // verus!
