//! A request producer for driving a server under test.
//!
//! The client builds well-formed requests, assigns unique ids from a
//! strictly increasing counter whenever a queued request carries a
//! placeholder id, and queues them in FIFO order.  For bootstrap scenarios
//! it can also self-simulate: [`MockClient::send_next`] answers the oldest
//! queued request with a canned response for a small set of well-known
//! methods, and a method-not-found error for anything else.  That path
//! exercises client-side response handling only; it says nothing about any
//! real handler.

use vstd::prelude::*;

use crate::errors::McpResult;
use crate::json::{arr0, jstr, obj0, obj1, obj2, obj3, str_eq, JsonRep, JsonValue};
use crate::protocol::{
    jsonrpc_version, latest_protocol_version, request_model, success_model, ErrorObject,
    ErrorObjectModel, JsonRpcNotification, JsonRpcRequest, JsonRpcResponse, NotificationModel,
    RequestModel, ResponseModel, METHOD_NOT_FOUND,
};
use std::collections::VecDeque;

verus! {

/// Client identity offered during the initialize handshake.
#[derive(Debug, Clone)]
pub struct ClientInfo {
    pub name: String,
    pub version: String,
}

impl Default for ClientInfo {
    /// The stock identity: `mock-client` at version `1.0.0`.
    fn default() -> (r: Self)
        ensures
            r.name@ == "mock-client"@,
            r.version@ == "1.0.0"@,
    {
        ClientInfo {
            name: String::from_str("mock-client"),
            version: String::from_str("1.0.0"),
        }
    }
}

/// Model of a mock client: the queued requests, the responses collected by
/// self-simulation, the id counter, and the client identity.
#[verifier::ext_equal]
pub struct ClientModel {
    /// Requests waiting to be sent, oldest first.
    pub queue: Seq<RequestModel>,
    /// Responses collected by self-simulation, in send order.
    pub responses: Seq<ResponseModel>,
    /// The next id to assign; starts at 1 and only grows.
    pub counter: int,
    /// The client's name.
    pub name: Seq<char>,
    /// The client's version.
    pub version: Seq<char>,
}

/// An id a builder leaves for [`MockClient::queue_request`] to replace:
/// null, or one of the fixed well-known placeholder strings the request
/// builders use.
pub open spec fn is_placeholder_id(id: JsonRep) -> bool {
    ||| id == JsonRep::Null
    ||| id == JsonRep::Str("test-123"@)
    ||| id == JsonRep::Str("test-tool-123"@)
    ||| id == JsonRep::Str("test-resource-123"@)
    ||| id == JsonRep::Str("test-prompt-123"@)
    ||| id == JsonRep::Str("init-123"@)
    ||| id == JsonRep::Str("init-1"@)
    ||| id == JsonRep::Str("tool-1"@)
    ||| id == JsonRep::Str("resource-1"@)
    ||| id == JsonRep::Str("prompt-1"@)
    ||| id == JsonRep::Str("list-tools-1"@)
    ||| id == JsonRep::Str("list-resources-1"@)
    ||| id == JsonRep::Str("list-prompts-1"@)
}

/// Decides [`is_placeholder_id`].
pub fn is_placeholder(id: &JsonValue) -> (r: bool)
    ensures
        r == is_placeholder_id(id@),
{
    match id {
        JsonValue::Null => true,
        JsonValue::Str(s) => {
            proof {
                assert(id@ == JsonRep::Str(s@));
            }
            let s = s.as_str();
            str_eq(s, "test-123") || str_eq(s, "test-tool-123") || str_eq(s, "test-resource-123")
                || str_eq(s, "test-prompt-123") || str_eq(s, "init-123") || str_eq(s, "init-1")
                || str_eq(s, "tool-1") || str_eq(s, "resource-1") || str_eq(s, "prompt-1")
                || str_eq(s, "list-tools-1") || str_eq(s, "list-resources-1") || str_eq(
                s,
                "list-prompts-1",
            )
        },
        JsonValue::Bool(b) => {
            proof {
                assert(id@ == JsonRep::Bool(*b));
            }
            false
        },
        JsonValue::Int(i) => {
            proof {
                assert(id@ == JsonRep::Int(*i as int));
            }
            false
        },
        JsonValue::Arr(xs) => {
            proof {
                assert(id@ is Arr);
            }
            false
        },
        JsonValue::Obj(fs) => {
            proof {
                assert(id@ is Obj);
            }
            false
        },
    }
}

/// The payload of the canned initialize result the self-simulation path
/// answers with.
pub open spec fn mock_init_result_rep() -> JsonRep {
    JsonRep::Obj(
        seq![
            ("protocolVersion"@, JsonRep::Str("2026-07-28"@)),
            ("capabilities"@, JsonRep::Obj(Seq::empty())),
            (
                "serverInfo"@,
                JsonRep::Obj(
                    seq![
                        ("name"@, JsonRep::Str("mock-server"@)),
                        ("version"@, JsonRep::Str("1.0.0"@)),
                    ],
                ),
            ),
        ],
    )
}

/// What the self-simulation path answers: a canned success for the
/// well-known list and initialize methods, a method-not-found error for
/// everything else.
pub open spec fn mock_response_model(request: RequestModel) -> ResponseModel {
    if request.method == "initialize"@ {
        success_model(request.id, mock_init_result_rep())
    } else if request.method == "tools/list"@ {
        success_model(request.id, JsonRep::Obj(seq![("tools"@, JsonRep::Arr(Seq::empty()))]))
    } else if request.method == "resources/list"@ {
        success_model(request.id, JsonRep::Obj(seq![("resources"@, JsonRep::Arr(Seq::empty()))]))
    } else if request.method == "prompts/list"@ {
        success_model(request.id, JsonRep::Obj(seq![("prompts"@, JsonRep::Arr(Seq::empty()))]))
    } else {
        ResponseModel {
            jsonrpc: "2.0"@,
            id: Option::Some(request.id),
            result: Option::None,
            error: Option::Some(
                ErrorObjectModel {
                    code: METHOD_NOT_FOUND as int,
                    message: "Method not found"@,
                    data: Option::None,
                },
            ),
        }
    }
}

/// The canned responses for a whole queue, in order.
pub open spec fn mock_responses_of(q: Seq<RequestModel>) -> Seq<ResponseModel> {
    q.map_values(|r: RequestModel| mock_response_model(r))
}

/// The models of queued requests, oldest first.
pub open spec fn creq_models(s: Seq<JsonRpcRequest>) -> Seq<RequestModel> {
    s.map_values(|r: JsonRpcRequest| r@)
}

/// The models of collected responses, in send order.
pub open spec fn cresp_models(s: Seq<JsonRpcResponse>) -> Seq<ResponseModel> {
    s.map_values(|r: JsonRpcResponse| r@)
}

/// The mock client.
pub struct MockClient {
    /// Requests waiting to be sent, oldest first.
    request_queue: VecDeque<JsonRpcRequest>,
    /// Responses collected by self-simulation, in send order.
    responses: Vec<JsonRpcResponse>,
    /// The next id to assign to a placeholder request.
    id_counter: u64,
    /// The identity offered during the initialize handshake.
    client_info: ClientInfo,
}

impl View for MockClient {
    type V = ClientModel;

    closed spec fn view(&self) -> ClientModel {
        ClientModel {
            queue: creq_models(self.request_queue@),
            responses: cresp_models(self.responses@),
            counter: self.id_counter as int,
            name: self.client_info.name@,
            version: self.client_info.version@,
        }
    }
}

impl MockClient {
    /// Soundness of the stored state: every queued payload is well formed.
    pub closed spec fn wf(&self) -> bool {
        &&& forall|i: int|
            0 <= i < self.request_queue@.len() ==> (#[trigger] self.request_queue@[i])@.wf()
        &&& forall|i: int| 0 <= i < self.responses@.len() ==> (#[trigger] self.responses@[i])@.wf()
    }

    /// A fresh client with the stock identity; the id counter starts at 1.
    pub fn new() -> (c: MockClient)
        ensures
            c@.queue =~= Seq::<RequestModel>::empty(),
            c@.responses =~= Seq::<ResponseModel>::empty(),
            c@.counter == 1,
            c@.name == "mock-client"@,
            c@.version == "1.0.0"@,
            c.wf(),
    {
        MockClient {
            request_queue: VecDeque::new(),
            responses: Vec::new(),
            id_counter: 1,
            client_info: ClientInfo::default(),
        }
    }

    /// A fresh client with the given identity.
    pub fn with_info(name: String, version: String) -> (c: MockClient)
        ensures
            c@.queue =~= Seq::<RequestModel>::empty(),
            c@.responses =~= Seq::<ResponseModel>::empty(),
            c@.counter == 1,
            c@.name == name@,
            c@.version == version@,
            c.wf(),
    {
        MockClient {
            request_queue: VecDeque::new(),
            responses: Vec::new(),
            id_counter: 1,
            client_info: ClientInfo { name, version },
        }
    }

    /// The next request id: the current counter, which then advances.
    pub fn next_id(&mut self) -> (id: JsonValue)
        requires
            old(self).wf(),
            old(self)@.counter < 0x7fff_ffff_ffff_ffff,
        ensures
            final(self).wf(),
            id@ == JsonRep::Int(old(self)@.counter),
            final(self)@.counter == old(self)@.counter + 1,
            final(self)@.queue == old(self)@.queue,
            final(self)@.responses == old(self)@.responses,
            final(self)@.name == old(self)@.name,
            final(self)@.version == old(self)@.version,
    {
        let id = JsonValue::Int(self.id_counter as i64);
        self.id_counter = self.id_counter + 1;
        id
    }

    /// Appends `request` to the queue.  A placeholder id is first replaced
    /// by the next counter value, so ids assigned this way are unique and
    /// strictly increasing over the client's lifetime.
    pub fn queue_request(&mut self, request: JsonRpcRequest)
        requires
            old(self).wf(),
            request@.wf(),
            old(self)@.counter < 0x7fff_ffff_ffff_ffff,
        ensures
            final(self).wf(),
            is_placeholder_id(request@.id) ==> {
                &&& final(self)@.queue == old(self)@.queue.push(
                    RequestModel { id: JsonRep::Int(old(self)@.counter), ..request@ },
                )
                &&& final(self)@.counter == old(self)@.counter + 1
            },
            !is_placeholder_id(request@.id) ==> {
                &&& final(self)@.queue == old(self)@.queue.push(request@)
                &&& final(self)@.counter == old(self)@.counter
            },
            final(self)@.responses == old(self)@.responses,
            final(self)@.name == old(self)@.name,
            final(self)@.version == old(self)@.version,
    {
        let ghost q0 = self.request_queue@;
        let mut request = request;
        if is_placeholder(&request.id) {
            request.id = self.next_id();
        }
        self.request_queue.push_back(request);
        proof {
            assert(creq_models(self.request_queue@) =~= creq_models(q0).push(
                self.request_queue@[q0.len() as int]@,
            ));
        }
    }

    /// Builds a request from the next counter id and appends it to the
    /// queue.  Construction from structured parameters cannot fail.
    pub fn queue_custom(&mut self, method: &str, params: JsonValue) -> (r: McpResult<()>)
        requires
            old(self).wf(),
            params.wf(),
            old(self)@.counter < 0x7fff_ffff_ffff_ffff,
        ensures
            final(self).wf(),
            r is Ok,
            final(self)@.queue == old(self)@.queue.push(
                request_model(
                    JsonRep::Int(old(self)@.counter),
                    method@,
                    Option::Some(params@),
                ),
            ),
            final(self)@.counter == old(self)@.counter + 1,
            final(self)@.responses == old(self)@.responses,
            final(self)@.name == old(self)@.name,
            final(self)@.version == old(self)@.version,
    {
        let ghost q0 = self.request_queue@;
        let id = self.next_id();
        let request = match JsonRpcRequest::new(
            id,
            String::from_str(method),
            Option::Some(params),
        ) {
            Result::Ok(r) => r,
            Result::Err(e) => {
                return Result::Err(e);
            },
        };
        self.request_queue.push_back(request);
        proof {
            assert(creq_models(self.request_queue@) =~= creq_models(q0).push(
                self.request_queue@[q0.len() as int]@,
            ));
        }
        Result::Ok(())
    }

    /// Pops and returns the oldest queued request, or `None` when the
    /// queue is empty.
    pub fn next_request(&mut self) -> (r: Option<JsonRpcRequest>)
        requires
            old(self).wf(),
        ensures
            final(self).wf(),
            old(self)@.queue.len() == 0 ==> r is None && final(self)@ == old(self)@,
            old(self)@.queue.len() > 0 ==> {
                &&& r is Some
                &&& r->0@ == old(self)@.queue[0]
                &&& r->0@.wf()
                &&& final(self)@.queue == old(self)@.queue.skip(1)
            },
            final(self)@.responses == old(self)@.responses,
            final(self)@.counter == old(self)@.counter,
            final(self)@.name == old(self)@.name,
            final(self)@.version == old(self)@.version,
    {
        let ghost q0 = self.request_queue@;
        let r = self.request_queue.pop_front();
        proof {
            if q0.len() > 0 {
                assert(creq_models(self.request_queue@) =~= creq_models(q0).skip(1));
            } else {
                assert(creq_models(self.request_queue@) =~= creq_models(q0));
            }
        }
        r
    }

    /// The number of requests waiting in the queue.
    pub fn queue_len(&self) -> (n: usize)
        ensures
            n == self@.queue.len(),
    {
        self.request_queue.len()
    }

    /// The canned answer of the self-simulation path for `request`.
    fn create_mock_response(&self, request: &JsonRpcRequest) -> (r: JsonRpcResponse)
        requires
            request@.wf(),
        ensures
            r@ == mock_response_model(request@),
            r@.wf(),
    {
        let method = request.method.as_str();
        if str_eq(method, "initialize") {
            proof {
                reveal_strlit("protocolVersion");
                reveal_strlit("capabilities");
                reveal_strlit("serverInfo");
                reveal_strlit("name");
                reveal_strlit("version");
                assert("name"@.len() == 4 && "version"@.len() == 7);
                assert("protocolVersion"@.len() == 15 && "capabilities"@.len() == 12
                    && "serverInfo"@.len() == 10);
            }
            let server_info = obj2("name", jstr("mock-server"), "version", jstr("1.0.0"));
            let result = obj3(
                "protocolVersion",
                jstr(latest_protocol_version()),
                "capabilities",
                obj0(),
                "serverInfo",
                server_info,
            );
            JsonRpcResponse::success_value(request.id.clone(), result)
        } else if str_eq(method, "tools/list") {
            JsonRpcResponse::success_value(request.id.clone(), obj1("tools", arr0()))
        } else if str_eq(method, "resources/list") {
            JsonRpcResponse::success_value(request.id.clone(), obj1("resources", arr0()))
        } else if str_eq(method, "prompts/list") {
            JsonRpcResponse::success_value(request.id.clone(), obj1("prompts", arr0()))
        } else {
            JsonRpcResponse {
                jsonrpc: String::from_str(jsonrpc_version()),
                id: Option::Some(request.id.clone()),
                result: Option::None,
                error: Option::Some(
                    ErrorObject {
                        code: METHOD_NOT_FOUND,
                        message: String::from_str("Method not found"),
                        data: Option::None,
                    },
                ),
            }
        }
    }

    /// Self-simulation: pops the oldest queued request and synthesizes the
    /// canned response for it, collecting and returning it.  `None` when
    /// the queue is empty.
    pub fn send_next(&mut self) -> (r: Option<JsonRpcResponse>)
        requires
            old(self).wf(),
        ensures
            final(self).wf(),
            old(self)@.queue.len() == 0 ==> r is None && final(self)@ == old(self)@,
            old(self)@.queue.len() > 0 ==> {
                &&& r is Some
                &&& r->0@ == mock_response_model(old(self)@.queue[0])
                &&& final(self)@.queue == old(self)@.queue.skip(1)
                &&& final(self)@.responses == old(self)@.responses.push(r->0@)
            },
            final(self)@.counter == old(self)@.counter,
            final(self)@.name == old(self)@.name,
            final(self)@.version == old(self)@.version,
    {
        match self.next_request() {
            Option::Some(request) => {
                let response = self.create_mock_response(&request);
                let ghost r0 = self.responses@;
                self.responses.push(response.clone());
                proof {
                    assert(cresp_models(self.responses@) =~= cresp_models(r0).push(
                        self.responses@[r0.len() as int]@,
                    ));
                }
                Option::Some(response)
            },
            Option::None => Option::None,
        }
    }

    /// Self-simulation of the whole queue: drains it front to back,
    /// collecting the canned responses in send order.
    pub fn send_all(&mut self) -> (rs: Vec<JsonRpcResponse>)
        requires
            old(self).wf(),
        ensures
            final(self).wf(),
            final(self)@.queue.len() == 0,
            cresp_models(rs@) == mock_responses_of(old(self)@.queue),
            final(self)@.responses == old(self)@.responses + mock_responses_of(old(self)@.queue),
            final(self)@.counter == old(self)@.counter,
            final(self)@.name == old(self)@.name,
            final(self)@.version == old(self)@.version,
    {
        let ghost q0 = self@.queue;
        let ghost r0 = self@.responses;
        let mut rs: Vec<JsonRpcResponse> = Vec::new();
        while self.request_queue.len() > 0
            invariant
                self.wf(),
                rs@.len() <= q0.len(),
                self@.queue.len() == self.request_queue@.len(),
                self@.queue =~= q0.skip(rs@.len() as int),
                cresp_models(rs@) =~= mock_responses_of(q0.subrange(0, rs@.len() as int)),
                self@.responses =~= r0 + cresp_models(rs@),
                self@.counter == old(self)@.counter,
                self@.name == old(self)@.name,
                self@.version == old(self)@.version,
            decreases self@.queue.len(),
        {
            let ghost done = rs@.len() as int;
            match self.send_next() {
                Option::Some(response) => {
                    rs.push(response);
                    proof {
                        assert(q0.skip(done)[0] == q0[done]);
                        assert(self@.queue =~= q0.skip(done + 1));
                        assert(cresp_models(rs@) =~= mock_responses_of(
                            q0.subrange(0, done),
                        ).push(mock_response_model(q0[done])));
                        assert(mock_responses_of(q0.subrange(0, done + 1)) =~= mock_responses_of(
                            q0.subrange(0, done),
                        ).push(mock_response_model(q0[done])));
                        assert(self@.responses =~= r0 + cresp_models(rs@));
                    }
                },
                Option::None => {
                    proof {
                        assert(false);
                    }
                },
            }
        }
        proof {
            assert(rs@.len() == q0.len());
            assert(q0.subrange(0, q0.len() as int) =~= q0);
        }
        rs
    }

    /// The responses collected so far, in send order.
    pub fn responses(&self) -> (r: &Vec<JsonRpcResponse>)
        ensures
            cresp_models(r@) == self@.responses,
    {
        &self.responses
    }

    /// Forgets every collected response.
    pub fn clear_responses(&mut self)
        requires
            old(self).wf(),
        ensures
            final(self).wf(),
            final(self)@.responses =~= Seq::<ResponseModel>::empty(),
            final(self)@.queue == old(self)@.queue,
            final(self)@.counter == old(self)@.counter,
            final(self)@.name == old(self)@.name,
            final(self)@.version == old(self)@.version,
    {
        self.responses.clear();
    }

    /// Succeeds exactly when the response at `index` exists, carries a
    /// result and carries no error.
    pub fn assert_response_success(&self, index: usize) -> (r: Result<(), String>)
        ensures
            r is Ok <==> index < self@.responses.len() && self@.responses[index as int].result
                is Some && self@.responses[index as int].error is None,
    {
        if index >= self.responses.len() {
            return Result::Err(
                String::from_str("Response ").concat(
                    crate::text::usize_to_string(index).as_str(),
                ).concat(" not found"),
            );
        }
        let response = &self.responses[index];
        if response.error.is_some() {
            return Result::Err(
                String::from_str("Response ").concat(
                    crate::text::usize_to_string(index).as_str(),
                ).concat(" has error"),
            );
        }
        if response.result.is_none() {
            return Result::Err(
                String::from_str("Response ").concat(
                    crate::text::usize_to_string(index).as_str(),
                ).concat(" has no result"),
            );
        }
        Result::Ok(())
    }

    /// Succeeds exactly when every collected response carries a result and
    /// no error.
    pub fn assert_all_responses_success(&self) -> (r: Result<(), String>)
        ensures
            r is Ok <==> forall|i: int|
                0 <= i < self@.responses.len() ==> (#[trigger] self@.responses[i]).result is Some
                    && self@.responses[i].error is None,
    {
        let mut i: usize = 0;
        while i < self.responses.len()
            invariant
                0 <= i <= self.responses@.len(),
                self@.responses.len() == self.responses@.len(),
                forall|j: int|
                    0 <= j < self.responses@.len() ==> #[trigger] self@.responses[j]
                        == self.responses@[j]@,
                forall|j: int|
                    0 <= j < i ==> (#[trigger] self@.responses[j]).result is Some
                        && self@.responses[j].error is None,
            decreases self.responses@.len() - i,
        {
            if self.responses[i].error.is_some() {
                proof {
                    assert((#[trigger] self@.responses[i as int]).error is Some);
                }
                return Result::Err(
                    String::from_str("Response ").concat(
                        crate::text::usize_to_string(i).as_str(),
                    ).concat(" has error"),
                );
            }
            if self.responses[i].result.is_none() {
                proof {
                    assert((#[trigger] self@.responses[i as int]).result is None);
                }
                return Result::Err(
                    String::from_str("Response ").concat(
                        crate::text::usize_to_string(i).as_str(),
                    ).concat(" has no result"),
                );
            }
            i += 1;
        }
        Result::Ok(())
    }

    /// The canonical initialize request, under a placeholder id.
    pub fn create_initialize_request() -> (r: JsonRpcRequest)
        ensures
            r@ == request_model(
                JsonRep::Str("init-1"@),
                "initialize"@,
                Option::Some(
                    JsonRep::Obj(
                        seq![
                            ("protocolVersion"@, JsonRep::Str("2026-07-28"@)),
                            ("capabilities"@, JsonRep::Obj(Seq::empty())),
                            (
                                "clientInfo"@,
                                JsonRep::Obj(
                                    seq![
                                        ("name"@, JsonRep::Str("mock-client"@)),
                                        ("version"@, JsonRep::Str("1.0.0"@)),
                                    ],
                                ),
                            ),
                        ],
                    ),
                ),
            ),
            r@.wf(),
            is_placeholder_id(r@.id),
    {
        proof {
            reveal_strlit("protocolVersion");
            reveal_strlit("capabilities");
            reveal_strlit("clientInfo");
            reveal_strlit("name");
            reveal_strlit("version");
            assert("name"@.len() == 4 && "version"@.len() == 7);
            assert("protocolVersion"@.len() == 15 && "capabilities"@.len() == 12
                && "clientInfo"@.len() == 10);
        }
        let client_info = obj2("name", jstr("mock-client"), "version", jstr("1.0.0"));
        let params = obj3(
            "protocolVersion",
            jstr(latest_protocol_version()),
            "capabilities",
            obj0(),
            "clientInfo",
            client_info,
        );
        match JsonRpcRequest::with_params(
            jstr("init-1"),
            String::from_str("initialize"),
            params,
        ) {
            Result::Ok(r) => r,
            Result::Err(_) => JsonRpcRequest::without_params(
                jstr("init-1"),
                String::from_str("initialize"),
            ),
        }
    }

    /// The canonical initialized notification.
    pub fn create_initialized_notification() -> (r: JsonRpcNotification)
        ensures
            r@ == (NotificationModel {
                jsonrpc: "2.0"@,
                method: "notifications/initialized"@,
                params: Option::Some(JsonRep::Obj(Seq::empty())),
            }),
            r@.wf(),
    {
        JsonRpcNotification {
            jsonrpc: String::from_str(jsonrpc_version()),
            method: String::from_str("notifications/initialized"),
            params: Option::Some(obj0()),
        }
    }

    /// The canonical tool-call request, under a placeholder id.
    pub fn create_tool_call_request(name: &str, args: JsonValue) -> (r: JsonRpcRequest)
        requires
            args.wf(),
        ensures
            r@ == request_model(
                JsonRep::Str("tool-1"@),
                "tools/call"@,
                Option::Some(
                    JsonRep::Obj(seq![("name"@, JsonRep::Str(name@)), ("arguments"@, args@)]),
                ),
            ),
            r@.wf(),
            is_placeholder_id(r@.id),
    {
        proof {
            reveal_strlit("name");
            reveal_strlit("arguments");
            assert("name"@.len() == 4 && "arguments"@.len() == 9);
        }
        let params = obj2("name", jstr(name), "arguments", args);
        match JsonRpcRequest::with_params(
            jstr("tool-1"),
            String::from_str("tools/call"),
            params,
        ) {
            Result::Ok(r) => r,
            Result::Err(_) => JsonRpcRequest::without_params(
                jstr("tool-1"),
                String::from_str("tools/call"),
            ),
        }
    }

    /// The canonical resource-read request, under a placeholder id.
    pub fn create_resource_read_request(uri: &str) -> (r: JsonRpcRequest)
        ensures
            r@ == request_model(
                JsonRep::Str("resource-1"@),
                "resources/read"@,
                Option::Some(JsonRep::Obj(seq![("uri"@, JsonRep::Str(uri@))])),
            ),
            r@.wf(),
            is_placeholder_id(r@.id),
    {
        let params = obj1("uri", jstr(uri));
        match JsonRpcRequest::with_params(
            jstr("resource-1"),
            String::from_str("resources/read"),
            params,
        ) {
            Result::Ok(r) => r,
            Result::Err(_) => JsonRpcRequest::without_params(
                jstr("resource-1"),
                String::from_str("resources/read"),
            ),
        }
    }

    /// The canonical prompt-get request, under a placeholder id.
    pub fn create_prompt_get_request(name: &str, args: JsonValue) -> (r: JsonRpcRequest)
        requires
            args.wf(),
        ensures
            r@ == request_model(
                JsonRep::Str("prompt-1"@),
                "prompts/get"@,
                Option::Some(
                    JsonRep::Obj(seq![("name"@, JsonRep::Str(name@)), ("arguments"@, args@)]),
                ),
            ),
            r@.wf(),
            is_placeholder_id(r@.id),
    {
        proof {
            reveal_strlit("name");
            reveal_strlit("arguments");
            assert("name"@.len() == 4 && "arguments"@.len() == 9);
        }
        let params = obj2("name", jstr(name), "arguments", args);
        match JsonRpcRequest::with_params(
            jstr("prompt-1"),
            String::from_str("prompts/get"),
            params,
        ) {
            Result::Ok(r) => r,
            Result::Err(_) => JsonRpcRequest::without_params(
                jstr("prompt-1"),
                String::from_str("prompts/get"),
            ),
        }
    }

    /// The canonical list-tools request, under a placeholder id.
    pub fn create_list_tools_request() -> (r: JsonRpcRequest)
        ensures
            r@ == request_model(JsonRep::Str("list-tools-1"@), "tools/list"@, Option::None),
            r@.wf(),
            is_placeholder_id(r@.id),
    {
        JsonRpcRequest::without_params(jstr("list-tools-1"), String::from_str("tools/list"))
    }

    /// The canonical list-resources request, under a placeholder id.
    pub fn create_list_resources_request() -> (r: JsonRpcRequest)
        ensures
            r@ == request_model(
                JsonRep::Str("list-resources-1"@),
                "resources/list"@,
                Option::None,
            ),
            r@.wf(),
            is_placeholder_id(r@.id),
    {
        JsonRpcRequest::without_params(
            jstr("list-resources-1"),
            String::from_str("resources/list"),
        )
    }

    /// The canonical list-prompts request, under a placeholder id.
    pub fn create_list_prompts_request() -> (r: JsonRpcRequest)
        ensures
            r@ == request_model(JsonRep::Str("list-prompts-1"@), "prompts/list"@, Option::None),
            r@.wf(),
            is_placeholder_id(r@.id),
    {
        JsonRpcRequest::without_params(jstr("list-prompts-1"), String::from_str("prompts/list"))
    }
}

impl Default for MockClient {
    /// The same state as [`MockClient::new`].
    fn default() -> (c: Self)
        ensures
            c@.queue =~= Seq::<RequestModel>::empty(),
            c@.responses =~= Seq::<ResponseModel>::empty(),
            c@.counter == 1,
            c.wf(),
    {
        MockClient::new()
    }
}

/// The transition [`MockClient::queue_request`] makes: the request that is
/// enqueued (with a placeholder id replaced by the counter) and the
/// client's next state.
pub open spec fn queue_step(c: ClientModel, request: RequestModel) -> (ClientModel, RequestModel) {
    if is_placeholder_id(request.id) {
        let assigned = RequestModel { id: JsonRep::Int(c.counter), ..request };
        (ClientModel { queue: c.queue.push(assigned), counter: c.counter + 1, ..c }, assigned)
    } else {
        (ClientModel { queue: c.queue.push(request), ..c }, request)
    }
}

/// Enqueuing never decreases the id counter.
pub proof fn lemma_counter_monotonic(c: ClientModel, request: RequestModel)
    ensures
        queue_step(c, request).0.counter >= c.counter,
{
}

/// Ids assigned to placeholder requests strictly increase: of two
/// placeholder requests enqueued one after the other, the second receives
/// a strictly greater id, whatever was enqueued in between follows by
/// [`lemma_counter_monotonic`].
pub proof fn lemma_assigned_ids_increase(
    c: ClientModel,
    first: RequestModel,
    second: RequestModel,
)
    requires
        is_placeholder_id(first.id),
        is_placeholder_id(second.id),
    ensures
        ({
            let (c1, q1) = queue_step(c, first);
            let (c2, q2) = queue_step(c1, second);
            q2.id->Int_0 > q1.id->Int_0
        }),
{
}

/// The client state after enqueuing a whole sequence of requests.
pub open spec fn run_queue(c: ClientModel, rs: Seq<RequestModel>) -> ClientModel
    decreases rs,
{
    if rs.len() == 0 {
        c
    } else {
        queue_step(run_queue(c, rs.subrange(0, rs.len() - 1)), rs[rs.len() - 1]).0
    }
}

/// The id counter never decreases over any sequence of enqueues.
pub proof fn lemma_run_counter_monotonic(c: ClientModel, rs: Seq<RequestModel>)
    ensures
        run_queue(c, rs).counter >= c.counter,
    decreases rs,
{
    if rs.len() > 0 {
        lemma_run_counter_monotonic(c, rs.subrange(0, rs.len() - 1));
        lemma_counter_monotonic(run_queue(c, rs.subrange(0, rs.len() - 1)), rs[rs.len() - 1]);
    }
}

/// Over any sequence of enqueues, the id assigned to a later placeholder
/// request is strictly greater than the id assigned to any earlier one,
/// whatever was enqueued in between.
pub proof fn lemma_assigned_ids_increase_over_run(
    c: ClientModel,
    rs: Seq<RequestModel>,
    i: int,
    j: int,
)
    requires
        0 <= i < j < rs.len(),
        is_placeholder_id(rs[i].id),
        is_placeholder_id(rs[j].id),
    ensures
        ({
            let before_i = run_queue(c, rs.subrange(0, i));
            let before_j = run_queue(c, rs.subrange(0, j));
            queue_step(before_j, rs[j]).1.id->Int_0 > queue_step(before_i, rs[i]).1.id->Int_0
        }),
{
    let before_i = run_queue(c, rs.subrange(0, i));
    let after_i = queue_step(before_i, rs[i]).0;
    let before_j = run_queue(c, rs.subrange(0, j));
    assert(run_queue(c, rs.subrange(0, i + 1)) == after_i) by {
        assert(rs.subrange(0, i + 1).subrange(0, i) =~= rs.subrange(0, i));
        assert(rs.subrange(0, i + 1)[i] == rs[i]);
    }
    assert(before_j.counter >= after_i.counter) by {
        let middle = rs.subrange(i + 1, j);
        lemma_run_counter_monotonic(after_i, middle);
        lemma_run_prefix(c, rs, i + 1, j);
    }
}

/// Running a longer prefix is running the shorter one and then the rest.
pub proof fn lemma_run_prefix(c: ClientModel, rs: Seq<RequestModel>, k: int, j: int)
    requires
        0 <= k <= j <= rs.len(),
    ensures
        run_queue(c, rs.subrange(0, j)) == run_queue(
            run_queue(c, rs.subrange(0, k)),
            rs.subrange(k, j),
        ),
    decreases j - k,
{
    if k == j {
        assert(rs.subrange(k, j) =~= Seq::<RequestModel>::empty());
    } else {
        lemma_run_prefix(c, rs, k, j - 1);
        assert(rs.subrange(0, j).subrange(0, j - 1) =~= rs.subrange(0, j - 1));
        assert(rs.subrange(0, j)[j - 1] == rs[j - 1]);
        assert(rs.subrange(k, j).subrange(0, j - 1 - k) =~= rs.subrange(k, j - 1));
        assert(rs.subrange(k, j)[j - 1 - k] == rs[j - 1]);
    }
}

} // verus!
