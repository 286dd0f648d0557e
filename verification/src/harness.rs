//! An end-to-end scenario driver.
//!
//! The harness owns a handler under test, an in-memory transport, and a
//! mock client.  It drives the initialize handshake, then offers one-shot
//! operations -- call a tool, read a resource, get a prompt, list tools --
//! each of which builds the canonical request, delivers it through the
//! transport, and decodes the result into its typed shape.  Every
//! operation but `initialize` fails fast with a precondition error while
//! the harness is uninitialized.

use vstd::prelude::*;

use crate::errors::{McpError, McpErrorModel, McpResult};
use crate::json::JsonValue;
use crate::mock_client::MockClient;
use crate::mock_server::{MockServer, Responder};
use crate::protocol::{
    JsonRpcMessage, JsonRpcNotification, JsonRpcRequest, JsonRpcResponse, MessageModel,
};
use crate::results::{
    decode_initialize_result, decode_prompt_result, decode_resource_contents, decode_tool_result,
    decode_tools_list, InitializeResult, PromptResult, ResourceContents, ToolInfo, ToolResult,
};
use std::collections::VecDeque;

verus! {

/// The handler under test: anything that answers requests and absorbs
/// notifications.  `inv` is the handler's own well-formedness, which its
/// operations preserve; nothing else is assumed of its behaviour.
pub trait Handler: Sized {
    /// The handler's own well-formedness.
    spec fn inv(&self) -> bool;

    /// Processes one request: a response, or a failure of the handler's
    /// own.  The response never repeats an object key.
    fn handle_request(&mut self, request: JsonRpcRequest) -> (r: McpResult<JsonRpcResponse>)
        requires
            old(self).inv(),
            request@.wf(),
        ensures
            final(self).inv(),
            r matches Result::Ok(resp) ==> resp@.wf(),
    ;

    /// Performs the side effect of a one-way notification; no reply.
    fn handle_notification(&mut self, notification: JsonRpcNotification)
        requires
            old(self).inv(),
            notification@.wf(),
        ensures
            final(self).inv(),
    ;
}

impl<R: Responder> Handler for MockServer<R> {
    open spec fn inv(&self) -> bool {
        self.wf()
    }

    fn handle_request(&mut self, request: JsonRpcRequest) -> (r: McpResult<JsonRpcResponse>) {
        Result::Ok(self.handle(request))
    }

    fn handle_notification(&mut self, notification: JsonRpcNotification) {
        MockServer::handle_notification(self, notification);
    }
}

/// The models of buffered messages, oldest first.
pub open spec fn msg_models(s: Seq<JsonRpcMessage>) -> Seq<MessageModel> {
    s.map_values(|m: JsonRpcMessage| m@)
}

/// An in-memory transport: a FIFO pipe of messages.  Reads and writes
/// cannot fail; the `Result` shape mirrors the transport contract real
/// pipes satisfy.
pub struct MemoryTransport {
    buffer: VecDeque<JsonRpcMessage>,
}

impl View for MemoryTransport {
    type V = Seq<MessageModel>;

    closed spec fn view(&self) -> Seq<MessageModel> {
        msg_models(self.buffer@)
    }
}

impl MemoryTransport {
    /// Every buffered payload is well formed.
    pub closed spec fn wf(&self) -> bool {
        forall|i: int| 0 <= i < self.buffer@.len() ==> (#[trigger] self.buffer@[i])@.wf()
    }

    /// An empty pipe.
    pub fn new() -> (t: MemoryTransport)
        ensures
            t@ =~= Seq::<MessageModel>::empty(),
            t.wf(),
    {
        MemoryTransport { buffer: VecDeque::new() }
    }

    /// Appends `message` to the pipe.
    pub fn write(&mut self, message: JsonRpcMessage) -> (r: McpResult<()>)
        requires
            old(self).wf(),
            message@.wf(),
        ensures
            final(self).wf(),
            r is Ok,
            final(self)@ == old(self)@.push(message@),
    {
        let ghost b0 = self.buffer@;
        self.buffer.push_back(message);
        proof {
            assert(msg_models(self.buffer@) =~= msg_models(b0).push(
                self.buffer@[b0.len() as int]@,
            ));
        }
        Result::Ok(())
    }

    /// Pops the oldest message, or `None` when the pipe is empty.
    pub fn read(&mut self) -> (r: McpResult<Option<JsonRpcMessage>>)
        requires
            old(self).wf(),
        ensures
            final(self).wf(),
            r is Ok,
            old(self)@.len() == 0 ==> (r matches Result::Ok(m2) && m2 is None) && final(self)@
                == old(self)@,
            old(self)@.len() > 0 ==> {
                &&& r matches Result::Ok(Option::Some(m))
                &&& m@ == old(self)@[0]
                &&& m@.wf()
                &&& final(self)@ == old(self)@.skip(1)
            },
    {
        let ghost b0 = self.buffer@;
        let m = self.buffer.pop_front();
        proof {
            if b0.len() > 0 {
                assert(msg_models(self.buffer@) =~= msg_models(b0).skip(1));
            } else {
                assert(msg_models(self.buffer@) =~= msg_models(b0));
            }
        }
        Result::Ok(m)
    }

    /// Empties the pipe.
    pub fn clear(&mut self)
        requires
            old(self).wf(),
        ensures
            final(self).wf(),
            final(self)@ =~= Seq::<MessageModel>::empty(),
    {
        self.buffer.clear();
    }
}

/// The scenario driver: a handler under test, the transport carrying its
/// traffic, a mock client, and the handshake flag.
pub struct TestHarness<H> {
    /// The handler under test.
    pub handler: H,
    /// The client whose id counter stamps custom requests.
    pub client: MockClient,
    /// The pipe between the harness and the handler.
    pub transport: MemoryTransport,
    /// Whether the initialize handshake has completed.
    initialized: bool,
}

impl<H: Handler> TestHarness<H> {
    /// Everything the harness owns is well formed and the pipe is drained:
    /// each operation leaves no message behind.
    pub closed spec fn wf(&self) -> bool {
        &&& self.handler.inv()
        &&& self.client.wf()
        &&& self.transport.wf()
        &&& self.transport@.len() == 0
    }

    /// Whether the initialize handshake has completed.
    pub closed spec fn is_initialized(&self) -> bool {
        self.initialized
    }

    /// The handler under test, for contracts.
    pub closed spec fn spec_handler(&self) -> H {
        self.handler
    }

    /// The owned client, for contracts.
    pub closed spec fn spec_client(&self) -> MockClient {
        self.client
    }

    /// A harness around `handler`, uninitialized, with a fresh client and
    /// an empty transport.
    pub fn setup(handler: H) -> (h: TestHarness<H>)
        requires
            handler.inv(),
        ensures
            h.wf(),
            !h.is_initialized(),
            h.spec_handler() == handler,
            h.spec_client()@.counter == 1,
            h.spec_client()@.queue.len() == 0,
    {
        TestHarness {
            handler,
            client: MockClient::new(),
            transport: MemoryTransport::new(),
            initialized: false,
        }
    }

    /// The blocking primitive: writes `request` to the transport, has the
    /// handler process exactly one message, and reads the reply back out.
    /// A handler failure is returned as is; a transport inconsistency (no
    /// message where one is owed, or a message of the wrong kind) is a
    /// fatal harness error, never retried.
    pub fn send_request(&mut self, request: JsonRpcRequest) -> (r: McpResult<JsonRpcResponse>)
        requires
            old(self).wf(),
            request@.wf(),
        ensures
            final(self).wf(),
            final(self).is_initialized() == old(self).is_initialized(),
            final(self).spec_client() == old(self).spec_client(),
            r matches Result::Ok(resp) ==> resp@.wf(),
    {
        match self.transport.write(JsonRpcMessage::Request(request)) {
            Result::Ok(()) => {},
            Result::Err(e) => {
                return Result::Err(e);
            },
        }
        let incoming = match self.transport.read() {
            Result::Ok(m) => m,
            Result::Err(e) => {
                return Result::Err(e);
            },
        };
        match incoming {
            Option::Some(JsonRpcMessage::Request(req)) => {
                let response = match self.handler.handle_request(req) {
                    Result::Ok(resp) => resp,
                    Result::Err(e) => {
                        return Result::Err(e);
                    },
                };
                match self.transport.write(JsonRpcMessage::Response(response)) {
                    Result::Ok(()) => {},
                    Result::Err(e) => {
                        return Result::Err(e);
                    },
                }
                match self.transport.read() {
                    Result::Ok(Option::Some(JsonRpcMessage::Response(resp))) => Result::Ok(resp),
                    Result::Ok(_) => Result::Err(
                        McpError::protocol("Expected response message"),
                    ),
                    Result::Err(e) => Result::Err(e),
                }
            },
            Option::Some(_) => Result::Err(McpError::protocol("Expected request message")),
            Option::None => Result::Err(McpError::transport("No message available")),
        }
    }

    /// The one-way primitive: writes `notification` to the transport and
    /// has the handler absorb it.  With an in-memory pipe this cannot
    /// fail.
    pub fn send_notification(&mut self, notification: JsonRpcNotification) -> (r: McpResult<()>)
        requires
            old(self).wf(),
            notification@.wf(),
        ensures
            final(self).wf(),
            final(self).is_initialized() == old(self).is_initialized(),
            final(self).spec_client() == old(self).spec_client(),
            r is Ok,
    {
        match self.transport.write(JsonRpcMessage::Notification(notification)) {
            Result::Ok(()) => {},
            Result::Err(e) => {
                return Result::Err(e);
            },
        }
        match self.transport.read() {
            Result::Ok(Option::Some(JsonRpcMessage::Notification(n))) => {
                self.handler.handle_notification(n);
                Result::Ok(())
            },
            Result::Ok(_) => Result::Err(McpError::protocol("Expected notification message")),
            Result::Err(e) => Result::Err(e),
        }
    }

    /// The handshake: sends the canonical initialize request, requires a
    /// response whose result decodes into an initialize result, then sends
    /// the initialized notification.  Only after all of that does the
    /// harness become ready; any failure leaves it uninitialized, with no
    /// partial-ready state.
    pub fn initialize(&mut self) -> (r: McpResult<InitializeResult>)
        requires
            old(self).wf(),
        ensures
            final(self).wf(),
            r is Ok ==> final(self).is_initialized(),
            r is Err ==> final(self).is_initialized() == old(self).is_initialized(),
    {
        let request = MockClient::create_initialize_request();
        let response = match self.send_request(request) {
            Result::Ok(resp) => resp,
            Result::Err(e) => {
                return Result::Err(e);
            },
        };
        let result = match response.result {
            Option::Some(v) => v,
            Option::None => {
                return Result::Err(McpError::protocol("Initialize response has no result"));
            },
        };
        let init = match decode_initialize_result(&result) {
            Result::Ok(init) => init,
            Result::Err(e) => {
                return Result::Err(e);
            },
        };
        let notification = MockClient::create_initialized_notification();
        match self.send_notification(notification) {
            Result::Ok(()) => {},
            Result::Err(e) => {
                return Result::Err(e);
            },
        }
        self.initialized = true;
        Result::Ok(init)
    }

    /// Calls a tool and decodes the typed result.  Before the handshake
    /// this fails fast with a precondition error and changes nothing.
    pub fn call_tool(&mut self, name: &str, args: JsonValue) -> (r: McpResult<ToolResult>)
        requires
            old(self).wf(),
            args.wf(),
        ensures
            final(self).wf(),
            final(self).is_initialized() == old(self).is_initialized(),
            !old(self).is_initialized() ==> *final(self) == *old(self) && (r matches Result::Err(
                e,
            ) && e@ == McpErrorModel::Protocol("Server not initialized"@)),
    {
        if !self.initialized {
            return Result::Err(McpError::protocol("Server not initialized"));
        }
        let request = MockClient::create_tool_call_request(name, args);
        let response = match self.send_request(request) {
            Result::Ok(resp) => resp,
            Result::Err(e) => {
                return Result::Err(e);
            },
        };
        match response.result {
            Option::Some(v) => decode_tool_result(&v),
            Option::None => Result::Err(McpError::protocol("Tool response has no result")),
        }
    }

    /// Reads a resource and decodes the typed contents.  Before the
    /// handshake this fails fast with a precondition error and changes
    /// nothing.
    pub fn read_resource(&mut self, uri: &str) -> (r: McpResult<ResourceContents>)
        requires
            old(self).wf(),
        ensures
            final(self).wf(),
            final(self).is_initialized() == old(self).is_initialized(),
            !old(self).is_initialized() ==> *final(self) == *old(self) && (r matches Result::Err(
                e,
            ) && e@ == McpErrorModel::Protocol("Server not initialized"@)),
    {
        if !self.initialized {
            return Result::Err(McpError::protocol("Server not initialized"));
        }
        let request = MockClient::create_resource_read_request(uri);
        let response = match self.send_request(request) {
            Result::Ok(resp) => resp,
            Result::Err(e) => {
                return Result::Err(e);
            },
        };
        match response.result {
            Option::Some(v) => decode_resource_contents(&v),
            Option::None => Result::Err(McpError::protocol("Resource response has no result")),
        }
    }

    /// Gets a prompt and decodes the typed result.  Before the handshake
    /// this fails fast with a precondition error and changes nothing.
    pub fn get_prompt(&mut self, name: &str, args: JsonValue) -> (r: McpResult<PromptResult>)
        requires
            old(self).wf(),
            args.wf(),
        ensures
            final(self).wf(),
            final(self).is_initialized() == old(self).is_initialized(),
            !old(self).is_initialized() ==> *final(self) == *old(self) && (r matches Result::Err(
                e,
            ) && e@ == McpErrorModel::Protocol("Server not initialized"@)),
    {
        if !self.initialized {
            return Result::Err(McpError::protocol("Server not initialized"));
        }
        let request = MockClient::create_prompt_get_request(name, args);
        let response = match self.send_request(request) {
            Result::Ok(resp) => resp,
            Result::Err(e) => {
                return Result::Err(e);
            },
        };
        match response.result {
            Option::Some(v) => decode_prompt_result(&v),
            Option::None => Result::Err(McpError::protocol("Prompt response has no result")),
        }
    }

    /// Lists the tools the handler offers.  Before the handshake this
    /// fails fast with a precondition error and changes nothing.
    pub fn list_tools(&mut self) -> (r: McpResult<Vec<ToolInfo>>)
        requires
            old(self).wf(),
        ensures
            final(self).wf(),
            final(self).is_initialized() == old(self).is_initialized(),
            !old(self).is_initialized() ==> *final(self) == *old(self) && (r matches Result::Err(
                e,
            ) && e@ == McpErrorModel::Protocol("Server not initialized"@)),
    {
        if !self.initialized {
            return Result::Err(McpError::protocol("Server not initialized"));
        }
        let request = MockClient::create_list_tools_request();
        let response = match self.send_request(request) {
            Result::Ok(resp) => resp,
            Result::Err(e) => {
                return Result::Err(e);
            },
        };
        match response.result {
            Option::Some(v) => decode_tools_list(&v),
            Option::None => Result::Err(McpError::protocol("List tools response has no result")),
        }
    }

    /// Ready only after the handshake: callers may not ask this of an
    /// uninitialized harness.
    pub fn assert_server_ready(&self)
        requires
            self.is_initialized(),
    {
    }

    /// Whether the handshake has completed.
    pub fn is_ready(&self) -> (r: bool)
        ensures
            r == self.is_initialized(),
    {
        self.initialized
    }

    /// Returns to the uninitialized state: the transport is drained, the
    /// client is replaced by a fresh one, and the handler stays as it is.
    pub fn reset(&mut self)
        requires
            old(self).wf(),
        ensures
            final(self).wf(),
            !final(self).is_initialized(),
            final(self).spec_handler() == old(self).spec_handler(),
            final(self).spec_client()@.counter == 1,
            final(self).spec_client()@.queue.len() == 0,
            final(self).spec_client()@.responses.len() == 0,
    {
        self.transport.clear();
        self.client = MockClient::new();
        self.initialized = false;
    }
}

} // verus!
