//! Session bookkeeping for an inspector built around the harness.
//!
//! An inspector connects to one server at a time, records the connection,
//! and keeps named sessions of past interactions.  The web plumbing around
//! it only moves these plain values; identifiers and timestamps are handed
//! in by the caller.

use vstd::prelude::*;

use crate::errors::{McpError, McpResult};
use crate::json::{jstr, obj1, obj2, obj3, str_eq, JsonRep, JsonValue};
use crate::results::ToolInfo;

verus! {

/// One live connection: where it points and what the peer said of itself.
#[derive(Debug, Clone)]
pub struct ConnectionInfo {
    pub url: String,
    pub transport: String,
    pub connected: bool,
    pub server_name: Option<String>,
    pub server_version: Option<String>,
}

/// A request to open a connection.
#[derive(Debug)]
pub struct ConnectRequest {
    pub url: String,
    pub transport: String,
    pub headers: Option<Vec<(String, String)>>,
}

/// The answer to a connect request.
#[derive(Debug)]
pub struct ConnectResponse {
    pub success: bool,
    pub message: String,
    pub connection_info: Option<ConnectionInfo>,
}

/// A request to save the current interaction as a named session.
#[derive(Debug)]
pub struct SaveSessionRequest {
    pub name: String,
    pub description: Option<String>,
}

/// What a server reports of itself.
#[derive(Debug, Clone)]
pub struct ServerInfo {
    pub name: String,
    pub version: String,
    pub protocol_version: String,
    pub capabilities: Vec<String>,
}

/// One recorded tool invocation.
#[derive(Debug)]
pub struct RequestRecord {
    pub id: String,
    pub tool_name: String,
    pub arguments: JsonValue,
    pub response: Option<JsonValue>,
    pub error: Option<String>,
    pub duration_ms: u64,
    pub timestamp: i64,
}

/// A named, saved interaction: its connection and its recorded requests.
#[derive(Debug)]
pub struct Session {
    pub id: String,
    pub name: String,
    pub description: Option<String>,
    pub connection_info: ConnectionInfo,
    pub created_at: i64,
    pub requests: Vec<RequestRecord>,
}

/// A placeholder client standing where a live connection would: it records
/// where it points and answers with fixed data.
#[derive(Debug)]
pub struct InspectorClient {
    pub url: String,
    pub transport: String,
}

impl InspectorClient {
    /// Records the endpoint; opening the wire is the caller's business.
    pub fn connect(url: &str, transport: &str) -> (r: McpResult<InspectorClient>)
        ensures
            r matches Result::Ok(c) && c.url@ == url@ && c.transport@ == transport@,
    {
        Result::Ok(
            InspectorClient { url: String::from_str(url), transport: String::from_str(transport) },
        )
    }

    /// The fixed identity this placeholder reports.
    pub fn get_server_info(&self) -> (r: McpResult<ServerInfo>)
        ensures
            r matches Result::Ok(s) && s.name@ == "Mock Server"@ && s.version@ == "0.1.0"@
                && s.protocol_version@ == "1.0"@ && s.capabilities@.len() == 1
                && s.capabilities@[0]@ == "tools"@,
    {
        let mut capabilities: Vec<String> = Vec::new();
        capabilities.push(String::from_str("tools"));
        Result::Ok(
            ServerInfo {
                name: String::from_str("Mock Server"),
                version: String::from_str("0.1.0"),
                protocol_version: String::from_str("1.0"),
                capabilities,
            },
        )
    }

    /// The fixed tool listing this placeholder reports: one example tool
    /// taking a single string argument.
    pub fn list_tools(&self) -> (r: McpResult<Vec<ToolInfo>>)
        ensures
            r matches Result::Ok(ts) && ts@.len() == 1 && ts@[0].name@ == "example_tool"@ && (
            ts@[0].description matches Option::Some(d) && d@ == "An example tool for testing"@),
    {
        proof {
            reveal_strlit("type");
            reveal_strlit("properties");
            reveal_strlit("required");
            reveal_strlit("description");
            assert("type"@.len() == 4 && "properties"@.len() == 10 && "required"@.len() == 8);
            assert("description"@.len() == 11);
        }
        let message_schema = obj2(
            "type",
            jstr("string"),
            "description",
            jstr("A test message"),
        );
        let mut required: Vec<JsonValue> = Vec::new();
        required.push(jstr("message"));
        let required_arr = JsonValue::Arr(required);
        proof {
            crate::json::lemma_rep_list_index(required_arr->Arr_0@);
            let lrep = seq![JsonRep::Str("message"@)];
            assert(crate::json::rep_list(required_arr->Arr_0@) =~= lrep);
            assert(lrep.subrange(0, 0) =~= Seq::<JsonRep>::empty());
            assert(crate::json::rep_wf_list(Seq::<JsonRep>::empty()));
            assert(crate::json::rep_wf_list(lrep));
        }
        let input_schema = obj3(
            "type",
            jstr("object"),
            "properties",
            obj1("message", message_schema),
            "required",
            required_arr,
        );
        let mut tools: Vec<ToolInfo> = Vec::new();
        tools.push(
            ToolInfo {
                name: String::from_str("example_tool"),
                description: Option::Some(String::from_str("An example tool for testing")),
                input_schema,
            },
        );
        Result::Ok(tools)
    }

    /// Looks a tool up by name in the listing; unknown names are an error.
    pub fn get_tool(&self, name: &str) -> (r: McpResult<ToolInfo>)
        ensures
            name@ == "example_tool"@ ==> (r matches Result::Ok(t) && t.name@ == name@),
            name@ != "example_tool"@ ==> (r matches Result::Err(e) && e@ is Protocol),
    {
        let tools = match self.list_tools() {
            Result::Ok(ts) => ts,
            Result::Err(e) => {
                return Result::Err(e);
            },
        };
        let mut i: usize = 0;
        while i < tools.len()
            invariant
                0 <= i <= tools@.len(),
                tools@.len() == 1,
                tools@[0].name@ == "example_tool"@,
                forall|j: int| 0 <= j < i ==> (#[trigger] tools@[j]).name@ != name@,
            decreases tools@.len() - i,
        {
            if str_eq(tools[i].name.as_str(), name) {
                let mut ts = tools;
                let t = ts.remove(i);
                return Result::Ok(t);
            }
            i += 1;
        }
        Result::Err(
            McpError::Protocol(String::from_str("Tool not found: ").concat(name)),
        )
    }

    /// Answers an invocation with a fixed acknowledgement naming the tool
    /// and echoing its arguments.
    pub fn invoke_tool(&self, name: &str, arguments: JsonValue) -> (r: McpResult<JsonValue>)
        requires
            arguments.wf(),
        ensures
            r matches Result::Ok(v) && v@ == JsonRep::Obj(
                seq![
                    ("result"@, JsonRep::Str("Mock response"@)),
                    ("tool"@, JsonRep::Str(name@)),
                    ("arguments"@, arguments@),
                ],
            ) && v.wf(),
    {
        proof {
            reveal_strlit("result");
            reveal_strlit("tool");
            reveal_strlit("arguments");
            assert("result"@.len() == 6 && "tool"@.len() == 4 && "arguments"@.len() == 9);
        }
        Result::Ok(
            obj3(
                "result",
                jstr("Mock response"),
                "tool",
                jstr(name),
                "arguments",
                arguments,
            ),
        )
    }
}

/// The sessions kept with `id` removed, order preserved.
pub open spec fn sessions_without(s: Seq<Session>, id: Seq<char>) -> Seq<Session>
    decreases s,
{
    if s.len() == 0 {
        Seq::empty()
    } else {
        let head = sessions_without(s.subrange(0, s.len() - 1), id);
        if s[s.len() - 1].id@ == id {
            head
        } else {
            head.push(s[s.len() - 1])
        }
    }
}

/// The saved sessions, in creation order.
pub struct SessionStore {
    sessions: Vec<Session>,
}

impl SessionStore {
    /// An empty store.
    pub fn new() -> (s: SessionStore)
        ensures
            s.spec_sessions()@.len() == 0,
    {
        SessionStore { sessions: Vec::new() }
    }

    /// Every saved session, in creation order.
    pub fn sessions(&self) -> (r: &Vec<Session>)
        ensures
            r == self.spec_sessions(),
    {
        &self.sessions
    }

    /// The stored sessions, for contracts.
    pub closed spec fn spec_sessions(&self) -> &Vec<Session> {
        &self.sessions
    }

    /// Saves the current connection under a fresh id and timestamp, both
    /// supplied by the caller; with no connection there is nothing to
    /// save and the request fails.
    pub fn save_session(
        &mut self,
        id: String,
        created_at: i64,
        request: SaveSessionRequest,
        connection_info: Option<ConnectionInfo>,
    ) -> (r: McpResult<usize>)
        ensures
            connection_info is None ==> (r matches Result::Err(e) && e@ is Protocol)
                && final(self).spec_sessions() == old(self).spec_sessions(),
            connection_info is Some ==> {
                &&& (r matches Result::Ok(i) && i == old(self).spec_sessions()@.len())
                &&& final(self).spec_sessions()@.len() == old(self).spec_sessions()@.len() + 1
                &&& final(self).spec_sessions()@.subrange(
                    0,
                    old(self).spec_sessions()@.len() as int,
                ) == old(self).spec_sessions()@
                &&& final(self).spec_sessions()@.last().id == id
                &&& final(self).spec_sessions()@.last().name == request.name
                &&& final(self).spec_sessions()@.last().description == request.description
                &&& final(self).spec_sessions()@.last().created_at == created_at
                &&& final(self).spec_sessions()@.last().requests@.len() == 0
            },
    {
        let info = match connection_info {
            Option::Some(info) => info,
            Option::None => {
                return Result::Err(McpError::protocol("No connection to save"));
            },
        };
        let index = self.sessions.len();
        self.sessions.push(
            Session {
                id,
                name: request.name,
                description: request.description,
                connection_info: info,
                created_at,
                requests: Vec::new(),
            },
        );
        proof {
            assert(self.sessions@.subrange(0, self.sessions@.len() - 1) =~= old(self).sessions@);
        }
        Result::Ok(index)
    }

    /// The first saved session carrying `id`, if any.
    pub fn get_session(&self, id: &str) -> (r: Option<&Session>)
        ensures
            match r {
                Option::Some(s) => exists|i: int|
                    0 <= i < self.spec_sessions()@.len() && (#[trigger] self.spec_sessions()@[i]).id@
                        == id@ && s == &self.spec_sessions()@[i],
                Option::None => forall|i: int|
                    0 <= i < self.spec_sessions()@.len() ==> (
                    #[trigger] self.spec_sessions()@[i]).id@ != id@,
            },
    {
        let mut i: usize = 0;
        while i < self.sessions.len()
            invariant
                0 <= i <= self.sessions@.len(),
                forall|j: int| 0 <= j < i ==> (#[trigger] self.sessions@[j]).id@ != id@,
            decreases self.sessions@.len() - i,
        {
            if str_eq(self.sessions[i].id.as_str(), id) {
                return Option::Some(&self.sessions[i]);
            }
            i += 1;
        }
        Option::None
    }

    /// Deletes every session carrying `id`; reports whether any existed.
    pub fn delete_session(&mut self, id: &str) -> (removed: bool)
        ensures
            final(self).spec_sessions()@ == sessions_without(old(self).spec_sessions()@, id@),
            removed <==> exists|i: int|
                0 <= i < old(self).spec_sessions()@.len() && (
                #[trigger] old(self).spec_sessions()@[i]).id@ == id@,
    {
        let ghost orig = self.sessions@;
        let mut kept: Vec<Session> = Vec::new();
        let mut removed = false;
        let mut src: Vec<Session> = Vec::new();
        std::mem::swap(&mut src, &mut self.sessions);
        let mut i: usize = 0;
        let n = src.len();
        while src.len() > 0
            invariant
                orig.len() == n,
                i + src@.len() == orig.len(),
                0 <= i <= orig.len(),
                src@ =~= orig.subrange(i as int, orig.len() as int),
                kept@ =~= sessions_without(orig.subrange(0, i as int), id@),
                removed <==> exists|j: int| 0 <= j < i && (#[trigger] orig[j]).id@ == id@,
            decreases src@.len(),
        {
            let s = src.remove(0);
            proof {
                assert(s == orig[i as int]);
                let p1 = orig.subrange(0, i as int + 1);
                assert(p1.subrange(0, p1.len() - 1) =~= orig.subrange(0, i as int));
                assert(p1[p1.len() - 1] == orig[i as int]);
            }
            if str_eq(s.id.as_str(), id) {
                removed = true;
                proof {
                    assert((#[trigger] orig[i as int]).id@ == id@);
                }
            } else {
                kept.push(s);
            }
            i += 1;
        }
        self.sessions = kept;
        proof {
            assert(orig.subrange(0, orig.len() as int) =~= orig);
        }
        removed
    }
}

} // verus!
