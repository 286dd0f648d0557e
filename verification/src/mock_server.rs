//! A deterministic, assertable stand-in for a request handler.
//!
//! The server holds one FIFO queue of prepared responses per method.  A
//! request consumes the front of its method's queue; when the queue is empty
//! or absent, an installed default responder answers; with no default, the
//! server synthesizes a method-not-found error.  Every request and
//! notification is recorded for later assertion, and [`MockServer::verify`]
//! reports the queues that were never drained.

use vstd::prelude::*;

use crate::json::{rep_wf, JsonRep, JsonValue};
use crate::protocol::{
    ErrorObject, ErrorObjectModel, JsonRpcNotification, JsonRpcRequest, JsonRpcResponse,
    RequestModel, ResponseModel, METHOD_NOT_FOUND,
};
use crate::json::json_eq;
use crate::json::equiv;
use crate::text::dec_rep;
use crate::text::usize_to_string;
use std::collections::VecDeque;

verus! {

/// Model of a mock server: per-method queues of prepared responses and the
/// log of everything received, in arrival order.
#[verifier::ext_equal]
pub struct ServerModel {
    /// Per-method FIFO queues of prepared responses.
    pub expectations: Map<Seq<char>, Seq<ResponseModel>>,
    /// Every request and notification received, oldest first.
    pub received: Seq<RequestModel>,
    /// Whether the server was created in order-enforcing mode.
    pub ordered: bool,
}

impl ServerModel {
    /// The state of a freshly built server.
    pub open spec fn init(ordered: bool) -> ServerModel {
        ServerModel { expectations: Map::empty(), received: Seq::empty(), ordered }
    }

    /// The queue prepared for `method`: empty when none was set up.
    pub open spec fn queue_of(self, method: Seq<char>) -> Seq<ResponseModel> {
        if self.expectations.contains_key(method) {
            self.expectations[method]
        } else {
            Seq::empty()
        }
    }

    /// Whether a prepared response is waiting for `method`.
    pub open spec fn has_expectation(self, method: Seq<char>) -> bool {
        self.queue_of(method).len() > 0
    }

    /// Every expectation queue has been drained.
    pub open spec fn all_met(self) -> bool {
        forall|k: Seq<char>|
            self.expectations.contains_key(k) ==> (#[trigger] self.expectations[k]).len() == 0
    }
}

/// The capability a caller installs as the server's default: any state that
/// can answer a request, with its behaviour pinned by [`Responder::resp_spec`].
pub trait Responder: Sized {
    /// What this responder answers to a request.
    spec fn resp_spec(&self, request: RequestModel) -> ResponseModel;

    /// Answers `request`; the result never repeats an object key.
    fn respond(&self, request: &JsonRpcRequest) -> (r: JsonRpcResponse)
        requires
            request@.wf(),
        ensures
            r@ == self.resp_spec(request@),
            r@.wf(),
    ;
}

/// The model of the error response synthesized for an unmatched method.
pub open spec fn not_found_model(request: RequestModel) -> ResponseModel {
    ResponseModel {
        jsonrpc: "2.0"@,
        id: Option::Some(request.id),
        result: Option::None,
        error: Option::Some(
            ErrorObjectModel {
                code: METHOD_NOT_FOUND as int,
                message: "Unexpected method: "@ + request.method,
                data: Option::None,
            },
        ),
    }
}

/// The responder standing where no default was installed: it answers every
/// request with the same method-not-found error the server itself would
/// synthesize.
pub struct NotFoundResponder;

impl Responder for NotFoundResponder {
    open spec fn resp_spec(&self, request: RequestModel) -> ResponseModel {
        not_found_model(request)
    }

    fn respond(&self, request: &JsonRpcRequest) -> (r: JsonRpcResponse) {
        not_found_response(request)
    }
}

/// Builds the method-not-found error response for `request`.
pub fn not_found_response(request: &JsonRpcRequest) -> (r: JsonRpcResponse)
    requires
        request@.wf(),
    ensures
        r@ == not_found_model(request@),
        r@.wf(),
{
    let message = String::from_str("Unexpected method: ").concat(request.method.as_str());
    JsonRpcResponse {
        jsonrpc: String::from_str(crate::protocol::jsonrpc_version()),
        id: Option::Some(request.id.clone()),
        result: Option::None,
        error: Option::Some(ErrorObject { code: METHOD_NOT_FOUND, message, data: Option::None }),
    }
}

/// A responder that echoes the request's method inside a success result:
/// `{"method": <method>}` under the request's own id.
pub struct EchoMethodResponder;

impl Responder for EchoMethodResponder {
    open spec fn resp_spec(&self, request: RequestModel) -> ResponseModel {
        ResponseModel {
            jsonrpc: "2.0"@,
            id: Option::Some(request.id),
            result: Option::Some(
                JsonRep::Obj(seq![("method"@, JsonRep::Str(request.method))]),
            ),
            error: Option::None,
        }
    }

    fn respond(&self, request: &JsonRpcRequest) -> (r: JsonRpcResponse) {
        let mut fields: Vec<(String, JsonValue)> = Vec::new();
        fields.push(
            (String::from_str("method"), JsonValue::Str(request.method.clone())),
        );
        let result = JsonValue::Obj(fields);
        proof {
            crate::json::lemma_rep_fields_index(result->Obj_0@);
            let frep = seq![("method"@, JsonRep::Str(request@.method))];
            assert(crate::json::rep_fields(result->Obj_0@) =~= frep);
            assert(frep.subrange(0, 0) =~= Seq::<(Seq<char>, JsonRep)>::empty());
            assert(crate::json::rep_wf_fields(Seq::<(Seq<char>, JsonRep)>::empty()));
            assert(rep_wf(frep[0].1));
            assert(crate::json::rep_wf_fields(frep));
            assert(rep_wf(JsonRep::Obj(frep)));
        }
        JsonRpcResponse {
            jsonrpc: String::from_str(crate::protocol::jsonrpc_version()),
            id: Option::Some(request.id.clone()),
            result: Option::Some(result),
            error: Option::None,
        }
    }
}

/// The models of the responses in one queue, front first.
pub open spec fn queue_models(q: Seq<JsonRpcResponse>) -> Seq<ResponseModel> {
    q.map_values(|r: JsonRpcResponse| r@)
}

/// The models of the requests in the received log, oldest first.
pub open spec fn req_models(s: Seq<JsonRpcRequest>) -> Seq<RequestModel> {
    s.map_values(|r: JsonRpcRequest| r@)
}

/// The map carried by an association list of method queues.
pub open spec fn exp_map(s: Seq<(String, VecDeque<JsonRpcResponse>)>) -> Map<
    Seq<char>,
    Seq<ResponseModel>,
>
    decreases s,
{
    if s.len() == 0 {
        Map::empty()
    } else {
        exp_map(s.subrange(0, s.len() - 1)).insert(
            s[s.len() - 1].0@,
            queue_models(s[s.len() - 1].1@),
        )
    }
}

/// No two entries of the association list share a method name.
pub open spec fn entry_keys_unique(s: Seq<(String, VecDeque<JsonRpcResponse>)>) -> bool {
    forall|i: int, j: int|
        0 <= i < s.len() && 0 <= j < s.len() && i != j ==> (#[trigger] s[i].0@) != (
        #[trigger] s[j].0@)
}

/// What the fold says about membership and lookup, entry by entry.
pub proof fn lemma_exp_map_index(s: Seq<(String, VecDeque<JsonRpcResponse>)>)
    requires
        entry_keys_unique(s),
    ensures
        forall|k: Seq<char>|
            #[trigger] exp_map(s).contains_key(k) ==> exists|i: int|
                0 <= i < s.len() && s[i].0@ == k,
        forall|i: int| 0 <= i < s.len() ==> #[trigger] exp_map(s).contains_key(s[i].0@),
        forall|i: int|
            0 <= i < s.len() ==> exp_map(s)[#[trigger] s[i].0@] == queue_models(s[i].1@),
    decreases s,
{
    if s.len() > 0 {
        let head = s.subrange(0, s.len() - 1);
        assert(entry_keys_unique(head)) by {
            assert forall|i: int, j: int|
                0 <= i < head.len() && 0 <= j < head.len() && i != j implies (
            #[trigger] head[i].0@) != (#[trigger] head[j].0@) by {
                assert(head[i] == s[i] && head[j] == s[j]);
            }
        }
        lemma_exp_map_index(head);
        assert forall|k: Seq<char>| #[trigger] exp_map(s).contains_key(k) implies exists|i: int|
            0 <= i < s.len() && s[i].0@ == k by {
            if k == s[s.len() - 1].0@ {
                assert(0 <= s.len() - 1 < s.len() && s[s.len() - 1].0@ == k);
            } else {
                assert(exp_map(head).contains_key(k));
                let i = choose|i: int| 0 <= i < head.len() && head[i].0@ == k;
                assert(head[i] == s[i]);
                assert(0 <= i < s.len() && s[i].0@ == k);
            }
        }
        assert forall|i: int| 0 <= i < s.len() implies exp_map(s)[#[trigger] s[i].0@]
            == queue_models(s[i].1@) by {
            if i < s.len() - 1 {
                assert(head[i] == s[i]);
                assert(s[i].0@ != s[s.len() - 1].0@);
            }
        }
        assert forall|i: int| 0 <= i < s.len() implies #[trigger] exp_map(s).contains_key(
            s[i].0@,
        ) by {
            if i < s.len() - 1 {
                assert(head[i] == s[i]);
            }
        }
    }
}

/// Updating one entry in place updates the map at that entry's key.
pub proof fn lemma_exp_map_update(
    s: Seq<(String, VecDeque<JsonRpcResponse>)>,
    i: int,
    p: (String, VecDeque<JsonRpcResponse>),
)
    requires
        entry_keys_unique(s),
        0 <= i < s.len(),
        p.0@ == s[i].0@,
    ensures
        exp_map(s.update(i, p)) =~= exp_map(s).insert(p.0@, queue_models(p.1@)),
    decreases s,
{
    let head = s.subrange(0, s.len() - 1);
    assert(entry_keys_unique(head)) by {
        assert forall|a: int, b: int|
            0 <= a < head.len() && 0 <= b < head.len() && a != b implies (
        #[trigger] head[a].0@) != (#[trigger] head[b].0@) by {
            assert(head[a] == s[a] && head[b] == s[b]);
        }
    }
    let t = s.update(i, p);
    if i == s.len() - 1 {
        assert(t.subrange(0, t.len() - 1) =~= head);
        assert(exp_map(t) =~= exp_map(head).insert(p.0@, queue_models(p.1@)));
        assert(exp_map(s) =~= exp_map(head).insert(s[i].0@, queue_models(s[i].1@)));
    } else {
        assert(t.subrange(0, t.len() - 1) =~= head.update(i, p));
        lemma_exp_map_update(head, i, p);
        assert(head[i] == s[i]);
        assert(s[i].0@ != s[s.len() - 1].0@);
        assert(exp_map(t) =~= exp_map(head.update(i, p)).insert(
            t[t.len() - 1].0@,
            queue_models(t[t.len() - 1].1@),
        ));
        assert(t[t.len() - 1] == s[s.len() - 1]);
    }
}

/// The mock server.  The type parameter carries the installed default
/// responder; a freshly built server holds none.
pub struct MockServer<R> {
    /// Association list from method name to its FIFO queue of prepared
    /// responses; no method occurs twice.
    expectations: Vec<(String, VecDeque<JsonRpcResponse>)>,
    /// Every request and notification received, oldest first.
    received_requests: Vec<JsonRpcRequest>,
    /// Whether request order is meant to be enforced by the scenario.
    ordered: bool,
    /// The fallback consulted when a method's queue is empty or absent.
    default_response: Option<R>,
}

impl<R> View for MockServer<R> {
    type V = ServerModel;

    closed spec fn view(&self) -> ServerModel {
        ServerModel {
            expectations: exp_map(self.expectations@),
            received: req_models(self.received_requests@),
            ordered: self.ordered,
        }
    }
}

impl<R> MockServer<R> {
    /// Soundness of the stored state: no method occurs twice in the
    /// association list, and every stored payload is well formed.
    pub closed spec fn wf(&self) -> bool {
        &&& entry_keys_unique(self.expectations@)
        &&& forall|i: int, j: int|
            0 <= i < self.expectations@.len() && 0 <= j < self.expectations@[i].1@.len() ==> (
            #[trigger] self.expectations@[i].1@[j])@.wf()
        &&& forall|i: int|
            0 <= i < self.received_requests@.len() ==> (
            #[trigger] self.received_requests@[i])@.wf()
    }

    /// Whether a default responder is installed.
    pub closed spec fn spec_has_default(&self) -> bool {
        self.default_response is Some
    }

    /// The installed default responder, if any.
    pub closed spec fn spec_default(&self) -> Option<R> {
        self.default_response
    }
}

impl MockServer<NotFoundResponder> {
    /// A fresh server: no expectations, an empty log, no default responder.
    pub fn new() -> (s: MockServer<NotFoundResponder>)
        ensures
            s@ == ServerModel::init(false),
            s.wf(),
            !s.spec_has_default(),
    {
        let s = MockServer {
            expectations: Vec::new(),
            received_requests: Vec::new(),
            ordered: false,
            default_response: Option::None,
        };
        proof {
            assert(s@.expectations =~= Map::<Seq<char>, Seq<ResponseModel>>::empty());
            assert(s@.received =~= Seq::<RequestModel>::empty());
        }
        s
    }

    /// A fresh server meant for scenarios that enforce request order.
    pub fn new_ordered() -> (s: MockServer<NotFoundResponder>)
        ensures
            s@ == ServerModel::init(true),
            s.wf(),
            !s.spec_has_default(),
    {
        let s = MockServer {
            expectations: Vec::new(),
            received_requests: Vec::new(),
            ordered: true,
            default_response: Option::None,
        };
        proof {
            assert(s@.expectations =~= Map::<Seq<char>, Seq<ResponseModel>>::empty());
            assert(s@.received =~= Seq::<RequestModel>::empty());
        }
        s
    }
}

impl Default for MockServer<NotFoundResponder> {
    /// The same state as [`MockServer::new`].
    fn default() -> (s: Self)
        ensures
            s@ == ServerModel::init(false),
            s.wf(),
            !s.spec_has_default(),
    {
        MockServer::new()
    }
}

/// Index of the entry for `method`, when the association list has one.
fn find_entry(entries: &Vec<(String, VecDeque<JsonRpcResponse>)>, method: &String) -> (r: Option<
    usize,
>)
    requires
        entry_keys_unique(entries@),
    ensures
        match r {
            Option::Some(i) => i < entries@.len() && entries@[i as int].0@ == method@,
            Option::None => !exp_map(entries@).contains_key(method@),
        },
{
    let mut i: usize = 0;
    while i < entries.len()
        invariant
            0 <= i <= entries@.len(),
            forall|j: int| 0 <= j < i ==> (#[trigger] entries@[j].0@) != method@,
        decreases entries@.len() - i,
    {
        if entries[i].0 == *method {
            return Option::Some(i);
        }
        i += 1;
    }
    proof {
        lemma_exp_map_index(entries@);
        if exp_map(entries@).contains_key(method@) {
            let w = choose|w: int| 0 <= w < entries@.len() && entries@[w].0@ == method@;
            assert(false);
        }
    }
    Option::None
}

impl<R> MockServer<R> {
    /// Makes sure `method` has an entry, creating an empty queue if none
    /// exists; the map holds the same queue for `method` afterwards.
    fn ensure_entry(&mut self, method: &str) -> (idx: usize)
        requires
            old(self).wf(),
        ensures
            final(self).wf(),
            idx < final(self).expectations@.len(),
            final(self).expectations@[idx as int].0@ == method@,
            final(self)@.expectations =~= old(self)@.expectations.insert(
                method@,
                old(self)@.queue_of(method@),
            ),
            final(self)@.received == old(self)@.received,
            final(self)@.ordered == old(self)@.ordered,
            final(self).received_requests == old(self).received_requests,
            final(self).spec_default() == old(self).spec_default(),
            queue_models(final(self).expectations@[idx as int].1@) == old(self)@.queue_of(method@),
    {
        let owned = String::from_str(method);
        proof {
            lemma_exp_map_index(self.expectations@);
        }
        match find_entry(&self.expectations, &owned) {
            Option::Some(i) => {
                proof {
                    assert(self@.expectations.contains_key(method@));
                    assert(self@.expectations[method@] == queue_models(
                        self.expectations@[i as int].1@,
                    ));
                    assert(self@.expectations =~= self@.expectations.insert(
                        method@,
                        self@.queue_of(method@),
                    ));
                }
                i
            },
            Option::None => {
                let ghost before = self.expectations@;
                let q: VecDeque<JsonRpcResponse> = VecDeque::new();
                self.expectations.push((owned, q));
                let idx = self.expectations.len() - 1;
                proof {
                    assert(self.expectations@.subrange(0, self.expectations@.len() - 1)
                        =~= before);
                    assert(exp_map(self.expectations@) =~= exp_map(before).insert(
                        method@,
                        queue_models(Seq::empty()),
                    ));
                    assert(queue_models(Seq::empty()) =~= Seq::<ResponseModel>::empty());
                    assert(entry_keys_unique(self.expectations@)) by {
                        lemma_exp_map_index(before);
                        assert forall|a: int, b: int|
                            0 <= a < self.expectations@.len() && 0 <= b
                                < self.expectations@.len() && a != b implies (
                        #[trigger] self.expectations@[a].0@) != (
                        #[trigger] self.expectations@[b].0@) by {
                            if b == self.expectations@.len() - 1 {
                                assert(self.expectations@[a] == before[a]);
                                assert(exp_map(before).contains_key(before[a].0@));
                            } else if a == self.expectations@.len() - 1 {
                                assert(self.expectations@[b] == before[b]);
                                assert(exp_map(before).contains_key(before[b].0@));
                            } else {
                                assert(self.expectations@[a] == before[a]);
                                assert(self.expectations@[b] == before[b]);
                            }
                        }
                    }
                }
                idx
            },
        }
    }

    /// Appends `response` to `method`'s FIFO queue of prepared responses.
    pub fn expect_request(&mut self, method: &str, response: JsonRpcResponse)
        requires
            old(self).wf(),
            response@.wf(),
        ensures
            final(self).wf(),
            final(self)@.expectations =~= old(self)@.expectations.insert(
                method@,
                old(self)@.queue_of(method@).push(response@),
            ),
            final(self)@.received == old(self)@.received,
            final(self)@.ordered == old(self)@.ordered,
            final(self).spec_default() == old(self).spec_default(),
    {
        let ghost m0 = self@;
        let i = self.ensure_entry(method);
        let ghost entries1 = self.expectations@;
        let mut pair = self.expectations.remove(i);
        pair.1.push_back(response);
        self.expectations.insert(i, pair);
        proof {
            assert(self.expectations@ =~= entries1.update(
                i as int,
                self.expectations@[i as int],
            ));
            assert(self.expectations@[i as int].0@ == method@);
            assert(self.expectations@[i as int].1@ == entries1[i as int].1@.push(response));
            lemma_exp_map_update(entries1, i as int, self.expectations@[i as int]);
            assert(queue_models(entries1[i as int].1@.push(response)) =~= queue_models(
                entries1[i as int].1@,
            ).push(response@));
            assert(self@.expectations =~= m0.expectations.insert(
                method@,
                m0.queue_of(method@).push(response@),
            ));
            assert(entry_keys_unique(self.expectations@)) by {
                assert forall|a: int, b: int|
                    0 <= a < self.expectations@.len() && 0 <= b < self.expectations@.len() && a
                        != b implies (#[trigger] self.expectations@[a].0@) != (
                #[trigger] self.expectations@[b].0@) by {
                    assert(self.expectations@[a].0@ == entries1[a].0@);
                    assert(self.expectations@[b].0@ == entries1[b].0@);
                }
            }
        }
    }

    /// Appends each of `responses` to `method`'s queue, preserving their
    /// order.
    pub fn expect_requests(&mut self, method: &str, responses: Vec<JsonRpcResponse>)
        requires
            old(self).wf(),
            forall|i: int| 0 <= i < responses@.len() ==> (#[trigger] responses@[i])@.wf(),
        ensures
            final(self).wf(),
            final(self)@.expectations =~= old(self)@.expectations.insert(
                method@,
                old(self)@.queue_of(method@) + queue_models(responses@),
            ),
            final(self)@.received == old(self)@.received,
            final(self)@.ordered == old(self)@.ordered,
            final(self).spec_default() == old(self).spec_default(),
    {
        let ghost m0 = self@;
        let ghost orig = responses@;
        let total = responses.len();
        self.ensure_entry(method);
        let mut rs = responses;
        let mut k: usize = 0;
        while rs.len() > 0
            invariant
                self.wf(),
                orig.len() == total,
                k + rs@.len() == orig.len(),
                rs@ =~= orig.subrange(k as int, orig.len() as int),
                forall|i: int| 0 <= i < orig.len() ==> (#[trigger] orig[i])@.wf(),
                self@.expectations =~= m0.expectations.insert(
                    method@,
                    m0.queue_of(method@) + queue_models(orig.subrange(0, k as int)),
                ),
                self@.received == m0.received,
                self@.ordered == m0.ordered,
                self.spec_default() == old(self).spec_default(),
            decreases rs@.len(),
        {
            let r = rs.remove(0);
            proof {
                assert(r == orig[k as int]);
                assert(r@.wf());
            }
            let ghost mk = self@;
            self.expect_request(method, r);
            proof {
                assert(mk.queue_of(method@) == m0.queue_of(method@) + queue_models(
                    orig.subrange(0, k as int),
                ));
                assert(queue_models(orig.subrange(0, k as int)).push(r@) =~= queue_models(
                    orig.subrange(0, k as int + 1),
                ));
                assert((m0.queue_of(method@) + queue_models(orig.subrange(0, k as int))).push(r@)
                    =~= m0.queue_of(method@) + queue_models(orig.subrange(0, k as int + 1)));
                assert(self@.expectations =~= m0.expectations.insert(
                    method@,
                    m0.queue_of(method@) + queue_models(orig.subrange(0, k as int + 1)),
                ));
            }
            k += 1;
        }
        proof {
            assert(orig.subrange(0, orig.len() as int) =~= orig);
        }
    }

    /// Installs `responder` as the fallback for methods whose queue is
    /// empty or absent.
    pub fn with_default_response<R2>(self, responder: R2) -> (s: MockServer<R2>)
        requires
            self.wf(),
        ensures
            s.wf(),
            s@ == self@,
            s.spec_default() == Option::Some(responder),
    {
        MockServer {
            expectations: self.expectations,
            received_requests: self.received_requests,
            ordered: self.ordered,
            default_response: Option::Some(responder),
        }
    }

    /// Clears the expectation queues and the received log; an installed
    /// default responder stays.
    pub fn reset(&mut self)
        requires
            old(self).wf(),
        ensures
            final(self).wf(),
            final(self)@.expectations =~= Map::<Seq<char>, Seq<ResponseModel>>::empty(),
            final(self)@.received =~= Seq::<RequestModel>::empty(),
            final(self)@.ordered == old(self)@.ordered,
            final(self).spec_default() == old(self).spec_default(),
    {
        self.expectations.clear();
        self.received_requests.clear();
    }
}

impl<R: Responder> MockServer<R> {
    /// Answers `request` by the three-tier policy and records it.
    ///
    /// When `request`'s method has a prepared response waiting, the front of
    /// its FIFO queue is consumed and returned with its id overwritten by
    /// the request's id.  Otherwise an installed default responder answers;
    /// with none, a method-not-found error response is synthesized.  The
    /// request is appended to the received log in every case; queues of
    /// other methods are never touched.
    pub fn handle(&mut self, request: JsonRpcRequest) -> (r: JsonRpcResponse)
        requires
            old(self).wf(),
            request@.wf(),
        ensures
            final(self).wf(),
            final(self)@.received == old(self)@.received.push(request@),
            final(self)@.ordered == old(self)@.ordered,
            final(self).spec_default() == old(self).spec_default(),
            old(self)@.has_expectation(request@.method) ==> {
                &&& r@ == old(self)@.queue_of(request@.method)[0].with_id(request@.id)
                &&& final(self)@.expectations == old(self)@.expectations.insert(
                    request@.method,
                    old(self)@.expectations[request@.method].skip(1),
                )
            },
            !old(self)@.has_expectation(request@.method) ==> final(self)@.expectations == old(
                self,
            )@.expectations,
            !old(self)@.has_expectation(request@.method) && old(self).spec_default() is Some
                ==> r@ == old(self).spec_default()->0.resp_spec(request@),
            !old(self)@.has_expectation(request@.method) && old(self).spec_default() is None
                ==> r@ == not_found_model(request@),
            r@.wf(),
    {
        let ghost m0 = self@;
        let ghost entries0 = self.expectations@;
        proof {
            lemma_exp_map_index(entries0);
        }
        let mut matched: Option<JsonRpcResponse> = Option::None;
        match find_entry(&self.expectations, &request.method) {
            Option::Some(i) => {
                let mut pair = self.expectations.remove(i);
                let popped = pair.1.pop_front();
                self.expectations.insert(i, pair);
                proof {
                    assert(self.expectations@ =~= entries0.update(
                        i as int,
                        self.expectations@[i as int],
                    ));
                    assert(self.expectations@[i as int].0@ == request@.method);
                    lemma_exp_map_update(entries0, i as int, self.expectations@[i as int]);
                    if entries0[i as int].1@.len() > 0 {
                        assert(queue_models(
                            entries0[i as int].1@.subrange(1, entries0[i as int].1@.len() as int),
                        ) =~= queue_models(entries0[i as int].1@).skip(1));
                        assert(m0.queue_of(request@.method) == queue_models(
                            entries0[i as int].1@,
                        ));
                        assert(exp_map(self.expectations@) =~= m0.expectations.insert(
                            request@.method,
                            m0.expectations[request@.method].skip(1),
                        ));
                    } else {
                        assert(queue_models(entries0[i as int].1@) =~= queue_models(
                            self.expectations@[i as int].1@,
                        ));
                        assert(exp_map(self.expectations@) =~= m0.expectations);
                    }
                    assert(entry_keys_unique(self.expectations@)) by {
                        assert forall|a: int, b: int|
                            0 <= a < self.expectations@.len() && 0 <= b
                                < self.expectations@.len() && a != b implies (
                        #[trigger] self.expectations@[a].0@) != (
                        #[trigger] self.expectations@[b].0@) by {
                            assert(self.expectations@[a].0@ == entries0[a].0@);
                            assert(self.expectations@[b].0@ == entries0[b].0@);
                        }
                    }
                }
                matched = popped;
            },
            Option::None => {
                proof {
                    assert(!m0.expectations.contains_key(request@.method));
                }
            },
        }
        let response = match matched {
            Option::Some(mut resp) => {
                resp.id = Option::Some(request.id.clone());
                resp
            },
            Option::None => {
                match &self.default_response {
                    Option::Some(responder) => responder.respond(&request),
                    Option::None => not_found_response(&request),
                }
            },
        };
        let ghost received0 = self.received_requests@;
        self.received_requests.push(request);
        proof {
            assert(req_models(self.received_requests@) =~= req_models(received0).push(
                self.received_requests@[received0.len() as int]@,
            ));
        }
        response
    }

    /// Records `notification` in the received log as an entry without an
    /// id; expectations are never consulted and no reply is produced.
    pub fn handle_notification(&mut self, notification: JsonRpcNotification)
        requires
            old(self).wf(),
            notification@.wf(),
        ensures
            final(self).wf(),
            final(self)@.received == old(self)@.received.push(
                RequestModel {
                    jsonrpc: notification@.jsonrpc,
                    id: JsonRep::Null,
                    method: notification@.method,
                    params: notification@.params,
                },
            ),
            final(self)@.expectations == old(self)@.expectations,
            final(self)@.ordered == old(self)@.ordered,
            final(self).spec_default() == old(self).spec_default(),
    {
        let request = JsonRpcRequest {
            jsonrpc: notification.jsonrpc,
            id: JsonValue::Null,
            method: notification.method,
            params: notification.params,
        };
        let ghost received0 = self.received_requests@;
        self.received_requests.push(request);
        proof {
            assert(req_models(self.received_requests@) =~= req_models(received0).push(
                self.received_requests@[received0.len() as int]@,
            ));
        }
    }
}

/// The text of one unmet entry: `method (count remaining)`.
pub open spec fn entry_text(p: (Seq<char>, nat)) -> Seq<char> {
    p.0 + " ("@ + dec_rep(p.1) + " remaining)"@
}

/// The unmet entries joined with `", "`.
pub open spec fn entries_text(u: Seq<(Seq<char>, nat)>) -> Seq<char>
    decreases u,
{
    if u.len() == 0 {
        Seq::empty()
    } else if u.len() == 1 {
        entry_text(u[0])
    } else {
        entries_text(u.subrange(0, u.len() - 1)) + ", "@ + entry_text(u[u.len() - 1])
    }
}

/// The unmet report `u` is faithful to `m`: each entry names a method
/// whose queue still holds exactly that many responses, every such method
/// appears, and none appears twice.
pub open spec fn unmet_report_ok(m: ServerModel, u: Seq<(Seq<char>, nat)>) -> bool {
    &&& forall|i: int|
        0 <= i < u.len() ==> m.expectations.contains_key((#[trigger] u[i]).0)
            && m.expectations[u[i].0].len() == u[i].1 && u[i].1 > 0
    &&& forall|k: Seq<char>|
        m.expectations.contains_key(k) && (#[trigger] m.expectations[k]).len() > 0 ==> exists|
            i: int,
        | 0 <= i < u.len() && (#[trigger] u[i]).0 == k
    &&& forall|i: int, j: int|
        0 <= i < u.len() && 0 <= j < u.len() && i != j ==> (#[trigger] u[i]).0 != (
        #[trigger] u[j]).0
}

/// The failure [`MockServer::verify`] returns: every method whose
/// expectation queue still holds responses, with the remaining count.
#[derive(Debug)]
pub struct VerifyError {
    /// Each method with a non-empty queue, paired with how many prepared
    /// responses were never consumed.
    pub unmet: Vec<(String, usize)>,
}

impl View for VerifyError {
    type V = Seq<(Seq<char>, nat)>;

    open spec fn view(&self) -> Seq<(Seq<char>, nat)> {
        self.unmet@.map_values(|p: (String, usize)| (p.0@, p.1 as nat))
    }
}

impl VerifyError {
    /// One line naming every unmet method and its remaining count.
    pub fn message(&self) -> (s: String)
        ensures
            s@ == "Unmet expectations for methods: "@ + entries_text(self@),
    {
        let mut s = String::from_str("Unmet expectations for methods: ");
        let mut i: usize = 0;
        while i < self.unmet.len()
            invariant
                0 <= i <= self.unmet@.len(),
                self@.len() == self.unmet@.len(),
                forall|j: int|
                    0 <= j < self.unmet@.len() ==> #[trigger] self@[j] == (
                    self.unmet@[j].0@,
                    self.unmet@[j].1 as nat,
                    ),
                s@ == "Unmet expectations for methods: "@ + entries_text(
                    self@.subrange(0, i as int),
                ),
            decreases self.unmet@.len() - i,
        {
            if i > 0 {
                s.append(", ");
            }
            s.append(self.unmet[i].0.as_str());
            s.append(" (");
            let count = usize_to_string(self.unmet[i].1);
            s.append(count.as_str());
            s.append(" remaining)");
            proof {
                let prefix = self@.subrange(0, i as int);
                let prefix1 = self@.subrange(0, i as int + 1);
                assert(prefix1.subrange(0, prefix1.len() - 1) =~= prefix);
                assert(prefix1[prefix1.len() - 1] == self@[i as int]);
                if i == 0 {
                    assert(entries_text(prefix1) == entry_text(self@[0]));
                    assert(s@ =~= "Unmet expectations for methods: "@ + entries_text(prefix1));
                } else {
                    assert(entries_text(prefix1) == entries_text(prefix) + ", "@ + entry_text(
                        self@[i as int],
                    ));
                    assert(s@ =~= "Unmet expectations for methods: "@ + entries_text(prefix1));
                }
            }
            i += 1;
        }
        proof {
            assert(self@.subrange(0, self@.len() as int) =~= self@);
        }
        s
    }
}

impl<R> MockServer<R> {
    /// Succeeds exactly when every expectation queue has been drained;
    /// fails naming each method with a non-empty queue and its remaining
    /// count, each method once.
    #[verifier::rlimit(50)]
    #[verifier::spinoff_prover]
    pub fn verify(&self) -> (r: Result<(), VerifyError>)
        requires
            self.wf(),
        ensures
            r is Ok <==> self@.all_met(),
            r matches Result::Err(e) ==> unmet_report_ok(self@, e@),
    {
        proof {
            lemma_exp_map_index(self.expectations@);
        }
        let mut unmet: Vec<(String, usize)> = Vec::new();
        let mut i: usize = 0;
        while i < self.expectations.len()
            invariant
                self.wf(),
                0 <= i <= self.expectations@.len(),
                forall|j: int|
                    0 <= j < self.expectations@.len()
                        ==> #[trigger] self@.expectations.contains_key(
                        self.expectations@[j].0@,
                    ) && self@.expectations[self.expectations@[j].0@] == queue_models(
                        self.expectations@[j].1@,
                    ),
                forall|k: Seq<char>|
                    #[trigger] self@.expectations.contains_key(k) ==> exists|j: int|
                        0 <= j < self.expectations@.len() && self.expectations@[j].0@ == k,
                forall|w: int|
                    0 <= w < unmet@.len() ==> exists|j: int|
                        0 <= j < i && (#[trigger] unmet@[w]).0@ == self.expectations@[j].0@
                            && unmet@[w].1 == self.expectations@[j].1@.len(),
                forall|j: int|
                    0 <= j < i && (#[trigger] self.expectations@[j].1@).len() > 0 ==> exists|
                        w: int,
                    |
                        0 <= w < unmet@.len() && (#[trigger] unmet@[w]).0@
                            == self.expectations@[j].0@,
                forall|w: int|
                    0 <= w < unmet@.len() ==> (#[trigger] unmet@[w]).1 > 0,
                forall|w1: int, w2: int|
                    0 <= w1 < unmet@.len() && 0 <= w2 < unmet@.len() && w1 != w2 ==> (
                    #[trigger] unmet@[w1]).0@ != (#[trigger] unmet@[w2]).0@,
            decreases self.expectations@.len() - i,
        {
            let ghost unmet0 = unmet@;
            let qlen = self.expectations[i].1.len();
            if qlen > 0 {
                let name = self.expectations[i].0.clone();
                unmet.push((name, qlen));
                proof {
                    assert(unmet@[unmet@.len() - 1].0@ == self.expectations@[i as int].0@);
                }
            }
            proof {
                assert forall|j: int|
                    0 <= j < i + 1 && (#[trigger] self.expectations@[j].1@).len() > 0 implies
                    exists|w: int|
                        0 <= w < unmet@.len() && (#[trigger] unmet@[w]).0@
                            == self.expectations@[j].0@ by {
                    if j == i as int {
                        assert(unmet@[unmet@.len() - 1].0@ == self.expectations@[j].0@);
                    } else {
                        let w = choose|w: int|
                            0 <= w < unmet0.len() && (#[trigger] unmet0[w]).0@
                                == self.expectations@[j].0@;
                        assert(unmet@[w].0@ == self.expectations@[j].0@);
                    }
                }
            }
            i += 1;
        }
        if unmet.len() == 0 {
            proof {
                assert forall|k: Seq<char>|
                    self@.expectations.contains_key(k) implies (
                #[trigger] self@.expectations[k]).len() == 0 by {
                    let j = choose|j: int|
                        0 <= j < self.expectations@.len() && self.expectations@[j].0@ == k;
                    assert(self@.expectations[k] == queue_models(self.expectations@[j].1@));
                }
            }
            Result::Ok(())
        } else {
            let ghost u = unmet@;
            let ghost uv = u.map_values(|p: (String, usize)| (p.0@, p.1 as nat));
            proof {
                assert forall|i1: int| 0 <= i1 < uv.len() implies self@.expectations.contains_key(
                    (#[trigger] uv[i1]).0,
                ) && self@.expectations[uv[i1].0].len() == uv[i1].1 && uv[i1].1 > 0 by {
                    assert(uv[i1] == (u[i1].0@, u[i1].1 as nat));
                    let j = choose|j: int|
                        0 <= j < self.expectations@.len() && (#[trigger] u[i1]).0@
                            == self.expectations@[j].0@ && u[i1].1
                            == self.expectations@[j].1@.len();
                    assert(self@.expectations[self.expectations@[j].0@] == queue_models(
                        self.expectations@[j].1@,
                    ));
                }
                assert(!self@.all_met()) by {
                    assert(uv[0].1 > 0 && self@.expectations.contains_key(uv[0].0)
                        && self@.expectations[uv[0].0].len() == uv[0].1);
                }
                assert forall|i1: int, j1: int|
                    0 <= i1 < uv.len() && 0 <= j1 < uv.len() && i1 != j1 implies (
                #[trigger] uv[i1]).0 != (#[trigger] uv[j1]).0 by {
                    assert(u[i1].0@ != u[j1].0@);
                    assert(uv[i1] == (u[i1].0@, u[i1].1 as nat));
                    assert(uv[j1] == (u[j1].0@, u[j1].1 as nat));
                }
                assert forall|k: Seq<char>|
                    self@.expectations.contains_key(k) && (
                #[trigger] self@.expectations[k]).len() > 0 implies exists|w: int|
                    0 <= w < uv.len() && (#[trigger] uv[w]).0 == k by {
                    let j = choose|j: int|
                        0 <= j < self.expectations@.len() && self.expectations@[j].0@ == k;
                    assert(self@.expectations[k] == queue_models(self.expectations@[j].1@));
                    assert(self.expectations@[j].1@.len() > 0);
                    let w = choose|w: int|
                        0 <= w < u.len() && (#[trigger] u[w]).0@ == self.expectations@[j].0@;
                    assert(uv[w] == (u[w].0@, u[w].1 as nat));
                    assert(0 <= w < uv.len() && uv[w].0 == k);
                }
            }
            let e = VerifyError { unmet };
            proof {
                assert(unmet_report_ok(self@, uv));
                assert(e@ =~= uv);
                assert(unmet_report_ok(self@, e@));
            }
            Result::Err(e)
        }
    }
}

/// How many received entries carry `method`.
pub open spec fn count_method(s: Seq<RequestModel>, method: Seq<char>) -> nat
    decreases s,
{
    if s.len() == 0 {
        0
    } else {
        count_method(s.subrange(0, s.len() - 1), method) + if s[s.len() - 1].method == method {
            1nat
        } else {
            0nat
        }
    }
}

impl<R> MockServer<R> {
    /// The received log: every request and notification, oldest first.
    pub fn received_requests(&self) -> (r: &Vec<JsonRpcRequest>)
        ensures
            req_models(r@) == self@.received,
    {
        &self.received_requests
    }

    /// How many received entries carry `method`.
    pub fn request_count(&self, method: &str) -> (n: usize)
        ensures
            n == count_method(self@.received, method@),
    {
        let mut n: usize = 0;
        let mut i: usize = 0;
        while i < self.received_requests.len()
            invariant
                0 <= i <= self.received_requests@.len(),
                self@.received.len() == self.received_requests@.len(),
                forall|j: int|
                    0 <= j < self.received_requests@.len() ==> #[trigger] self@.received[j]
                        == self.received_requests@[j]@,
                n <= i,
                n == count_method(self@.received.subrange(0, i as int), method@),
            decreases self.received_requests@.len() - i,
        {
            let hit = crate::json::str_eq(self.received_requests[i].method.as_str(), method);
            proof {
                let p = self@.received.subrange(0, i as int + 1);
                assert(p.subrange(0, p.len() - 1) =~= self@.received.subrange(0, i as int));
                assert(p[p.len() - 1] == self@.received[i as int]);
            }
            if hit {
                n += 1;
            }
            i += 1;
        }
        proof {
            assert(self@.received.subrange(0, self@.received.len() as int) =~= self@.received);
        }
        n
    }

    /// Succeeds exactly when some received entry carries `method`.
    pub fn assert_request_received(&self, method: &str) -> (r: Result<(), String>)
        ensures
            r is Ok <==> exists|i: int|
                0 <= i < self@.received.len() && (#[trigger] self@.received[i]).method == method@,
            r matches Result::Err(m) ==> m@ == "Expected request '"@ + method@
                + "' was not received"@,
    {
        let mut i: usize = 0;
        while i < self.received_requests.len()
            invariant
                0 <= i <= self.received_requests@.len(),
                self@.received.len() == self.received_requests@.len(),
                forall|j: int|
                    0 <= j < self.received_requests@.len() ==> #[trigger] self@.received[j]
                        == self.received_requests@[j]@,
                forall|j: int| 0 <= j < i ==> (#[trigger] self@.received[j]).method != method@,
            decreases self.received_requests@.len() - i,
        {
            if crate::json::str_eq(self.received_requests[i].method.as_str(), method) {
                proof {
                    assert((#[trigger] self@.received[i as int]).method == method@);
                }
                return Result::Ok(());
            }
            i += 1;
        }
        Result::Err(
            String::from_str("Expected request '").concat(method).concat("' was not received"),
        )
    }

    /// Succeeds exactly when some received entry carries `method` together
    /// with parameters equal to `params`, as JSON values.
    pub fn assert_request_with_params(&self, method: &str, params: JsonValue) -> (r: Result<
        (),
        String,
    >)
        requires
            self.wf(),
            params.wf(),
        ensures
            r is Ok <==> exists|i: int|
                0 <= i < self@.received.len() && (#[trigger] self@.received[i]).method == method@
                    && self@.received[i].params is Some && equiv(
                    self@.received[i].params->0,
                    params@,
                ),
            r matches Result::Err(m) ==> m@ == "Request '"@ + method@
                + "' with expected params was not received"@,
    {
        let mut i: usize = 0;
        while i < self.received_requests.len()
            invariant
                self.wf(),
                params.wf(),
                0 <= i <= self.received_requests@.len(),
                self@.received.len() == self.received_requests@.len(),
                forall|j: int|
                    0 <= j < self.received_requests@.len() ==> #[trigger] self@.received[j]
                        == self.received_requests@[j]@,
                forall|j: int|
                    0 <= j < i ==> !((#[trigger] self@.received[j]).method == method@
                        && self@.received[j].params is Some && equiv(
                        self@.received[j].params->0,
                        params@,
                    )),
            decreases self.received_requests@.len() - i,
        {
            if crate::json::str_eq(self.received_requests[i].method.as_str(), method) {
                match &self.received_requests[i].params {
                    Option::Some(p) => {
                        proof {
                            assert((#[trigger] self.received_requests@[i as int])@.wf());
                        }
                        if json_eq(p, &params) {
                            proof {
                                assert((#[trigger] self@.received[i as int]).method == method@
                                    && self@.received[i as int].params is Some && equiv(
                                    self@.received[i as int].params->0,
                                    params@,
                                ));
                            }
                            return Result::Ok(());
                        }
                    },
                    Option::None => {},
                }
            }
            i += 1;
        }
        Result::Err(
            String::from_str("Request '").concat(method).concat(
                "' with expected params was not received",
            ),
        )
    }
}

/// The expectation state after `j` requests to `method` have each consumed
/// one prepared response; the count is clamped at the queue's length.
pub open spec fn consumed(m: ServerModel, method: Seq<char>, j: int) -> ServerModel {
    let q = m.queue_of(method);
    let n = if j <= q.len() {
        j
    } else {
        q.len() as int
    };
    if m.expectations.contains_key(method) {
        ServerModel { expectations: m.expectations.insert(method, q.skip(n)), ..m }
    } else {
        m
    }
}

/// FIFO consumption: with a queue of length `n` prepared for a method, the
/// first `n` requests to it receive the prepared responses front to back --
/// after `j` of them the next prepared response is the `j`-th of the
/// original queue -- and once the queue is drained every further request
/// falls through to the default responder or the not-found error.
pub proof fn lemma_fifo_consumption(m: ServerModel, method: Seq<char>, j: int)
    requires
        0 <= j,
    ensures
        j < m.queue_of(method).len() ==> consumed(m, method, j).has_expectation(method)
            && consumed(m, method, j).queue_of(method)[0] == m.queue_of(method)[j],
        j >= m.queue_of(method).len() ==> !consumed(m, method, j).has_expectation(method),
{
}

/// One consuming request advances the drained count by one: the
/// expectation update in [`MockServer::handle`]'s contract, applied to the
/// state after `j` consumptions, gives the state after `j + 1`.
pub proof fn lemma_consumed_step(m: ServerModel, method: Seq<char>, j: int)
    requires
        0 <= j < m.queue_of(method).len(),
    ensures
        consumed(m, method, j).expectations.insert(
            method,
            consumed(m, method, j).expectations[method].skip(1),
        ) =~= consumed(m, method, j + 1).expectations,
{
    assert(m.queue_of(method).skip(j).skip(1) =~= m.queue_of(method).skip(j + 1));
}

/// Consuming one method's queue never touches another method's queue.
pub proof fn lemma_methods_independent(m: ServerModel, method: Seq<char>, other: Seq<char>, j: int)
    requires
        other != method,
    ensures
        consumed(m, method, j).queue_of(other) == m.queue_of(other),
{
}

/// Correlation: both response shapes that [`MockServer::handle`] builds
/// itself -- a consumed expectation and the synthesized not-found error --
/// carry the id of the request that produced them, whatever id the queued
/// expectation carried.
pub proof fn lemma_response_correlates_id(m: ServerModel, request: RequestModel)
    ensures
        m.has_expectation(request.method) ==> m.queue_of(request.method)[0].with_id(
            request.id,
        ).id == Option::Some(request.id),
        not_found_model(request).id == Option::Some(request.id),
{
}

/// One scenario operation against a server without a default responder.
pub enum ServerOp {
    /// Append a prepared response to a method's queue.
    Expect(Seq<char>, ResponseModel),
    /// Deliver a request and collect the response.
    Handle(RequestModel),
}

/// The transition one operation makes, mirroring the contracts of
/// [`MockServer::expect_request`] and [`MockServer::handle`] with no
/// default responder installed.
pub open spec fn op_step(m: ServerModel, op: ServerOp) -> (ServerModel, Option<ResponseModel>) {
    match op {
        ServerOp::Expect(method, resp) => (
            ServerModel {
                expectations: m.expectations.insert(method, m.queue_of(method).push(resp)),
                ..m
            },
            Option::None,
        ),
        ServerOp::Handle(req) => if m.has_expectation(req.method) {
            (
                ServerModel {
                    expectations: m.expectations.insert(
                        req.method,
                        m.expectations[req.method].skip(1),
                    ),
                    received: m.received.push(req),
                    ..m
                },
                Option::Some(m.queue_of(req.method)[0].with_id(req.id)),
            )
        } else {
            (
                ServerModel { received: m.received.push(req), ..m },
                Option::Some(not_found_model(req)),
            )
        },
    }
}

/// A whole scenario: the final state and the responses, in order.
pub open spec fn run_ops(m: ServerModel, ops: Seq<ServerOp>) -> (ServerModel, Seq<ResponseModel>)
    decreases ops,
{
    if ops.len() == 0 {
        (m, Seq::empty())
    } else {
        let prefix = run_ops(m, ops.subrange(0, ops.len() - 1));
        let last = op_step(prefix.0, ops[ops.len() - 1]);
        (
            last.0,
            match last.1 {
                Option::Some(r) => prefix.1.push(r),
                Option::None => prefix.1,
            },
        )
    }
}


/// A request script as scenario operations.
pub open spec fn handle_ops(reqs: Seq<RequestModel>) -> Seq<ServerOp> {
    reqs.map_values(|r: RequestModel| ServerOp::Handle(r))
}

/// After `j` scripted requests to one method, the expectation state is the
/// queue with its first `j` entries consumed and the log has grown by the
/// requests delivered so far.
pub proof fn lemma_run_state(m: ServerModel, method: Seq<char>, reqs: Seq<RequestModel>, j: int)
    requires
        forall|t: int| 0 <= t < reqs.len() ==> (#[trigger] reqs[t]).method == method,
        0 <= j <= reqs.len(),
    ensures
        run_ops(m, handle_ops(reqs).subrange(0, j)).0.expectations =~= consumed(
            m,
            method,
            j,
        ).expectations,
        run_ops(m, handle_ops(reqs).subrange(0, j)).0.received =~= m.received + reqs.subrange(
            0,
            j,
        ),
        run_ops(m, handle_ops(reqs).subrange(0, j)).0.ordered == m.ordered,
        run_ops(m, handle_ops(reqs).subrange(0, j)).1.len() == j,
    decreases j,
{
    let ops = handle_ops(reqs);
    if j == 0 {
        assert(ops.subrange(0, 0) =~= Seq::<ServerOp>::empty());
        assert(m.received + reqs.subrange(0, 0) =~= m.received);
        if m.expectations.contains_key(method) {
            assert(m.queue_of(method).skip(0) =~= m.queue_of(method));
            assert(m.expectations.insert(method, m.queue_of(method)) =~= m.expectations);
        }
    } else {
        lemma_run_state(m, method, reqs, j - 1);
        let prefix = ops.subrange(0, j - 1);
        let cur = ops.subrange(0, j);
        assert(cur.subrange(0, j - 1) =~= prefix);
        assert(cur[j - 1] == ops[j - 1]);
        assert(ops[j - 1] == ServerOp::Handle(reqs[j - 1]));
        let state = run_ops(m, prefix).0;
        let q = m.queue_of(method);
        assert(state.queue_of(method) =~= q.skip(if j - 1 <= q.len() {
            j - 1
        } else {
            q.len() as int
        }));
        if j - 1 < q.len() {
            assert(state.has_expectation(method));
            lemma_consumed_step(m, method, j - 1);
            assert(run_ops(m, cur).0.expectations =~= consumed(m, method, j).expectations);
        } else {
            assert(q.skip(q.len() as int) =~= Seq::<ResponseModel>::empty());
            assert(!state.has_expectation(method));
            assert(run_ops(m, cur).0.expectations =~= state.expectations);
            assert(consumed(m, method, j).expectations =~= consumed(
                m,
                method,
                j - 1,
            ).expectations);
        }
        assert(m.received + reqs.subrange(0, j) =~= (m.received + reqs.subrange(0, j - 1)).push(
            reqs[j - 1],
        ));
    }
}

/// A later operation never rewrites an earlier response: the `k`-th
/// response is settled as soon as `k + 1` operations have run.
pub proof fn lemma_run_response_stable(m: ServerModel, ops: Seq<ServerOp>, k: int, j: int)
    requires
        0 <= k < j <= ops.len(),
        run_ops(m, ops.subrange(0, j)).1.len() > k,
    ensures
        run_ops(m, ops).1.len() >= run_ops(m, ops.subrange(0, j)).1.len(),
        run_ops(m, ops).1[k] == run_ops(m, ops.subrange(0, j)).1[k],
    decreases ops.len() - j,
{
    if j == ops.len() {
        assert(ops.subrange(0, j) =~= ops);
    } else {
        let cur = ops.subrange(0, j + 1);
        assert(cur.subrange(0, j) =~= ops.subrange(0, j));
        assert(cur[j] == ops[j]);
        lemma_run_response_stable(m, ops, k, j + 1);
    }
}

/// FIFO over a whole script: with a queue of length `n` prepared for a
/// method and a script of requests to that method, the `k`-th response is
/// the `k`-th prepared response under the `k`-th request's id while the
/// queue lasts, and the method-not-found error afterwards (no default
/// responder).
pub proof fn lemma_fifo_run(m: ServerModel, method: Seq<char>, reqs: Seq<RequestModel>, k: int)
    requires
        forall|t: int| 0 <= t < reqs.len() ==> (#[trigger] reqs[t]).method == method,
        0 <= k < reqs.len(),
    ensures
        k < m.queue_of(method).len() ==> run_ops(m, handle_ops(reqs)).1[k] == m.queue_of(
            method,
        )[k].with_id(reqs[k].id),
        k >= m.queue_of(method).len() ==> run_ops(m, handle_ops(reqs)).1[k] == not_found_model(
            reqs[k],
        ),
{
    let ops = handle_ops(reqs);
    lemma_run_state(m, method, reqs, k);
    let state = run_ops(m, ops.subrange(0, k)).0;
    let q = m.queue_of(method);
    assert(state.queue_of(method) =~= q.skip(if k <= q.len() {
        k
    } else {
        q.len() as int
    }));
    let cur = ops.subrange(0, k + 1);
    assert(cur.subrange(0, k) =~= ops.subrange(0, k));
    assert(cur[k] == ops[k]);
    assert(ops[k] == ServerOp::Handle(reqs[k]));
    if k < q.len() {
        assert(state.has_expectation(method));
        assert(state.queue_of(method)[0] == q[k]);
        assert(run_ops(m, cur).1.last() == q[k].with_id(reqs[k].id));
    } else {
        assert(q.skip(q.len() as int) =~= Seq::<ResponseModel>::empty());
        assert(!state.has_expectation(method));
        assert(run_ops(m, cur).1.last() == not_found_model(reqs[k]));
    }
    lemma_run_response_stable(m, ops, k, k + 1);
}

/// Replay after reset: a reset server is in the initial state, and a
/// scenario's outcome is a function of the state it starts from, so
/// repeating the same expectations and requests yields identical responses
/// and an identical received log.
pub proof fn lemma_reset_replay(m: ServerModel, ops: Seq<ServerOp>)
    requires
        m.expectations =~= Map::<Seq<char>, Seq<ResponseModel>>::empty(),
        m.received =~= Seq::<RequestModel>::empty(),
    ensures
        run_ops(m, ops) == run_ops(ServerModel::init(m.ordered), ops),
{
    assert(m =~= ServerModel::init(m.ordered));
}

} // verus!
