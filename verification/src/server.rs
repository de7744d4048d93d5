//! The routes of the bridge: plain REST, and the slice of MCP that it speaks.
//!
//! A request is answered at once, or its call is relayed to an app and answered when the call has
//! ended. MCP is one POST endpoint per instance, which knows `initialize`, `ping`, `tools/list` and
//! `tools/call`, and answers in JSON.

use crate::chance::is_request_id;
use crate::codec::json_text;
use crate::discovery::VERSION;
use crate::hub_error::{HubError, HubErrorView};
use crate::json::{Fields, Json, JsonView};
use crate::laws::law_shorthand_is_decided;
use crate::registry::{
    call_result, result_view, AppState, AppStateView, Call, Handle, HandleView, Instance, InstanceView, Outcome,
};
use crate::text::same_text;
use crate::wire::request_frame_text;
use crate::wire_laws::call_text;
use vstd::prelude::*;

verus! {

/// The version of MCP that the bridge speaks.
pub const PROTOCOL_VERSION: &'static str = "2025-06-18";

/// The preferred port.
pub const PREFERRED_PORT: u16 = 7421;

/// How many ports are tried, from the preferred one upward.
pub const PORT_TRIES: u16 = 20;

/// How many seconds a fresh connection may be silent before its hello is due.
pub const HELLO_TIMEOUT_SECS: u64 = 10;

/// How many seconds a client call waits for the app to answer.
pub const REQUEST_TIMEOUT_SECS: u64 = 30;

/// JSON-RPC: the method does not exist.
pub const METHOD_NOT_FOUND: i32 = -32601;

/// JSON-RPC: the parameters are wrong.
pub const INVALID_PARAMS: i32 = -32602;

/// The ports to try, in order. The last one is zero, which leaves the choice to the system.
pub open spec fn ports() -> Seq<u16> {
    Seq::new(PORT_TRIES as nat, |i: int| (PREFERRED_PORT + i) as u16).push(0)
}

/// The ports to try, in order. The last one is zero, which leaves the choice to the system.
pub fn ports_to_try() -> (all: Vec<u16>)
    ensures
        all@ == ports(),
{
    let mut all: Vec<u16> = Vec::new();
    for i in 0..PORT_TRIES
        invariant
            all@ == Seq::new(i as nat, |k: int| (PREFERRED_PORT + k) as u16),
    {
        all.push(PREFERRED_PORT + i);
        assert(all@ =~= Seq::new((i + 1) as nat, |k: int| (PREFERRED_PORT + k) as u16));
    }
    all.push(0);
    all
}

/// An HTTP reply: its status, and its JSON body if it has one.
#[derive(Debug, PartialEq)]
pub struct Reply {
    pub status: u16,
    pub body: Option<Json>,
}

/// What a `Reply` says.
pub struct ReplyView {
    pub status: u16,
    pub body: Option<JsonView>,
}

impl View for Reply {
    type V = ReplyView;

    open spec fn view(&self) -> ReplyView {
        ReplyView {
            status: self.status,
            body: (match self.body {
                Some(j) => Some(j@),
                None => None,
            }),
        }
    }
}

/// A reply that succeeds with a body.
pub open spec fn ok_reply(body: JsonView) -> ReplyView {
    ReplyView { status: 200, body: Some(body) }
}

/// A reply that accepts a notification, without a body.
pub open spec fn accepted_reply() -> ReplyView {
    ReplyView { status: 202, body: None }
}

/// The HTTP status of an error.
pub open spec fn error_status(e: HubErrorView) -> u16 {
    match e {
        HubErrorView::NotFound { .. } => 404,
        HubErrorView::Ambiguous { .. } => 409,
        HubErrorView::Gone => 503,
        HubErrorView::Timeout => 504,
        HubErrorView::App(_) => 422,
    }
}

/// The reply that reports an error.
pub open spec fn error_reply(e: HubErrorView) -> ReplyView {
    ReplyView { status: error_status(e), body: Some(JsonView::Object(map!["error"@ => e.json()])) }
}

/// What MCP shows of a value: its text, as the one part of the content.
pub open spec fn tool_content(value: JsonView, is_error: bool) -> JsonView {
    JsonView::Object(
        map![
            "content"@ => JsonView::Array(seq![
                JsonView::Object(map![
                    "type"@ => JsonView::Str("text"@),
                    "text"@ => JsonView::Str(json_text(value)),
                ]),
            ]),
            "isError"@ => JsonView::Bool(is_error),
        ],
    )
}

/// A JSON-RPC response with a result.
pub open spec fn rpc_result(id: JsonView, result: JsonView) -> ReplyView {
    ok_reply(JsonView::Object(map!["jsonrpc"@ => JsonView::Str("2.0"@), "id"@ => id, "result"@ => result]))
}

/// A JSON-RPC response with an error.
pub open spec fn rpc_error(id: JsonView, code: i32, message: Seq<char>) -> ReplyView {
    ok_reply(
        JsonView::Object(
            map![
                "jsonrpc"@ => JsonView::Str("2.0"@),
                "id"@ => id,
                "error"@ => JsonView::Object(map![
                    "code"@ => JsonView::Int(code as int),
                    "message"@ => JsonView::Str(message),
                ]),
            ],
        ),
    )
}

/// How the end of a relayed call is answered.
pub enum Answer {
    /// As the reply itself.
    Rest,
    /// As the result of an MCP tool call with this id.
    Tool(Json),
}

/// What an `Answer` says.
pub enum AnswerView {
    Rest,
    Tool(JsonView),
}

impl View for Answer {
    type V = AnswerView;

    open spec fn view(&self) -> AnswerView {
        match self {
            Answer::Rest => AnswerView::Rest,
            Answer::Tool(id) => AnswerView::Tool(id@),
        }
    }
}

impl AnswerView {
    /// The reply to a call that ended like this. MCP clients see what went wrong as a tool result,
    /// so that an agent can read it and recover.
    pub open spec fn reply(self, result: Result<JsonView, HubErrorView>) -> ReplyView {
        match (self, result) {
            (AnswerView::Rest, Ok(value)) => ok_reply(value),
            (AnswerView::Rest, Err(e)) => error_reply(e),
            (AnswerView::Tool(id), Ok(value)) => rpc_result(id, tool_content(value, false)),
            (AnswerView::Tool(id), Err(e)) => rpc_result(id, tool_content(e.json(), true)),
        }
    }
}

/// A call that is on its way to an app, and how its end is answered.
pub struct Relay {
    pub handle: Handle,
    pub call: Call,
    pub answer: Answer,
}

/// How a request goes on.
pub enum Step {
    /// It is answered.
    Reply(Reply),
    /// Its call is relayed.
    Relay(Relay),
}

impl Step {
    /// Whether a request is answered like this, without a change of the state.
    pub open spec fn replies<S, W>(
        self,
        before: AppStateView<S, W>,
        after: AppStateView<S, W>,
        reply: ReplyView,
    ) -> bool {
        self is Reply && self->Reply_0@ == reply && after == before
    }

    /// Whether a request's call is relayed to an instance under a fresh id.
    pub open spec fn relays<S, W>(
        self,
        before: AppStateView<S, W>,
        after: AppStateView<S, W>,
        handle: HandleView,
        action: Seq<char>,
        payload: JsonView,
        answer: AnswerView,
        waiter: W,
    ) -> bool {
        &&& self is Relay
        &&& self->Relay_0.handle@ == handle
        &&& self->Relay_0.answer@ == answer
        &&& self->Relay_0.call.frame@ == request_frame_text(self->Relay_0.call.id@, action, payload)
        &&& is_request_id(self->Relay_0.call.id@)
        &&& after == before.called(handle, self->Relay_0.call.id@, waiter)
    }
}

impl Relay {
    /// Whether this is a call of an action with a payload that is in flight with a waiter.
    pub open spec fn is_call<S, W>(
        self,
        after: AppStateView<S, W>,
        action: Seq<char>,
        payload: JsonView,
        waiter: W,
    ) -> bool {
        &&& self.call.frame@ == call_text(self.call.id@, action, payload)
        &&& after.connection(self.handle@).pending.contains_key(self.call.id@)
        &&& after.connection(self.handle@).pending[self.call.id@] == waiter
    }
}

/// What an instance does about an MCP request.
pub enum Plan {
    Reply(Reply),
    Call { action: String, payload: Json, id: Json },
}

/// What a `Plan` says.
pub enum PlanView {
    Reply(ReplyView),
    Call { action: Seq<char>, payload: JsonView, id: JsonView },
}

impl View for Plan {
    type V = PlanView;

    open spec fn view(&self) -> PlanView {
        match self {
            Plan::Reply(reply) => PlanView::Reply(reply@),
            Plan::Call { action, payload, id } => PlanView::Call { action: action@, payload: payload@, id: id@ },
        }
    }
}

/// What a client learns when it initializes a session.
pub open spec fn initialize_result(app: Seq<char>, instructions: Option<Seq<char>>) -> JsonView {
    let base = map![
        "protocolVersion"@ => JsonView::Str(PROTOCOL_VERSION@),
        "capabilities"@ => JsonView::Object(map!["tools"@ => JsonView::Object(Map::empty())]),
        "serverInfo"@ => JsonView::Object(map![
            "name"@ => JsonView::Str("web-bridge:"@ + app),
            "version"@ => JsonView::Str(VERSION@),
        ]),
    ];
    match instructions {
        Some(text) => JsonView::Object(base.insert("instructions"@, JsonView::Str(text))),
        None => JsonView::Object(base),
    }
}

/// The full tool catalog, in an object.
pub open spec fn tools_json(tools: JsonView) -> JsonView {
    JsonView::Object(map!["tools"@ => tools])
}

/// What comes of a tool call with these parameters.
pub open spec fn tools_call_plan(id: JsonView, params: Option<JsonView>) -> PlanView {
    match params {
        None => PlanView::Reply(rpc_error(id, INVALID_PARAMS, "Missing params"@)),
        Some(p) => {
            let name = p.text_field("name"@);
            if name is None || name->0.len() == 0 {
                PlanView::Reply(rpc_error(id, INVALID_PARAMS, "Missing tool name"@))
            } else {
                PlanView::Call {
                    action: name->0,
                    payload: (match p.field("arguments"@) {
                        Some(arguments) => arguments,
                        None => JsonView::Object(Map::empty()),
                    }),
                    id,
                }
            }
        },
    }
}

/// What comes of an MCP request to an instance. A request without an id is a notification.
pub open spec fn mcp_plan<S, W>(instance: InstanceView<S, W>, request: JsonView) -> PlanView {
    let method = (match request.text_field("method"@) {
        Some(m) => m,
        None => ""@,
    });
    match request.field("id"@) {
        None => PlanView::Reply(accepted_reply()),
        Some(id) => if method == "initialize"@ {
            PlanView::Reply(rpc_result(id, initialize_result(instance.app, instance.info.instructions)))
        } else if method == "ping"@ {
            PlanView::Reply(rpc_result(id, JsonView::Object(Map::empty())))
        } else if method == "tools/list"@ {
            PlanView::Reply(rpc_result(id, tools_json(instance.info.tools)))
        } else if method == "tools/call"@ {
            tools_call_plan(id, request.field("params"@))
        } else {
            PlanView::Reply(rpc_error(id, METHOD_NOT_FOUND, "Method not found: "@ + method))
        },
    }
}

/// Only a tool call with an id and a name becomes a call.
proof fn lemma_tool_call<S, W>(instance: InstanceView<S, W>, request: JsonView)
    ensures
        mcp_plan(instance, request) is Call ==> request.field("method"@) == Some(JsonView::Str("tools/call"@)),
{
    reveal_strlit("");
    reveal_strlit("tools/call");
    assert(""@.len() == 0 && "tools/call"@.len() == 10);
    let method = request.field("method"@);
    if method is Some && method->0 is Str {
        assert(method == Some(JsonView::Str(method->0->Str_0)));
    }
}

impl Step {
    /// Whether a request goes on as an instance does about it.
    pub open spec fn follows<S, W>(
        self,
        before: AppStateView<S, W>,
        after: AppStateView<S, W>,
        instance: InstanceView<S, W>,
        plan: PlanView,
        waiter: W,
    ) -> bool {
        match plan {
            PlanView::Reply(reply) => self.replies(before, after, reply),
            PlanView::Call { action, payload, id } => self.relays(
                before,
                after,
                instance.handle(),
                action,
                payload,
                AnswerView::Tool(id),
                waiter,
            ),
        }
    }
}

/// The arguments of a tool call, or an empty object without them.
pub open spec fn arguments_of(params: JsonView) -> JsonView {
    if params.field("arguments"@) is Some {
        params.field("arguments"@)->0
    } else {
        JsonView::Object(Map::empty())
    }
}

/// The error for a path that no connected instance matches.
pub open spec fn not_found(app: Seq<char>, instance: Seq<char>) -> HubErrorView {
    HubErrorView::NotFound { app, instance: Some(instance) }
}

fn ok(body: Json) -> (reply: Reply)
    ensures
        reply@ == ok_reply(body@),
{
    Reply { status: 200, body: Some(body) }
}

/// The reply that reports an error.
pub fn hub_error_response(e: &HubError) -> (reply: Reply)
    ensures
        reply@ == error_reply(e@),
        match e {
            HubError::NotFound { .. } => reply.status == 404,
            HubError::Ambiguous { .. } => reply.status == 409,
            HubError::Gone => reply.status == 503,
            HubError::Timeout => reply.status == 504,
            HubError::App(own) => reply.status == 422 && reply@.body->0.field("error"@) == Some(own@),
        },
{
    let status = match e {
        HubError::NotFound { .. } => 404,
        HubError::Ambiguous { .. } => 409,
        HubError::Gone => 503,
        HubError::Timeout => 504,
        HubError::App(_) => 422,
    };
    Reply { status, body: Some(Fields::new().put("error", e.to_json()).into_json()) }
}

/// What MCP shows of a value: its text, as the one part of the content.
pub fn tool_text(value: Json, is_error: bool) -> (content: Json)
    ensures
        content@ == tool_content(value@, is_error),
{
    let part = Fields::new().put("type", Json::text("text")).put(
        "text",
        Json::text(value.into_text().as_str()),
    ).into_json();
    let ghost view = part@;
    let mut parts: Vec<Json> = Vec::new();
    parts.push(part);
    assert(crate::json::items_view(parts@) =~= seq![view]);
    Fields::new().put("content", Json::Array(parts)).put("isError", Json::Bool(is_error)).into_json()
}

/// A JSON-RPC response with a result.
pub fn json_rpc_result(id: Json, result: Json) -> (reply: Reply)
    ensures
        reply@ == rpc_result(id@, result@),
{
    ok(Fields::new().put("jsonrpc", Json::text("2.0")).put("id", id).put("result", result).into_json())
}

/// A JSON-RPC response with an error.
pub fn json_rpc_error(id: Json, code: i32, message: &str) -> (reply: Reply)
    ensures
        reply@ == rpc_error(id@, code, message@),
{
    let error = Fields::new().put("code", Json::Signed(code as i64)).put("message", Json::text(message)).into_json();
    ok(Fields::new().put("jsonrpc", Json::text("2.0")).put("id", id).put("error", error).into_json())
}

impl Answer {
    /// The reply to a call that ended like this.
    pub fn into_reply(self, result: Result<Json, HubError>) -> (reply: Reply)
        ensures
            reply@ == self@.reply(result_view(result)),
    {
        match (self, result) {
            (Answer::Rest, Ok(value)) => ok(value),
            (Answer::Rest, Err(e)) => hub_error_response(&e),
            (Answer::Tool(id), Ok(value)) => json_rpc_result(id, tool_text(value, false)),
            (Answer::Tool(id), Err(e)) => json_rpc_result(id, tool_text(e.to_json(), true)),
        }
    }
}

fn catalog(tools: Json) -> (j: Json)
    ensures
        j@ == tools_json(tools@),
{
    Fields::new().put("tools", tools).into_json()
}

fn initialize<S, W>(instance: &Instance<S, W>) -> (result: Json)
    ensures
        result@ == initialize_result(instance@.app, instance@.info.instructions),
{
    let capabilities = Fields::new().put("tools", Json::empty_object()).into_json();
    let server = Fields::new().put(
        "name",
        Json::text("web-bridge:".to_owned().concat(instance.app.as_str()).as_str()),
    ).put("version", Json::text(VERSION)).into_json();
    let fields = Fields::new().put("protocolVersion", Json::text(PROTOCOL_VERSION)).put(
        "capabilities",
        capabilities,
    ).put("serverInfo", server);
    match instance.instructions() {
        Some(text) => fields.put("instructions", Json::text(text.as_str())).into_json(),
        None => fields.into_json(),
    }
}

/// What comes of a tool call with these parameters. Every tool stands for an operation of the app:
/// the name of the tool is the action, and its arguments are the payload.
pub fn mcp_tools_call(id: Json, params: Option<&Json>) -> (plan: Plan)
    ensures
        plan@ == tools_call_plan(id@, crate::json::found_view(params)),
{
    match params {
        None => Plan::Reply(json_rpc_error(id, INVALID_PARAMS, "Missing params")),
        Some(p) => {
            let name = match p.get_text("name") {
                Some(s) => s.clone(),
                None => String::new(),
            };
            if name.as_str().is_empty() {
                return Plan::Reply(json_rpc_error(id, INVALID_PARAMS, "Missing tool name"));
            }
            let payload = match p.get("arguments") {
                Some(arguments) => arguments.clone(),
                None => Json::empty_object(),
            };
            Plan::Call { action: name, payload, id }
        },
    }
}

/// What comes of an MCP request to an instance.
pub fn mcp<S, W>(instance: &Instance<S, W>, request: &Json) -> (plan: Plan)
    ensures
        plan@ == mcp_plan(instance@, request@),
{
    let method = match request.get_text("method") {
        Some(s) => s.clone(),
        None => "".to_owned(),
    };
    let id = match request.get("id") {
        Some(id) => id.clone(),
        None => return Plan::Reply(Reply { status: 202, body: None }),
    };
    if same_text(method.as_str(), "initialize") {
        Plan::Reply(json_rpc_result(id, initialize(instance)))
    } else if same_text(method.as_str(), "ping") {
        Plan::Reply(json_rpc_result(id, Json::empty_object()))
    } else if same_text(method.as_str(), "tools/list") {
        Plan::Reply(json_rpc_result(id, catalog(instance.tools())))
    } else if same_text(method.as_str(), "tools/call") {
        mcp_tools_call(id, request.get("params"))
    } else {
        Plan::Reply(
            json_rpc_error(
                id,
                METHOD_NOT_FOUND,
                "Method not found: ".to_owned().concat(method.as_str()).as_str(),
            ),
        )
    }
}

impl<S, W> AppState<S, W> {
    /// Relays a call to a connection, or answers that the connection is gone.
    fn relay(&mut self, handle: Handle, action: &str, payload: Json, answer: Answer, waiter: W) -> (step: Step)
        requires
            old(self).wf(),
        ensures
            final(self).wf(),
            if old(self)@.known(handle@) {
                step.relays(old(self)@, final(self)@, handle@, action@, payload@, answer@, waiter)
            } else {
                step.replies(old(self)@, final(self)@, answer@.reply(Err(HubErrorView::Gone)))
            },
            step is Relay ==> step->Relay_0.is_call(final(self)@, action@, payload@, waiter),
    {
        match self.call(&handle, action, payload, waiter) {
            Ok(call) => Step::Relay(Relay { handle, call, answer }),
            Err(e) => Step::Reply(answer.into_reply(Err(e))),
        }
    }

    /// Dispatches an operation of an instance by name: the body of the request is its payload.
    pub fn api_instance(&mut self, app: &str, instance: &str, action: &str, body: Json, waiter: W) -> (step: Step)
        requires
            old(self).wf(),
        ensures
            final(self).wf(),
            if old(self)@.instances.contains_key((app@, instance@)) {
                step.relays(
                    old(self)@,
                    final(self)@,
                    old(self)@.instances[(app@, instance@)].handle(),
                    action@,
                    body@,
                    AnswerView::Rest,
                    waiter,
                )
            } else {
                step.replies(old(self)@, final(self)@, error_reply(not_found(app@, instance@)))
            },
            step is Relay <==> old(self)@.instances.contains_key((app@, instance@)),
            step is Relay ==> step->Relay_0.is_call(final(self)@, action@, body@, waiter)
                && step->Relay_0.handle@.key() == (app@, instance@) && step->Relay_0.answer is Rest,
            step is Reply ==> step->Reply_0.status == 404 && final(self)@ == old(self)@,
    {
        let handle = match self.get(app, instance) {
            Some(i) => i.handle(),
            None => return Step::Reply(unknown(app, instance)),
        };
        self.relay(handle, action, body, Answer::Rest, waiter)
    }

    /// Dispatches an operation of the one connected instance of an app.
    pub fn api_app(&mut self, app: &str, action: &str, body: Json, waiter: W) -> (step: Step)
        requires
            old(self).wf(),
        ensures
            final(self).wf(),
            ({
                ||| exists|instance: InstanceView<S, W>| #[trigger]
                    old(self)@.only_instance(app@, instance) && step.relays(
                        old(self)@,
                        final(self)@,
                        instance.handle(),
                        action@,
                        body@,
                        AnswerView::Rest,
                        waiter,
                    )
                ||| exists|e: HubErrorView| #[trigger]
                    old(self)@.unresolved(app@, e) && step.replies(old(self)@, final(self)@, error_reply(e))
            }),
            step is Relay ==> step->Relay_0.is_call(final(self)@, action@, body@, waiter)
                && step->Relay_0.handle@.app == app@ && step->Relay_0.answer is Rest,
            step is Reply ==> (step->Reply_0.status == 404 || step->Reply_0.status == 409) && final(self)@
                == old(self)@,
    {
        let handle = match self.resolve_single(app) {
            Ok(i) => {
                assert(self@.only_instance(app@, i@));
                i.handle()
            },
            Err(e) => return Step::Reply(hub_error_response(&e)),
        };
        self.relay(handle, action, body, Answer::Rest, waiter)
    }

    /// The full tool catalog of an instance.
    pub fn tools_instance(&self, app: &str, instance: &str) -> (reply: Reply)
        requires
            self.wf(),
        ensures
            reply@ == (if self@.instances.contains_key((app@, instance@)) {
                ok_reply(tools_json(self@.instances[(app@, instance@)].info.tools))
            } else {
                error_reply(not_found(app@, instance@))
            }),
            reply.status == 200 <==> self@.instances.contains_key((app@, instance@)),
            reply.status == 200 ==> reply@.body->0.field("tools"@) == Some(
                self@.instances[(app@, instance@)].info.tools,
            ),
            reply.status != 200 ==> reply.status == 404,
    {
        match self.get(app, instance) {
            Some(i) => ok(catalog(i.tools())),
            None => unknown(app, instance),
        }
    }

    /// The full tool catalog of the one connected instance of an app.
    pub fn tools_app(&self, app: &str) -> (reply: Reply)
        requires
            self.wf(),
        ensures
            ({
                ||| exists|instance: InstanceView<S, W>| #[trigger]
                    self@.only_instance(app@, instance) && reply@ == ok_reply(tools_json(instance.info.tools))
                ||| exists|e: HubErrorView| #[trigger]
                    self@.unresolved(app@, e) && reply@ == error_reply(e)
            }),
            reply.status == 200 || reply.status == 404 || reply.status == 409,
            reply.status == 200 <==> exists|instance: InstanceView<S, W>| #[trigger]
                self@.only_instance(app@, instance),
    {
        match self.resolve_single(app) {
            Ok(i) => {
                assert(self@.only_instance(app@, i@));
                ok(catalog(i.tools()))
            },
            Err(e) => {
                proof {
                    assert(self@.unresolved(app@, e@));
                    assert forall|instance: InstanceView<S, W>| !#[trigger] self@.only_instance(app@, instance) by {
                        if self@.only_instance(app@, instance) {
                            law_shorthand_is_decided(self@, app@, instance, e@);
                        }
                    }
                }
                hub_error_response(&e)
            },
        }
    }

    /// Goes on as an instance does about a request.
    fn follow(&mut self, handle: Handle, plan: Plan, waiter: W) -> (step: Step)
        requires
            old(self).wf(),
            old(self)@.current(handle@),
        ensures
            final(self).wf(),
            match plan@ {
                PlanView::Reply(reply) => step.replies(old(self)@, final(self)@, reply),
                PlanView::Call { action, payload, id } => step.relays(
                    old(self)@,
                    final(self)@,
                    handle@,
                    action,
                    payload,
                    AnswerView::Tool(id),
                    waiter,
                ),
            },
            step is Relay ==> plan is Call && step->Relay_0.is_call(
                final(self)@,
                plan->action@,
                plan->payload@,
                waiter,
            ),
    {
        match plan {
            Plan::Reply(reply) => Step::Reply(reply),
            Plan::Call { action, payload, id } => self.relay(
                handle,
                action.as_str(),
                payload,
                Answer::Tool(id),
                waiter,
            ),
        }
    }

    /// Serves an MCP request to an instance.
    pub fn mcp_instance(&mut self, app: &str, instance: &str, request: &Json, waiter: W) -> (step: Step)
        requires
            old(self).wf(),
        ensures
            final(self).wf(),
            if old(self)@.instances.contains_key((app@, instance@)) {
                let i = old(self)@.instances[(app@, instance@)];
                step.follows(old(self)@, final(self)@, i, mcp_plan(i, request@), waiter)
            } else {
                step.replies(old(self)@, final(self)@, error_reply(not_found(app@, instance@)))
            },
            step is Relay ==> {
                let params = request@.field("params"@)->0;
                &&& step->Relay_0.handle@.key() == (app@, instance@)
                &&& request@.field("method"@) == Some(JsonView::Str("tools/call"@))
                &&& request@.field("id"@) is Some
                &&& step->Relay_0.answer@ == AnswerView::Tool(request@.field("id"@)->0)
                &&& params.field("name"@) is Some && params.field("name"@)->0 is Str
                &&& step->Relay_0.is_call(
                    final(self)@,
                    params.field("name"@)->0->Str_0,
                    arguments_of(params),
                    waiter,
                )
            },
            step is Reply ==> final(self)@ == old(self)@,
            !old(self)@.instances.contains_key((app@, instance@)) ==> step is Reply && step->Reply_0.status == 404,
    {
        let (handle, plan) = match self.get(app, instance) {
            Some(i) => (i.handle(), mcp(i, request)),
            None => return Step::Reply(unknown(app, instance)),
        };
        proof {
            lemma_tool_call(old(self)@.instances[(app@, instance@)], request@);
        }
        self.follow(handle, plan, waiter)
    }

    /// Serves an MCP request to the one connected instance of an app.
    pub fn mcp_app(&mut self, app: &str, request: &Json, waiter: W) -> (step: Step)
        requires
            old(self).wf(),
        ensures
            final(self).wf(),
            ({
                ||| exists|instance: InstanceView<S, W>| #[trigger]
                    old(self)@.only_instance(app@, instance) && step.follows(
                        old(self)@,
                        final(self)@,
                        instance,
                        mcp_plan(instance, request@),
                        waiter,
                    )
                ||| exists|e: HubErrorView| #[trigger]
                    old(self)@.unresolved(app@, e) && step.replies(old(self)@, final(self)@, error_reply(e))
            }),
            step is Relay ==> {
                let params = request@.field("params"@)->0;
                &&& step->Relay_0.handle@.app == app@
                &&& request@.field("method"@) == Some(JsonView::Str("tools/call"@))
                &&& request@.field("id"@) is Some
                &&& step->Relay_0.answer@ == AnswerView::Tool(request@.field("id"@)->0)
                &&& params.field("name"@) is Some && params.field("name"@)->0 is Str
                &&& step->Relay_0.is_call(
                    final(self)@,
                    params.field("name"@)->0->Str_0,
                    arguments_of(params),
                    waiter,
                )
            },
            step is Reply ==> final(self)@ == old(self)@,
    {
        let (handle, plan) = match self.resolve_single(app) {
            Ok(i) => {
                proof {
                    assert(self@.only_instance(app@, i@));
                    lemma_tool_call(i@, request@);
                }
                (i.handle(), mcp(i, request))
            },
            Err(e) => return Step::Reply(hub_error_response(&e)),
        };
        self.follow(handle, plan, waiter)
    }

    /// Answers a request whose call has ended.
    pub fn finish(&mut self, relay: Relay, outcome: Outcome) -> (reply: Reply)
        requires
            old(self).wf(),
        ensures
            final(self).wf(),
            final(self)@ == (match outcome {
                Outcome::Unsent => old(self)@.settled(relay.handle@, relay.call.id@),
                Outcome::TimedOut => old(self)@.settled(relay.handle@, relay.call.id@),
                _ => old(self)@,
            }),
            reply@ == relay.answer@.reply(call_result(outcome@)),
            relay.answer is Rest ==> match outcome {
                Outcome::Unsent => reply.status == 503,
                Outcome::Dropped => reply.status == 503,
                Outcome::TimedOut => reply.status == 504,
                Outcome::Replied(response) => if response.ok {
                    reply.status == 200 && reply@.body == Some(response.result@)
                } else {
                    reply.status == 422 && reply@.body->0.field("error"@) == Some(response.error@)
                },
            },
            relay.answer is Tool ==> reply.status == 200,
            outcome is Unsent || outcome is TimedOut ==> !final(self)@.in_flight(relay.handle@, relay.call.id@),
    {
        let result = self.settle(&relay.handle, relay.call.id.as_str(), outcome);
        relay.answer.into_reply(result)
    }
}

fn unknown(app: &str, instance: &str) -> (reply: Reply)
    ensures
        reply@ == error_reply(not_found(app@, instance@)),
{
    hub_error_response(&HubError::NotFound { app: app.to_owned(), instance: Some(instance.to_owned()) })
}

} // verus!
