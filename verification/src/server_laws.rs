//! What clients are answered.

use crate::chance::is_request_id;
use crate::codec::json_text;
use crate::discovery::VERSION;
use crate::hub_error::HubErrorView;
use crate::json::JsonView;
use crate::registry::{call_result, AppStateView, HandleView, InstanceView, OutcomeView};
use crate::server::{
    accepted_reply, error_reply, mcp_plan, not_found, ok_reply, ports, tools_json, AnswerView, ReplyView, Step,
    HELLO_TIMEOUT_SECS, REQUEST_TIMEOUT_SECS,
};
use crate::wire_laws::{law_frame_is_the_call, object_text};
use vstd::prelude::*;

verus! {

proof fn lemma_names_differ()
    ensures
        "id"@.len() == 2,
        "jsonrpc"@.len() == 7,
        "result"@.len() == 6,
        "error"@.len() == 5,
        "code"@.len() == 4,
        "message"@.len() == 7,
        "message"@[0] == 'm',
        "jsonrpc"@[0] == 'j',
        "type"@[1] == 'y',
        "text"@[1] == 'e',
        "content"@[0] == 'c',
        "isError"@[0] == 'i',
        "tools"@.len() == 5,
        "protocolVersion"@.len() == 15,
        "capabilities"@.len() == 12,
        "capabilities"@[0] == 'c',
        "serverInfo"@.len() == 10,
        "instructions"@.len() == 12,
        "instructions"@[0] == 'i',
        "name"@.len() == 4,
        "version"@.len() == 7,
        "instances"@.len() == 9,
        "initialize"@.len() == 10,
        "initialize"@[0] == 'i',
        "ping"@.len() == 4,
        "tools/list"@.len() == 10,
        "tools/list"@[0] == 't',
        "tools/list"@[6] == 'l',
        "tools/call"@.len() == 10,
        "tools/call"@[0] == 't',
        "tools/call"@[6] == 'c',
{
    reveal_strlit("id");
    reveal_strlit("jsonrpc");
    reveal_strlit("result");
    reveal_strlit("error");
    reveal_strlit("code");
    reveal_strlit("message");
    reveal_strlit("type");
    reveal_strlit("text");
    reveal_strlit("content");
    reveal_strlit("isError");
    reveal_strlit("tools");
    reveal_strlit("protocolVersion");
    reveal_strlit("capabilities");
    reveal_strlit("serverInfo");
    reveal_strlit("instructions");
    reveal_strlit("name");
    reveal_strlit("version");
    reveal_strlit("instances");
    reveal_strlit("initialize");
    reveal_strlit("ping");
    reveal_strlit("tools/list");
    reveal_strlit("tools/call");
}

/// Whether a reply is a JSON-RPC response to this id that carries this result, and no error.
pub open spec fn carries_result(reply: ReplyView, id: JsonView, result: JsonView) -> bool {
    &&& reply.status == 200
    &&& reply.body is Some
    &&& reply.body->0.field("jsonrpc"@) == Some(JsonView::Str("2.0"@))
    &&& reply.body->0.field("id"@) == Some(id)
    &&& reply.body->0.field("result"@) == Some(result)
    &&& reply.body->0.field("error"@) is None
    &&& forall|name: Seq<char>| #[trigger]
        reply.body->0.field(name) is Some ==> name == "jsonrpc"@ || name == "id"@ || name == "result"@
}

/// Whether a reply is a JSON-RPC response to this id that carries this error, and no result.
pub open spec fn carries_error(reply: ReplyView, id: JsonView, code: int, message: Seq<char>) -> bool {
    &&& reply.status == 200
    &&& reply.body is Some
    &&& reply.body->0.field("jsonrpc"@) == Some(JsonView::Str("2.0"@))
    &&& reply.body->0.field("id"@) == Some(id)
    &&& reply.body->0.field("result"@) is None
    &&& reply.body->0.field("error"@) is Some
    &&& reply.body->0.field("error"@)->0.field("code"@) == Some(JsonView::Int(code))
    &&& reply.body->0.field("error"@)->0.field("message"@) == Some(JsonView::Str(message))
    &&& forall|name: Seq<char>| #[trigger]
        reply.body->0.field(name) is Some ==> name == "jsonrpc"@ || name == "id"@ || name == "error"@
    &&& forall|name: Seq<char>| #[trigger]
        reply.body->0.field("error"@)->0.field(name) is Some ==> name == "code"@ || name == "message"@
}

/// Every request with an id to initialize a session opens one, whatever else it says: the result
/// names the version of the protocol, the server and, where the app gave them, its instructions.
pub proof fn law_initialize_opens_a_session<S, W>(instance: InstanceView<S, W>, request: JsonView, id: JsonView)
    requires
        request.field("id"@) == Some(id),
        request.field("method"@) == Some(JsonView::Str("initialize"@)),
    ensures
        mcp_plan(instance, request) is Reply,
        ({
            let reply = mcp_plan(instance, request)->Reply_0;
            let result = reply.body->0.field("result"@)->0;
            let server = result.field("serverInfo"@)->0;
            &&& carries_result(reply, id, result)
            &&& result.field("protocolVersion"@) == Some(JsonView::Str("2025-06-18"@))
            &&& result.field("capabilities"@) is Some
            &&& result.field("capabilities"@)->0.field("tools"@) == Some(JsonView::Object(Map::empty()))
            &&& result.field("serverInfo"@) is Some
            &&& server.field("name"@) == Some(JsonView::Str("web-bridge:"@ + instance.app))
            &&& server.field("version"@) == Some(JsonView::Str(VERSION@))
            &&& instance.info.instructions is Some ==> result.field("instructions"@) == Some(
                JsonView::Str(instance.info.instructions->0),
            )
            &&& instance.info.instructions is None ==> result.field("instructions"@) is None
            &&& forall|name: Seq<char>| #[trigger]
                result.field(name) is Some ==> name == "protocolVersion"@ || name == "capabilities"@ || name
                    == "serverInfo"@ || name == "instructions"@
        }),
{
    lemma_names_differ();
}

/// Every ping with an id is answered with an empty object.
pub proof fn law_ping_is_answered<S, W>(instance: InstanceView<S, W>, request: JsonView, id: JsonView)
    requires
        request.field("id"@) == Some(id),
        request.field("method"@) == Some(JsonView::Str("ping"@)),
    ensures
        mcp_plan(instance, request) is Reply,
        carries_result(mcp_plan(instance, request)->Reply_0, id, JsonView::Object(Map::empty())),
{
    lemma_names_differ();
}

/// Every request with an id for the list of tools gets the catalog as the app gave it, and so does
/// the tools route.
pub proof fn law_catalog_is_served_verbatim<S, W>(instance: InstanceView<S, W>, request: JsonView, id: JsonView)
    requires
        request.field("id"@) == Some(id),
        request.field("method"@) == Some(JsonView::Str("tools/list"@)),
    ensures
        mcp_plan(instance, request) is Reply,
        ({
            let reply = mcp_plan(instance, request)->Reply_0;
            let result = reply.body->0.field("result"@)->0;
            let route = ok_reply(tools_json(instance.info.tools));
            &&& carries_result(reply, id, result)
            &&& result.field("tools"@) == Some(instance.info.tools)
            &&& route.status == 200
            &&& route.body == Some(result)
            &&& forall|name: Seq<char>| #[trigger] result.field(name) is Some ==> name == "tools"@
        }),
{
    lemma_names_differ();
}

/// Every tool call with an id and a name becomes a call of the operation of that name, with the
/// arguments for its payload, or `{}` without them. Without parameters or a name it is an error of
/// the protocol.
pub proof fn law_tool_call_becomes_a_call<S, W>(instance: InstanceView<S, W>, request: JsonView, id: JsonView)
    requires
        request.field("id"@) == Some(id),
        request.field("method"@) == Some(JsonView::Str("tools/call"@)),
    ensures
        ({
            let plan = mcp_plan(instance, request);
            let params = request.field("params"@)->0;
            let name = params.field("name"@);
            let arguments = params.field("arguments"@);
            &&& request.field("params"@) is None ==> plan is Reply && carries_error(
                plan->Reply_0,
                id,
                -32602,
                "Missing params"@,
            )
            &&& request.field("params"@) is Some && !(name is Some && name->0 is Str && name->0->Str_0.len() > 0)
                ==> plan is Reply && carries_error(plan->Reply_0, id, -32602, "Missing tool name"@)
            &&& request.field("params"@) is Some && name is Some && name->0 is Str && name->0->Str_0.len() > 0 ==> {
                &&& plan is Call
                &&& plan->action == name->0->Str_0
                &&& arguments is Some ==> plan->payload == arguments->0
                &&& arguments is None ==> plan->payload == JsonView::Object(Map::empty())
                &&& plan->Call_id == id
            }
        }),
{
    lemma_names_differ();
}

/// Every request with an id and any other method, or with none, is an error of the protocol that
/// names the method.
pub proof fn law_other_methods_are_not_found<S, W>(
    instance: InstanceView<S, W>,
    request: JsonView,
    id: JsonView,
    method: Seq<char>,
)
    requires
        request.field("id"@) == Some(id),
        request.field("method"@) == Some(JsonView::Str(method)) || (method.len() == 0 && !(request.field("method"@)
            is Some && request.field("method"@)->0 is Str)),
        method != "initialize"@ && method != "ping"@ && method != "tools/list"@ && method != "tools/call"@,
    ensures
        mcp_plan(instance, request) is Reply,
        carries_error(mcp_plan(instance, request)->Reply_0, id, -32601, "Method not found: "@ + method),
{
    lemma_names_differ();
    reveal_strlit("");
    assert(method.len() == 0 ==> method =~= ""@);
}

/// A request without an id is accepted with no body, whatever it says, and nothing is called.
pub proof fn law_notifications_are_accepted<S, W>(instance: InstanceView<S, W>, request: JsonView)
    requires
        request.field("id"@) is None,
    ensures
        mcp_plan(instance, request) is Reply,
        mcp_plan(instance, request)->Reply_0.status == 202,
        mcp_plan(instance, request)->Reply_0.body is None,
        accepted_reply().status == 202 && accepted_reply().body is None,
{
}

/// Whether a value is what MCP shows of another: one part, of the type text, that holds its text.
pub open spec fn shows_text(content: JsonView, value: JsonView, is_error: bool) -> bool {
    &&& content.field("isError"@) == Some(JsonView::Bool(is_error))
    &&& content.field("content"@) is Some
    &&& content.field("content"@)->0 is Array
    &&& content.field("content"@)->0->Array_0.len() == 1
    &&& content.field("content"@)->0->Array_0[0].field("type"@) == Some(JsonView::Str("text"@))
    &&& content.field("content"@)->0->Array_0[0].field("text"@) == Some(JsonView::Str(json_text(value)))
    &&& forall|name: Seq<char>| #[trigger] content.field(name) is Some ==> name == "content"@ || name == "isError"@
}

/// A call that ended well is answered with its value: over REST as the body, and over MCP as the
/// text of a tool result.
pub proof fn law_good_end_is_answered(value: JsonView, id: JsonView)
    ensures
        AnswerView::Rest.reply(Ok(value)).status == 200,
        AnswerView::Rest.reply(Ok(value)).body == Some(value),
        ({
            let reply = AnswerView::Tool(id).reply(Ok(value));
            let content = reply.body->0.field("result"@)->0;
            carries_result(reply, id, content) && shows_text(content, value, false)
        }),
{
    lemma_names_differ();
}

/// A call that did not end well is answered with what went wrong: over REST under a status of its
/// own, and over MCP as the text of a tool result that is marked as an error.
pub proof fn law_bad_end_is_answered(e: HubErrorView, id: JsonView)
    ensures
        AnswerView::Rest.reply(Err(e)) == error_reply(e),
        ({
            let reply = AnswerView::Tool(id).reply(Err(e));
            let content = reply.body->0.field("result"@)->0;
            carries_result(reply, id, content) && shows_text(content, e.json(), true)
        }),
{
    lemma_names_differ();
}

/// Every error has its status, and a body with the error alone.
pub proof fn law_errors_have_statuses(e: HubErrorView, name: Seq<char>)
    ensures
        e is NotFound ==> error_reply(e).status == 404,
        e is Ambiguous ==> error_reply(e).status == 409,
        e is Gone ==> error_reply(e).status == 503,
        e is Timeout ==> error_reply(e).status == 504,
        e is App ==> error_reply(e).status == 422,
        error_reply(e).body is Some,
        error_reply(e).body->0.field("error"@) == Some(e.json()),
        error_reply(e).body->0.field(name) is Some ==> name == "error"@,
{
}

/// What went wrong is said in a message that names what was asked for; an ambiguity lists every id;
/// and an app's own error is passed through as it is.
pub proof fn law_errors_name_what_is_wrong(
    app: Seq<char>,
    instance: Seq<char>,
    ids: Seq<Seq<char>>,
    own: JsonView,
    k: int,
)
    ensures
        ({
            let whole = HubErrorView::NotFound { app, instance: None };
            let one = HubErrorView::NotFound { app, instance: Some(instance) };
            let several = HubErrorView::Ambiguous { app, instances: ids };
            let listed = several.json().field("instances"@)->0;
            &&& not_found(app, instance) == one
            &&& whole.json().field("message"@) == Some(
                JsonView::Str(
                    "No connected app matches '"@ + app + "'. Fetch GET /apps to list what is connected."@,
                ),
            )
            &&& one.json().field("message"@) == Some(
                JsonView::Str(
                    "No connected app matches '"@ + (app + "/"@ + instance)
                        + "'. Fetch GET /apps to list what is connected."@,
                ),
            )
            &&& several.json().field("message"@) == Some(
                JsonView::Str(
                    "Several instances of '"@ + app + "' are connected; address one explicitly as /"@ + app
                        + "/<instanceId>/…"@,
                ),
            )
            &&& several.json().field("instances"@) is Some
            &&& listed is Array
            &&& listed->Array_0.len() == ids.len()
            &&& 0 <= k < ids.len() ==> listed->Array_0[k] == JsonView::Str(ids[k])
            &&& HubErrorView::Gone.json().field("message"@) == Some(
                JsonView::Str("The app disconnected before answering."@),
            )
            &&& HubErrorView::Timeout.json().field("message"@) == Some(
                JsonView::Str("The app did not respond in time."@),
            )
            &&& HubErrorView::App(own).json() == own
        }),
{
    lemma_names_differ();
}

/// A call that was not sent, or whose waiter was dropped, ends because the app is gone; one without a
/// reply ends because time ran out; and one with a reply ends as the reply says.
pub proof fn law_calls_end_for_a_reason(outcome: OutcomeView)
    ensures
        outcome is Unsent || outcome is Dropped ==> call_result(outcome) == Err::<JsonView, HubErrorView>(
            HubErrorView::Gone,
        ),
        outcome is TimedOut ==> call_result(outcome) == Err::<JsonView, HubErrorView>(HubErrorView::Timeout),
        outcome is Replied && outcome->Replied_0.ok ==> call_result(outcome) == Ok::<JsonView, HubErrorView>(
            outcome->Replied_0.result,
        ),
        outcome is Replied && !outcome->Replied_0.ok ==> call_result(outcome) == Err::<JsonView, HubErrorView>(
            HubErrorView::App(outcome->Replied_0.error),
        ),
{
}

/// An MCP request leads to a call exactly where it is a tool call with an id and a name, and changes
/// nothing otherwise.
pub proof fn law_only_tool_calls_are_relayed<S, W>(
    before: AppStateView<S, W>,
    after: AppStateView<S, W>,
    instance: InstanceView<S, W>,
    request: JsonView,
    waiter: W,
    step: Step,
)
    requires
        before.valid(),
        before.known(instance.handle()),
        step.follows(before, after, instance, mcp_plan(instance, request), waiter),
    ensures
        step is Relay <==> {
            let name = request.field("params"@)->0.field("name"@);
            &&& request.field("id"@) is Some
            &&& request.field("method"@) == Some(JsonView::Str("tools/call"@))
            &&& request.field("params"@) is Some
            &&& name is Some && name->0 is Str && name->0->Str_0.len() > 0
        },
        step is Reply ==> after == before,
        step is Relay ==> after.connection(instance.handle()).pending.contains_key(step->Relay_0.call.id@),
{
    lemma_names_differ();
    reveal_strlit("");
    let method = request.field("method"@);
    if method is Some && method->0 is Str {
        assert(method == Some(JsonView::Str(method->0->Str_0)));
    }
}

/// A call that is relayed goes to the connection that was asked for, is answered as was asked for,
/// and is in flight there under an id of its own, with the waiter that was given.
pub proof fn law_relay_is_faithful<S, W>(
    before: AppStateView<S, W>,
    after: AppStateView<S, W>,
    handle: HandleView,
    action: Seq<char>,
    payload: JsonView,
    answer: AnswerView,
    waiter: W,
    step: Step,
    other: Seq<char>,
)
    requires
        before.valid(),
        before.known(handle),
        step.relays(before, after, handle, action, payload, answer, waiter),
    ensures
        step is Relay,
        step->Relay_0.handle@ == handle,
        step->Relay_0.answer@ == answer,
        ({
            let id = step->Relay_0.call.id@;
            &&& is_request_id(id)
            &&& after.connection(handle).pending.contains_key(id)
            &&& after.connection(handle).pending[id] == waiter
            &&& other != id ==> after.connection(handle).pending.contains_key(other) == before.connection(
                handle,
            ).pending.contains_key(other)
            &&& step->Relay_0.call.frame@ == object_text(
                seq![("id"@, JsonView::Str(id)), ("action"@, JsonView::Str(action)), ("payload"@, payload)],
            )
        }),
{
    law_frame_is_the_call(step->Relay_0.call.id@, action, payload);
}

/// A request that is answered at once changes nothing.
pub proof fn law_reply_is_all_there_is<S, W>(
    before: AppStateView<S, W>,
    after: AppStateView<S, W>,
    reply: ReplyView,
    step: Step,
)
    requires
        step.replies(before, after, reply),
    ensures
        step is Reply,
        step->Reply_0@ == reply,
        after == before,
{
}

/// How long apps and clients are waited for, in seconds.
pub proof fn law_patience()
    ensures
        HELLO_TIMEOUT_SECS == 10,
        REQUEST_TIMEOUT_SECS == 30,
{
}

/// The preferred port is tried first, then each of the next nineteen in turn, and in the end the
/// choice is left to the system.
pub proof fn law_ports_are_tried_upward(k: int)
    ensures
        ports().len() == 21,
        ports()[0] == 7421,
        0 < k < 20 ==> ports()[k] == ports()[k - 1] + 1,
        ports()[20] == 0,
{
}

} // verus!
