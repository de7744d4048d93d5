//! What holds across the operations of the bridge.

use crate::chance::{is_random_uuid, lemma_steps_differ, short_id_of, stepped, SHORT_IDS};
use crate::codec::json_text;
use crate::discovery::{instance_json, instance_url};
use crate::hub_error::HubErrorView;
use crate::json::JsonView;
use crate::registry::{
    call_result, info_of, AppMessage, AppStateView, HandleView, InstanceView, Kicked, OutcomeView,
};
use crate::server::{
    accepted_reply, error_reply, error_status, mcp_plan, rpc_result, tool_content, tools_json, AnswerView, PlanView,
    Step,
};
use crate::slug::{is_name, is_slug_char, reserved_slugs};
use crate::socket::{HelloStep, SocketStep};
use crate::table::{has_key, keyed, waiter_entries};
use crate::wire::{
    error_frame_text, first_frame, is_hello, outbound_view, response_of, welcome_json, HelloView, OutboundView,
    ResponseView,
};
use vstd::prelude::*;
use vstd::set_lib::lemma_len_subset;

verus! {

/// Registering a connection keeps the state in order.
pub proof fn law_registering_keeps_order<S, W>(
    v: AppStateView<S, W>,
    app: Seq<char>,
    id: Seq<char>,
    hello: HelloView,
    sender: S,
    now: u64,
)
    requires
        v.valid(),
        v.conn_counter < u64::MAX,
        is_name(app),
        is_name(id),
    ensures
        v.registered(app, id, hello, sender, now).valid(),
{
}

/// Nothing that happens to a connection brings the state out of order.
pub proof fn law_every_step_keeps_order<S, W>(
    v: AppStateView<S, W>,
    handle: HandleView,
    id: Seq<char>,
    waiter: W,
)
    requires
        v.valid(),
    ensures
        v.removed(handle).valid(),
        v.settled(handle, id).valid(),
        v.kicked(handle.key()).valid(),
        v.forgotten(handle).valid(),
        v.known(handle) ==> v.called(handle, id, waiter).valid(),
{
}

/// A connection that lost its key never holds it again, whatever happens.
pub proof fn law_lost_key_stays_lost<S, W>(
    v: AppStateView<S, W>,
    lost: HandleView,
    handle: HandleView,
    app: Seq<char>,
    id: Seq<char>,
    hello: HelloView,
    sender: S,
    now: u64,
    message: JsonView,
    waiter: W,
)
    requires
        v.valid(),
        v.conn_counter < u64::MAX,
        lost.conn_id <= v.conn_counter,
        !v.current(lost),
    ensures
        !v.registered(app, id, hello, sender, now).current(lost),
        !v.removed(handle).current(lost),
        !v.heard(handle, message).current(lost),
        !v.settled(handle, id).current(lost),
        !v.kicked(handle.key()).current(lost),
        !v.forgotten(handle).current(lost),
        v.known(handle) ==> !v.called(handle, id, waiter).current(lost),
{
}

/// A connection that is turned away leaves no trace.
pub proof fn law_rejected_connection_leaves_no_trace<S, W>(
    before: AppStateView<S, W>,
    after: AppStateView<S, W>,
    first: Result<HelloView, Seq<char>>,
    sender: S,
    step: HelloStep<S, W>,
)
    requires
        step.greets(before, after, first, sender),
        step is Reject,
    ensures
        after == before,
{
}

/// Only a hello gets a connection in.
pub proof fn law_hello_comes_first<S, W>(
    before: AppStateView<S, W>,
    after: AppStateView<S, W>,
    first: JsonView,
    sender: S,
    step: HelloStep<S, W>,
)
    requires
        step.greets(before, after, first_frame(Ok(first)), sender),
        !is_hello(first),
    ensures
        step is Reject,
{
}

/// An app that brings an id of its own is exposed under it, whoever held it before. So a page that
/// reloads finds itself where it was.
pub proof fn law_own_id_is_kept<S, W>(
    before: AppStateView<S, W>,
    after: AppStateView<S, W>,
    hello: HelloView,
    own: Seq<char>,
    sender: S,
    step: HelloStep<S, W>,
)
    requires
        step.greets(before, after, Ok(hello), sender),
        hello.instance_id == Some(own),
        is_name(hello.app),
        is_name(own),
    ensures
        step is Welcome,
        step->registered.handle@.key() == (hello.app, own),
        step->frame@ == json_text(
            welcome_json(instance_url(before.base_url(), hello.app, own), hello.app, own),
        ),
        after.current(step->registered.handle@),
{
}

/// An app that brings no id of its own displaces nobody: one more instance of it is connected, and
/// those that were stay as they are.
pub proof fn law_assigned_id_displaces_nobody<S, W>(
    before: AppStateView<S, W>,
    after: AppStateView<S, W>,
    hello: HelloView,
    sender: S,
    step: HelloStep<S, W>,
)
    requires
        step.greets(before, after, Ok(hello), sender),
        hello.instance_id is None,
        step is Welcome,
    ensures
        step->registered.evicted is None,
        step->registered.handle@.app == hello.app,
        !before.instances.contains_key(step->registered.handle@.key()),
        after.instances.dom() == before.instances.dom().insert(step->registered.handle@.key()),
        forall|key: (Seq<char>, Seq<char>)| #[trigger]
            before.instances.contains_key(key) ==> after.instances[key] == before.instances[key],
{
    let id = step->registered.handle@.id;
    let drawn = choose|drawn: u128| is_random_uuid(drawn) && #[trigger] before.first_free(hello.app, drawn, id);
    assert(before.first_free(hello.app, drawn, id));
}

/// The keys of the first ids from a number on, all of which are taken.
proof fn lemma_taken_keys<S, W>(v: AppStateView<S, W>, app: Seq<char>, n: u128, count: nat) -> (keys: Set<
    (Seq<char>, Seq<char>),
>)
    requires
        v.all_ids_taken(app),
        count <= SHORT_IDS,
    ensures
        keys.finite(),
        keys.len() == count,
        keys.subset_of(v.instances.dom()),
        forall|key: (Seq<char>, Seq<char>)| #[trigger]
            keys.contains(key) ==> exists|j: int| 0 <= j < count && key == (app, short_id_of(#[trigger] stepped(n, j))),
    decreases count,
{
    if count == 0 {
        Set::empty()
    } else {
        let fewer = lemma_taken_keys(v, app, n, (count - 1) as nat);
        let key = (app, short_id_of(stepped(n, count - 1)));
        assert(!fewer.contains(key)) by {
            if fewer.contains(key) {
                let j = choose|j: int| 0 <= j < count - 1 && key == (app, short_id_of(#[trigger] stepped(n, j)));
                lemma_steps_differ(n, j, count - 1);
            }
        }
        assert(v.instances.contains_key(key));
        let keys = fewer.insert(key);
        assert forall|k: (Seq<char>, Seq<char>)| #[trigger] keys.contains(k) implies exists|j: int|
            0 <= j < count && k == (app, short_id_of(#[trigger] stepped(n, j))) by {
            if k == key {
                assert(k == (app, short_id_of(stepped(n, count - 1))));
            } else {
                assert(fewer.contains(k));
                let j = choose|j: int| 0 <= j < count - 1 && k == (app, short_id_of(#[trigger] stepped(n, j)));
                assert(k == (app, short_id_of(stepped(n, j))));
            }
        }
        keys
    }
}

/// Ids do not run out before as many instances are connected as there are ids.
pub proof fn law_ids_do_not_run_out<S, W>(v: AppStateView<S, W>, app: Seq<char>)
    requires
        v.valid(),
        v.instances.dom().len() < SHORT_IDS,
    ensures
        !v.all_ids_taken(app),
{
    if v.all_ids_taken(app) {
        let keys = lemma_taken_keys(v, app, 0, SHORT_IDS as nat);
        lemma_len_subset(keys, v.instances.dom());
    }
}

/// A hello is turned away if and only if a name in it is bad, as long as ids have not run out.
pub proof fn law_only_bad_names_are_turned_away<S, W>(
    before: AppStateView<S, W>,
    after: AppStateView<S, W>,
    hello: HelloView,
    sender: S,
    step: HelloStep<S, W>,
)
    requires
        before.valid(),
        before.instances.dom().len() < SHORT_IDS,
        step.greets(before, after, Ok(hello), sender),
    ensures
        step is Reject <==> !is_name(hello.app) || (hello.instance_id is Some && !is_name(hello.instance_id->0)),
        step is Welcome || step is Reject,
{
    law_ids_do_not_run_out(before, hello.app);
}

/// The connection that registers last holds the key: whoever held it before holds it no more and has
/// no calls in flight, and every other connection is untouched.
pub proof fn law_last_connection_wins<S, W>(
    v: AppStateView<S, W>,
    app: Seq<char>,
    id: Seq<char>,
    hello: HelloView,
    sender: S,
    now: u64,
    other: HandleView,
)
    requires
        v.valid(),
        v.conn_counter < u64::MAX,
    ensures
        v.registered(app, id, hello, sender, now).current(v.newcomer(app, id, hello, sender, now).handle()),
        v.current(other) && other.key() == (app, id) ==> !v.registered(app, id, hello, sender, now).current(other)
            && v.registered(app, id, hello, sender, now).connection(other) == v.connection(other).with_pending(
            Map::empty(),
        ),
        v.current(other) && other.key() != (app, id) ==> v.registered(app, id, hello, sender, now).current(other)
            && v.registered(app, id, hello, sender, now).instances[other.key()] == v.instances[other.key()],
        v.is_lost(other) ==> v.registered(app, id, hello, sender, now).is_lost(other) && v.registered(
            app,
            id,
            hello,
            sender,
            now,
        ).connection(other) == v.connection(other),
{
}

/// When a connection ends that was replaced, its replacement stays.
pub proof fn law_replaced_connection_ends_in_silence<S, W>(
    v: AppStateView<S, W>,
    app: Seq<char>,
    id: Seq<char>,
    hello: HelloView,
    sender: S,
    now: u64,
    replaced: HandleView,
)
    requires
        v.valid(),
        v.conn_counter < u64::MAX,
        v.current(replaced),
        replaced.key() == (app, id),
    ensures
        v.registered(app, id, hello, sender, now).removed(replaced) == v.registered(app, id, hello, sender, now),
        v.registered(app, id, hello, sender, now).removed(replaced).forgotten(replaced).instances == v.registered(
            app,
            id,
            hello,
            sender,
            now,
        ).instances,
{
    let after = v.registered(app, id, hello, sender, now);
    assert(after.is_lost(replaced));
    assert(after.removed(replaced).lost =~= after.lost);
}

/// When a connection ends that claimed a free key, the key is free again and nothing else changed
/// but the count of connections.
pub proof fn law_ending_undoes_registering<S, W>(
    v: AppStateView<S, W>,
    app: Seq<char>,
    id: Seq<char>,
    hello: HelloView,
    sender: S,
    now: u64,
)
    requires
        v.valid(),
        v.conn_counter < u64::MAX,
        !v.instances.contains_key((app, id)),
    ensures
        ({
            let handle = v.newcomer(app, id, hello, sender, now).handle();
            let after = v.registered(app, id, hello, sender, now).removed(handle).forgotten(handle);
            after == (AppStateView { conn_counter: (v.conn_counter + 1) as u64, ..v })
        }),
{
    let handle = v.newcomer(app, id, hello, sender, now).handle();
    let after = v.registered(app, id, hello, sender, now).removed(handle).forgotten(handle);
    assert(after.instances =~= v.instances);
    assert(after.lost =~= v.lost);
}

/// When a connection ends, it is known no more, every call in flight on it is given up, and nobody
/// else is touched.
pub proof fn law_ended_connection_is_gone<S, W>(
    before: AppStateView<S, W>,
    after: AppStateView<S, W>,
    handle: HandleView,
    other: HandleView,
    id: Seq<char>,
    step: SocketStep<W>,
)
    requires
        before.valid(),
        step.ends(before, after, handle),
    ensures
        after.valid(),
        !after.known(handle),
        before.in_flight(handle, id) ==> has_key(waiter_entries(step->End_0@), id),
        !after.in_flight(handle, id),
        other != handle ==> after.current(other) == before.current(other) && after.is_lost(other)
            == before.is_lost(other) && (before.known(other) ==> after.connection(other) == before.connection(other)),
{
    if before.in_flight(handle, id) {
        assert(keyed(waiter_entries(step->End_0@)).contains_key(id));
    }
}

/// A key has one holder.
pub proof fn law_one_holder<S, W>(v: AppStateView<S, W>, a: HandleView, b: HandleView)
    requires
        v.current(a),
        v.current(b),
        a.key() == b.key(),
    ensures
        a == b,
{
}

/// Whatever an app sends, its connection keeps its key, its number, its time of connection and the
/// way to it; no other connection is touched, and the state stays in order.
pub proof fn law_identity_is_fixed<S, W>(
    v: AppStateView<S, W>,
    handle: HandleView,
    message: JsonView,
    other: HandleView,
)
    requires
        v.valid(),
    ensures
        v.heard(handle, message).valid(),
        v.heard(handle, message).instances.dom() == v.instances.dom(),
        v.heard(handle, message).lost.dom() == v.lost.dom(),
        v.heard(handle, message).port == v.port,
        v.heard(handle, message).conn_counter == v.conn_counter,
        v.heard(handle, message).current(other) == v.current(other),
        v.heard(handle, message).is_lost(other) == v.is_lost(other),
        v.known(other) ==> {
            let before = v.connection(other);
            let after = v.heard(handle, message).connection(other);
            &&& after.handle() == before.handle()
            &&& after.connected_at == before.connected_at
            &&& after.sender == before.sender
            &&& other != handle ==> after == before
        },
{
    let after = v.heard(handle, message);
    assert(after.instances.dom() =~= v.instances.dom());
    assert(after.lost.dom() =~= v.lost.dom());
    assert forall|key: (Seq<char>, Seq<char>)| #[trigger] after.instances.contains_key(key) implies ({
        let instance = after.instances[key];
        &&& instance.key() == key
        &&& is_name(key.0)
        &&& is_name(key.1)
        &&& instance.info.tools is Array
        &&& 0 < instance.conn_id <= after.conn_counter
    }) by {
        assert(v.instances.contains_key(key));
    }
}

/// A hello that is sent again refreshes what is said about the instance and keeps its calls in
/// flight.
pub proof fn law_refreshing_keeps_calls<S, W>(v: AppStateView<S, W>, handle: HandleView, hello: HelloView)
    requires
        v.valid(),
        v.known(handle),
    ensures
        v.refreshed(handle, hello).connection(handle) == v.connection(handle).with_info(info_of(hello)),
        v.refreshed(handle, hello).pending_on(handle) == v.pending_on(handle),
{
}

/// What a connection says that lost its key is not shown: the connected instances stay as they are.
pub proof fn law_lost_connection_is_not_shown<S, W>(v: AppStateView<S, W>, lost: HandleView, message: JsonView)
    requires
        v.valid(),
        !v.current(lost),
    ensures
        v.heard(lost, message).instances == v.instances,
{
}

/// The reply to a call reaches the waiter of that call, and the call is in flight no more.
pub proof fn law_reply_reaches_its_call<S, W>(
    v: AppStateView<S, W>,
    handle: HandleView,
    id: Seq<char>,
    waiter: W,
    message: JsonView,
    response: ResponseView,
    outcome: AppMessage<W>,
)
    requires
        v.valid(),
        v.known(handle),
        !is_hello(message),
        response_of(message) == Some(response),
        response.id == id,
        outcome.answers(v.called(handle, id, waiter), handle, message),
    ensures
        v.called(handle, id, waiter).in_flight(handle, id),
        outcome is Deliver,
        outcome->waiter == waiter,
        outcome->response@ == response,
        !v.called(handle, id, waiter).heard(handle, message).in_flight(handle, id),
{
}

/// The client of a call gets what the app replied: its result, or the error that it gave.
pub proof fn law_client_gets_the_reply(response: ResponseView)
    ensures
        response.ok ==> AnswerView::Rest.reply(call_result(OutcomeView::Replied(response))).body == Some(
            response.result,
        ),
        !response.ok ==> AnswerView::Rest.reply(call_result(OutcomeView::Replied(response))) == error_reply(
            HubErrorView::App(response.error),
        ),
        HubErrorView::App(response.error).json() == response.error,
{
}

/// A reply that answers no call in flight comes to nothing: one that comes a second time, one that
/// comes too late, and one whose connection was told to go.
pub proof fn law_stray_reply_is_ignored<S, W>(
    v: AppStateView<S, W>,
    handle: HandleView,
    message: JsonView,
    response: ResponseView,
    outcome: AppMessage<W>,
)
    requires
        v.valid(),
        !is_hello(message),
        response_of(message) == Some(response),
        !v.in_flight(handle, response.id),
        outcome.answers(v, handle, message),
    ensures
        outcome is Ignored,
        v.heard(handle, message) == v,
        !v.heard(handle, message).in_flight(handle, response.id),
{
    if v.known(handle) {
        let i = v.connection(handle);
        assert(i.pending.remove(response.id) =~= i.pending);
        if v.current(handle) {
            assert(v.instances.insert(handle.key(), i) =~= v.instances);
        } else {
            assert(v.lost.insert(handle.conn_id, i) =~= v.lost);
        }
    }
}

/// Once a call was answered, given up for want of time, or lost with its connection, no reply can
/// reach its waiter.
pub proof fn law_ended_call_is_not_in_flight<S, W>(v: AppStateView<S, W>, handle: HandleView, id: Seq<char>)
    requires
        v.valid(),
    ensures
        !v.settled(handle, id).in_flight(handle, id),
        !v.removed(handle).in_flight(handle, id),
        v.current(handle) ==> !v.kicked(handle.key()).in_flight(handle, id),
        !v.removed(handle).forgotten(handle).in_flight(handle, id),
{
}

/// A message on one connection ends at most the call that it answers: every other call stays in
/// flight, with its waiter.
pub proof fn law_other_calls_stay<S, W>(
    v: AppStateView<S, W>,
    handle: HandleView,
    message: JsonView,
    other: HandleView,
    id: Seq<char>,
)
    requires
        v.valid(),
        v.in_flight(other, id),
        other != handle || is_hello(message) || response_of(message) is None || response_of(message)->0.id != id,
    ensures
        v.heard(handle, message).in_flight(other, id),
        v.heard(handle, message).connection(other).pending[id] == v.connection(other).pending[id],
{
}

/// Giving up a call undoes entering it.
pub proof fn law_giving_up_undoes_calling<S, W>(
    v: AppStateView<S, W>,
    handle: HandleView,
    id: Seq<char>,
    waiter: W,
)
    requires
        v.valid(),
        v.known(handle),
        !v.in_flight(handle, id),
    ensures
        v.called(handle, id, waiter).settled(handle, id) == v,
{
    let i = v.connection(handle);
    let after = v.called(handle, id, waiter).settled(handle, id);
    assert(i.pending.insert(id, waiter).remove(id) =~= i.pending);
    assert(after.instances =~= v.instances);
    assert(after.lost =~= v.lost);
}

/// Where exactly one instance of an app is connected, the app stands for it and for no other, its
/// full path leads to it as well, and there is no error to give.
pub proof fn law_shorthand_is_decided<S, W>(
    v: AppStateView<S, W>,
    app: Seq<char>,
    instance: InstanceView<S, W>,
    e: HubErrorView,
)
    requires
        v.only_instance(app, instance),
    ensures
        !v.unresolved(app, e),
        v.instances.contains_key(instance.key()),
        v.instances[instance.key()] == instance,
        forall|other: InstanceView<S, W>| v.only_instance(app, other) ==> other == instance,
{
    assert(v.instances.contains_key((app, instance.id)));
    match e {
        HubErrorView::Ambiguous { app: _, instances } => {
            if v.unresolved(app, e) {
                assert(instances.contains(instances[0]));
                assert(instances.contains(instances[1]));
                assert(v.instances.contains_key((app, instances[0])));
                assert(v.instances.contains_key((app, instances[1])));
            }
        },
        _ => {},
    }
}

/// An app that stands for no instance is not found where none is connected, and ambiguous where
/// several are.
pub proof fn law_unresolved_says_why<S, W>(v: AppStateView<S, W>, app: Seq<char>, id: Seq<char>, e: HubErrorView)
    requires
        v.unresolved(app, e),
    ensures
        e is NotFound || e is Ambiguous,
        v.instances.contains_key((app, id)) ==> e is Ambiguous && e->instances.contains(id),
        e is Ambiguous ==> v.instances.contains_key((app, e->instances[0])) && v.instances.contains_key(
            (app, e->instances[1]),
        ) && e->instances[0] != e->instances[1],
{
    if let HubErrorView::Ambiguous { app: _, instances } = e {
        assert(instances.contains(instances[0]));
        assert(instances.contains(instances[1]));
    }
}

/// An MCP tool call and the REST operation of that name are one dispatch: the call goes to the same
/// connection, and under the same request id the app gets the same frame and the same call is in
/// flight. A tool call without arguments has the payload `{}`.
pub proof fn law_rest_and_mcp_dispatch_alike<S, W>(
    v: AppStateView<S, W>,
    instance: InstanceView<S, W>,
    request: JsonView,
    rpc_id: JsonView,
    params: JsonView,
    action: Seq<char>,
    payload: JsonView,
    waiter: W,
    rest: Step,
    after_rest: AppStateView<S, W>,
    tool: Step,
    after_tool: AppStateView<S, W>,
)
    requires
        action.len() > 0,
        request.field("id"@) == Some(rpc_id),
        request.text_field("method"@) == Some("tools/call"@),
        request.field("params"@) == Some(params),
        params.text_field("name"@) == Some(action),
        payload == (match params.field("arguments"@) {
            Some(arguments) => arguments,
            None => JsonView::Object(Map::empty()),
        }),
        rest.relays(v, after_rest, instance.handle(), action, payload, AnswerView::Rest, waiter),
        tool.follows(v, after_tool, instance, mcp_plan(instance, request), waiter),
    ensures
        tool is Relay,
        tool->Relay_0.handle@ == rest->Relay_0.handle@,
        tool->Relay_0.call.id@ == rest->Relay_0.call.id@ ==> tool->Relay_0.call.frame@ == rest->Relay_0.call.frame@
            && after_tool == after_rest,
{
    lemma_methods_differ();
}

proof fn lemma_methods_differ()
    ensures
        "tools/call"@ != "initialize"@,
        "tools/call"@ != "ping"@,
        "tools/call"@ != "tools/list"@,
        "tools/list"@ != "initialize"@,
        "tools/list"@ != "ping"@,
{
    reveal_strlit("tools/call");
    reveal_strlit("tools/list");
    reveal_strlit("initialize");
    reveal_strlit("ping");
    assert("tools/call"@[6] == 'c');
    assert("tools/list"@[6] == 'l');
    assert("tools/call"@[0] == 't');
    assert("tools/list"@[0] == 't');
    assert("initialize"@[0] == 'i');
    assert("ping"@.len() == 4);
}

/// The catalog that MCP lists is the catalog that the tools route serves.
pub proof fn law_catalog_is_served_alike<S, W>(
    instance: InstanceView<S, W>,
    request: JsonView,
    rpc_id: JsonView,
)
    requires
        request.field("id"@) == Some(rpc_id),
        request.text_field("method"@) == Some("tools/list"@),
    ensures
        mcp_plan(instance, request) == PlanView::Reply(
            rpc_result(rpc_id, tools_json(instance.info.tools)),
        ),
{
    lemma_methods_differ();
}

/// A notification is accepted without a body, whatever it says.
pub proof fn law_notification_is_accepted<S, W>(instance: InstanceView<S, W>, request: JsonView)
    requires
        request.field("id"@) is None,
    ensures
        mcp_plan(instance, request) == PlanView::Reply(accepted_reply()),
{
}

/// An MCP request that is not a notification is answered with its own id, and never with an HTTP
/// error.
pub proof fn law_mcp_answers_carry_the_id<S, W>(
    instance: InstanceView<S, W>,
    request: JsonView,
    rpc_id: JsonView,
    result: Result<JsonView, HubErrorView>,
)
    requires
        request.field("id"@) == Some(rpc_id),
    ensures
        ({
            let reply = match mcp_plan(instance, request) {
                PlanView::Reply(reply) => reply,
                PlanView::Call { action, payload, id } => AnswerView::Tool(id).reply(result),
            };
            &&& reply.status == 200
            &&& reply.body is Some
            &&& reply.body->0.field("id"@) == Some(rpc_id)
            &&& reply.body->0.field("jsonrpc"@) == Some(JsonView::Str("2.0"@))
        }),
{
    lemma_rpc_fields_differ();
}

proof fn lemma_rpc_fields_differ()
    ensures
        "id"@ != "result"@,
        "id"@ != "error"@,
        "id"@ != "jsonrpc"@,
        "jsonrpc"@ != "result"@,
        "jsonrpc"@ != "error"@,
        "result"@ != "error"@,
        "isError"@ != "content"@,
{
    reveal_strlit("id");
    reveal_strlit("result");
    reveal_strlit("error");
    reveal_strlit("jsonrpc");
    reveal_strlit("isError");
    reveal_strlit("content");
    assert("id"@.len() == 2);
    assert("result"@.len() == 6);
    assert("error"@.len() == 5);
    assert("jsonrpc"@.len() == 7);
    assert("isError"@[0] == 'i');
    assert("content"@[0] == 'c');
}

/// Over MCP, what went wrong with a call comes back as a tool result that is marked as an error,
/// and not as an error of the protocol.
pub proof fn law_mcp_failures_are_tool_results(rpc_id: JsonView, e: HubErrorView)
    ensures
        ({
            let reply = AnswerView::Tool(rpc_id).reply(Err(e));
            &&& reply.status == 200
            &&& reply.body is Some
            &&& reply.body->0.field("error"@) is None
            &&& reply.body->0.field("result"@) == Some(tool_content(e.json(), true))
            &&& tool_content(e.json(), true).field("isError"@) == Some(JsonView::Bool(true))
        }),
{
    lemma_rpc_fields_differ();
}

/// Over REST, an error comes with a status of its own and with a body that holds it; what is not
/// the app's own error says what happened in a message.
pub proof fn law_errors_speak(e: HubErrorView)
    ensures
        error_reply(e).body is Some,
        error_reply(e).body->0.field("error"@) == Some(e.json()),
        error_reply(e).status == error_status(e),
        !(e is App) ==> e.json().text_field("message"@) is Some,
{
    reveal_strlit("message");
    reveal_strlit("instances");
    assert("message"@.len() == 7);
    assert("instances"@.len() == 9);
}

/// Two errors have the same status only if they are of the same kind.
pub proof fn law_statuses_tell_errors_apart(a: HubErrorView, b: HubErrorView)
    requires
        error_status(a) == error_status(b),
    ensures
        a is NotFound == b is NotFound,
        a is Ambiguous == b is Ambiguous,
        a is Gone == b is Gone,
        a is Timeout == b is Timeout,
        a is App == b is App,
{
}

/// A connection that is told to go hears why before it is closed.
pub proof fn law_farewell_comes_first<W>(
    kicked: Kicked<W>,
    message: Seq<char>,
    pending: Map<Seq<char>, W>,
)
    requires
        kicked.says(message, pending),
    ensures
        outbound_view(kicked.messages@).len() == 2,
        outbound_view(kicked.messages@)[0] == OutboundView::Frame(error_frame_text(message)),
        outbound_view(kicked.messages@)[1] == OutboundView::Close,
{
}

/// The endpoints that an app is told are the endpoints that discovery lists.
pub proof fn law_endpoints_agree<S, W>(base: Seq<char>, i: InstanceView<S, W>)
    ensures
        ({
            let told = welcome_json(instance_url(base, i.app, i.id), i.app, i.id);
            let listed = instance_json(base, i);
            &&& told.field("mcpUrl"@) == listed.field("mcpUrl"@)
            &&& told.field("apiUrl"@) == listed.field("apiUrl"@)
            &&& told.field("instanceId"@) == listed.field("instanceId"@)
            &&& told.field("mcpUrl"@) is Some
            &&& told.field("apiUrl"@) is Some
            &&& told.field("instanceId"@) is Some
        }),
{
    reveal_strlit("type");
    reveal_strlit("app");
    reveal_strlit("instanceId");
    reveal_strlit("baseUrl");
    reveal_strlit("mcpUrl");
    reveal_strlit("apiUrl");
    reveal_strlit("label");
    reveal_strlit("connectedAt");
    reveal_strlit("toolsUrl");
    reveal_strlit("tools");
    assert("mcpUrl"@[0] == 'm');
    assert("apiUrl"@[0] == 'a');
    assert("instanceId"@.len() == 10);
    assert("mcpUrl"@.len() == 6);
    assert("apiUrl"@.len() == 6);
    assert("connectedAt"@.len() == 11);
    assert("toolsUrl"@.len() == 8);
    assert("tools"@.len() == 5);
    assert("label"@.len() == 5);
    assert("baseUrl"@.len() == 7);
    assert("type"@.len() == 4);
    assert("app"@.len() == 3);
}

/// Different instances are exposed at different places.
pub proof fn law_endpoints_differ(
    base: Seq<char>,
    app_a: Seq<char>,
    id_a: Seq<char>,
    app_b: Seq<char>,
    id_b: Seq<char>,
)
    requires
        is_name(app_a),
        is_name(id_a),
        is_name(app_b),
        is_name(id_b),
        instance_url(base, app_a, id_a) == instance_url(base, app_b, id_b),
    ensures
        app_a == app_b,
        id_a == id_b,
{
    reveal_strlit("/");
    let a = instance_url(base, app_a, id_a);
    let b = instance_url(base, app_b, id_b);
    let n = base.len() as int;
    assert("/"@.len() == 1 && "/"@[0] == '/');
    assert(!is_slug_char('/'));
    if app_a.len() < app_b.len() {
        let at = n + 1 + app_a.len();
        assert(a[at] == '/');
        assert(b[at] == app_b[app_a.len() as int]);
        assert(is_slug_char(app_b[app_a.len() as int]));
    } else if app_b.len() < app_a.len() {
        let at = n + 1 + app_b.len();
        assert(b[at] == '/');
        assert(a[at] == app_a[app_b.len() as int]);
        assert(is_slug_char(app_a[app_b.len() as int]));
    }
    assert(app_a =~= app_b) by {
        assert forall|i: int| 0 <= i < app_a.len() implies app_a[i] == app_b[i] by {
            assert(a[n + 1 + i] == app_a[i]);
            assert(b[n + 1 + i] == app_b[i]);
        }
    }
    assert(a.len() == n + 2 + app_a.len() + id_a.len());
    assert(id_a =~= id_b) by {
        assert forall|i: int| 0 <= i < id_a.len() implies id_a[i] == id_b[i] by {
            assert(a[n + 2 + app_a.len() + i] == id_a[i]);
            assert(b[n + 2 + app_a.len() + i] == id_b[i]);
        }
    }
}

/// No app and no instance bears the name of a route.
pub proof fn law_names_shadow_no_route<S, W>(v: AppStateView<S, W>, key: (Seq<char>, Seq<char>))
    requires
        v.valid(),
        v.instances.contains_key(key),
    ensures
        key.0 != "api"@ && key.0 != "mcp"@ && key.0 != "ws"@ && key.0 != "apps"@ && key.0 != "status"@ && key.0
            != "tools"@,
        key.1 != "api"@ && key.1 != "mcp"@ && key.1 != "ws"@ && key.1 != "apps"@ && key.1 != "status"@ && key.1
            != "tools"@,
{
    let all = reserved_slugs();
    assert(all[0] == "api"@ && all[1] == "mcp"@ && all[2] == "ws"@ && all[3] == "apps"@ && all[4] == "status"@ && all[5]
        == "tools"@);
    assert(is_name(key.0) && is_name(key.1));
}

} // verus!
