//! What the frames between the bridge and an app say.

use crate::codec::{json_text, string_complaint};
use crate::hub_error::HubErrorView;
use crate::json::JsonView;
use crate::registry::{call_result, AppMessage, AppStateView, HandleView, OutcomeView};
use crate::server::{AnswerView, Step};
use crate::wire::{
    error_frame_text, farewell_view, first_frame, hello_of, is_hello, optional_text, request_frame_text, response_of, welcome_json,
    HelloView, OutboundView,
};
use vstd::prelude::*;

verus! {

/// The JSON text of one field after another, with commas between. The names hold nothing that JSON
/// escapes.
pub open spec fn fields_text(fields: Seq<(Seq<char>, JsonView)>) -> Seq<char>
    decreases fields.len(),
{
    if fields.len() == 0 {
        Seq::empty()
    } else {
        let field = seq!['"'] + fields.last().0 + seq!['"', ':'] + json_text(fields.last().1);
        if fields.len() == 1 {
            field
        } else {
            fields_text(fields.drop_last()) + seq![','] + field
        }
    }
}

/// The JSON text of an object with these fields, in this order.
pub open spec fn object_text(fields: Seq<(Seq<char>, JsonView)>) -> Seq<char> {
    seq!['{'] + fields_text(fields) + seq!['}']
}

/// The text of an object with the fields of a call: its request id, its action and its payload.
pub open spec fn call_text(id: Seq<char>, action: Seq<char>, payload: JsonView) -> Seq<char> {
    object_text(seq![("id"@, JsonView::Str(id)), ("action"@, JsonView::Str(action)), ("payload"@, payload)])
}

/// The frame of a call is the text of an object with three fields: the request id, the action and
/// the payload, whatever these are.
pub proof fn law_frame_is_the_call(id: Seq<char>, action: Seq<char>, payload: JsonView)
    ensures
        request_frame_text(id, action, payload) == object_text(
            seq![("id"@, JsonView::Str(id)), ("action"@, JsonView::Str(action)), ("payload"@, payload)],
        ),
{
    let fields = seq![("id"@, JsonView::Str(id)), ("action"@, JsonView::Str(action)), ("payload"@, payload)];
    reveal_strlit("{\"id\":");
    reveal_strlit(",\"action\":");
    reveal_strlit(",\"payload\":");
    reveal_strlit("}");
    reveal_strlit("id");
    reveal_strlit("action");
    reveal_strlit("payload");
    reveal_with_fuel(fields_text, 4);
    assert(fields.drop_last() =~= seq![("id"@, JsonView::Str(id)), ("action"@, JsonView::Str(action))]);
    assert(fields.drop_last().drop_last() =~= seq![("id"@, JsonView::Str(id))]);
    assert(request_frame_text(id, action, payload) =~= object_text(fields));
}

/// What stands before the payload in a frame does not depend on the payload, and what stands there
/// before the action depends on the request id alone.
pub proof fn law_frame_parts_are_apart(
    id: Seq<char>,
    action: Seq<char>,
    payload: JsonView,
    other_action: Seq<char>,
    other_payload: JsonView,
)
    ensures
        ({
            let frame = request_frame_text(id, action, payload);
            let head = frame.len() - json_text(payload).len() - 1;
            &&& 0 < head
            &&& frame.subrange(head, frame.len() - 1) == json_text(payload)
            &&& request_frame_text(id, action, other_payload).take(head) == frame.take(head)
            &&& frame.subrange(6, 6 + json_text(JsonView::Str(id)).len() as int) == json_text(JsonView::Str(id))
            &&& request_frame_text(id, other_action, other_payload).take(6 + json_text(JsonView::Str(id)).len() as int)
                == frame.take(6 + json_text(JsonView::Str(id)).len() as int)
        }),
{
    reveal_strlit("{\"id\":");
    reveal_strlit(",\"action\":");
    reveal_strlit(",\"payload\":");
    reveal_strlit("}");
    let frame = request_frame_text(id, action, payload);
    let head = frame.len() - json_text(payload).len() - 1;
    let n = 6 + json_text(JsonView::Str(id)).len() as int;
    assert(frame.subrange(head, frame.len() - 1) =~= json_text(payload));
    assert(request_frame_text(id, action, other_payload).take(head) =~= frame.take(head));
    assert(frame.subrange(6, n) =~= json_text(JsonView::Str(id)));
    assert(request_frame_text(id, other_action, other_payload).take(n) =~= frame.take(n));
}

/// The id in the frame of a relayed call is the id under which its waiter is entered: an app that
/// answers with the id that it reads there reaches that waiter, whatever the payload was.
pub proof fn law_answering_the_frame_reaches_the_call<S, W>(
    before: AppStateView<S, W>,
    after: AppStateView<S, W>,
    handle: HandleView,
    action: Seq<char>,
    payload: JsonView,
    answer: AnswerView,
    waiter: W,
    step: Step,
    id: Seq<char>,
    reply: JsonView,
    outcome: AppMessage<W>,
)
    requires
        before.valid(),
        before.known(handle),
        step.relays(before, after, handle, action, payload, answer, waiter),
        step->Relay_0.call.id@ == id,
        reply.field("type"@) is None,
        reply.field("id"@) == Some(JsonView::Str(id)),
        reply.field("ok"@) is None || reply.field("ok"@)->0 is Bool,
        outcome.answers(after, handle, reply),
    ensures
        step->Relay_0.call.frame@ == object_text(
            seq![("id"@, JsonView::Str(id)), ("action"@, JsonView::Str(action)), ("payload"@, payload)],
        ),
        after.connection(handle).pending.contains_key(id),
        after.connection(handle).pending[id] == waiter,
        outcome is Deliver,
        outcome->waiter == waiter,
        outcome->response@.id == id,
{
    law_frame_is_the_call(id, action, payload);
}

/// A frame is a hello if and only if it is an object that says so in its type.
pub proof fn law_hello_is_told_by_its_type(v: JsonView)
    ensures
        is_hello(v) <==> v.field("type"@) == Some(JsonView::Str("hello"@)),
{
}

/// Whether a value says this text under a name, or says none by leaving it out or by null.
pub open spec fn says_text(v: JsonView, name: Seq<char>, text: Option<Seq<char>>) -> bool {
    match text {
        Some(s) => v.field(name) == Some(JsonView::Str(s)),
        None => v.field(name) is None || v.field(name) == Some(JsonView::Null),
    }
}

/// A hello is read as it is written: every field says what stands under its name, and other fields
/// of the frame do not matter.
pub proof fn law_hello_is_read_as_written(v: JsonView, hello: HelloView)
    requires
        v.field("app"@) == Some(JsonView::Str(hello.app)),
        says_text(v, "title"@, hello.title),
        says_text(v, "description"@, hello.description),
        says_text(v, "instructions"@, hello.instructions),
        says_text(v, "instanceId"@, hello.instance_id),
        says_text(v, "instanceLabel"@, hello.instance_label),
        match hello.tools {
            Some(tools) => v.field("tools"@) == Some(tools) && tools != JsonView::Null,
            None => v.field("tools"@) is None || v.field("tools"@) == Some(JsonView::Null),
        },
    ensures
        hello_of(v) == Ok::<HelloView, Seq<char>>(hello),
{
}

/// The fields of a hello that hold text, by name.
pub open spec fn hello_texts() -> Seq<Seq<char>> {
    seq!["app"@, "description"@, "instanceId"@, "instanceLabel"@, "instructions"@, "title"@]
}

/// Whether a field of a hello holds something that is no text. All but the name of the app may be
/// null.
pub open spec fn is_no_text(v: JsonView, k: int) -> bool {
    let field = v.field(hello_texts()[k]);
    field is Some && !(field->0 is Str) && (k == 0 || !(field->0 is Null))
}

/// A hello is complained about if and only if a field holds no text that should, or the name of the
/// app is missing; and the complaint is about the first such field by name.
pub proof fn law_hello_is_complained_about(v: JsonView, k: int)
    ensures
        hello_of(v) is Err <==> v.field("app"@) is None || exists|i: int| 0 <= i < 6 && #[trigger] is_no_text(v, i),
        0 <= k < 6 && is_no_text(v, k) && (forall|i: int| 0 <= i < k ==> !#[trigger] is_no_text(v, i))
            ==> hello_of(v) == Err::<HelloView, Seq<char>>(string_complaint(v.field(hello_texts()[k])->0)),
        v.field("app"@) is None && (forall|i: int| 0 <= i < 6 ==> !#[trigger] is_no_text(v, i)) ==> hello_of(v)
            == Err::<HelloView, Seq<char>>("missing field `app`"@),
{
    assert(hello_texts()[0] == "app"@);
    assert(hello_texts()[1] == "description"@);
    assert(hello_texts()[2] == "instanceId"@);
    assert(hello_texts()[3] == "instanceLabel"@);
    assert(hello_texts()[4] == "instructions"@);
    assert(hello_texts()[5] == "title"@);
    assert(is_no_text(v, 0) == (v.field("app"@) is Some && v.field("app"@)->0.text() is None));
    assert(is_no_text(v, 1) == (optional_text(v.field("description"@)) is Err));
    assert(is_no_text(v, 2) == (optional_text(v.field("instanceId"@)) is Err));
    assert(is_no_text(v, 3) == (optional_text(v.field("instanceLabel"@)) is Err));
    assert(is_no_text(v, 4) == (optional_text(v.field("instructions"@)) is Err));
    assert(is_no_text(v, 5) == (optional_text(v.field("title"@)) is Err));
}

/// A first frame gets in if and only if it is JSON, says hello and can be read; otherwise it is told
/// what is wrong with it.
pub proof fn law_first_frame_is_judged(complaint: Seq<char>, v: JsonView)
    ensures
        first_frame(Err(complaint)) == Err::<HelloView, Seq<char>>("Malformed hello frame: "@ + complaint),
        v.field("type"@) != Some(JsonView::Str("hello"@)) ==> first_frame(Ok(v)) == Err::<HelloView, Seq<char>>(
            "The first frame must be a hello: {\"type\":\"hello\",\"app\":\"<name>\", …}"@,
        ),
        v.field("type"@) == Some(JsonView::Str("hello"@)) && hello_of(v) is Ok ==> first_frame(Ok(v)) == hello_of(v),
        v.field("type"@) == Some(JsonView::Str("hello"@)) && hello_of(v) is Err ==> first_frame(Ok(v)) == Err::<
            HelloView,
            Seq<char>,
        >("Malformed hello frame: "@ + hello_of(v)->Err_0),
{
}

/// A field of a value, or null where it is left out.
pub open spec fn field_or_null(v: JsonView, name: Seq<char>) -> JsonView {
    if v.field(name) is Some {
        v.field(name)->0
    } else {
        JsonView::Null
    }
}

/// A reply with an id is read as it is written: `ok` alone says whether it is a success, and what is
/// left out is null.
pub proof fn law_reply_is_read_as_written(v: JsonView, id: Seq<char>)
    requires
        v.field("id"@) == Some(JsonView::Str(id)),
        v.field("ok"@) is None || v.field("ok"@)->0 is Bool,
    ensures
        response_of(v) is Some,
        response_of(v)->0.id == id,
        response_of(v)->0.ok <==> v.field("ok"@) == Some(JsonView::Bool(true)),
        response_of(v)->0.result == field_or_null(v, "result"@),
        response_of(v)->0.error == field_or_null(v, "error"@),
{
}

/// A reply may be written as the list of its fields: the id, `ok`, the result and the error, of
/// which the last ones may be left out.
pub proof fn law_listed_reply_is_read_as_written(items: Seq<JsonView>, id: Seq<char>)
    requires
        1 <= items.len() <= 4,
        items[0] == JsonView::Str(id),
        items.len() >= 2 ==> items[1] is Bool,
    ensures
        ({
            let response = response_of(JsonView::Array(items));
            &&& response is Some
            &&& response->0.id == id
            &&& response->0.ok <==> items.len() >= 2 && items[1] == JsonView::Bool(true)
            &&& items.len() >= 3 ==> response->0.result == items[2]
            &&& items.len() < 3 ==> response->0.result == JsonView::Null
            &&& items.len() == 4 ==> response->0.error == items[3]
            &&& items.len() < 4 ==> response->0.error == JsonView::Null
        }),
{
}

/// What has no text for an id, or an `ok` that is neither true nor false, is no reply.
pub proof fn law_what_is_no_reply(v: JsonView)
    ensures
        v is Object && !(v.field("id"@) is Some && v.field("id"@)->0 is Str) ==> response_of(v) is None,
        v is Object && v.field("ok"@) is Some && !(v.field("ok"@)->0 is Bool) ==> response_of(v) is None,
        v is Array && !(1 <= v->Array_0.len() <= 4) ==> response_of(v) is None,
        v is Array && v->Array_0.len() >= 1 && !(v->Array_0[0] is Str) ==> response_of(v) is None,
        v is Array && v->Array_0.len() >= 2 && !(v->Array_0[1] is Bool) ==> response_of(v) is None,
        !(v is Object) && !(v is Array) ==> response_of(v) is None,
{
}

/// A client whose call is answered with `ok` gets the result and no error, over REST and over MCP
/// alike, whatever the result is; one whose call is not answered with `ok` gets the app's error.
pub proof fn law_ok_alone_decides(v: JsonView, id: Seq<char>, rpc_id: JsonView)
    requires
        v.field("id"@) == Some(JsonView::Str(id)),
        v.field("ok"@) is None || v.field("ok"@)->0 is Bool,
    ensures
        ({
            let result = call_result(OutcomeView::Replied(response_of(v)->0));
            let rest = AnswerView::Rest.reply(result);
            let tool = AnswerView::Tool(rpc_id).reply(result);
            let shown = tool.body->0.field("result"@)->0;
            &&& response_of(v) is Some
            &&& v.field("ok"@) == Some(JsonView::Bool(true)) ==> {
                &&& result == Ok::<JsonView, HubErrorView>(field_or_null(v, "result"@))
                &&& rest.status == 200
                &&& rest.body == Some(field_or_null(v, "result"@))
                &&& tool.status == 200
                &&& shown.field("isError"@) == Some(JsonView::Bool(false))
            }
            &&& v.field("ok"@) != Some(JsonView::Bool(true)) ==> {
                &&& result == Err::<JsonView, HubErrorView>(HubErrorView::App(field_or_null(v, "error"@)))
                &&& rest.status == 422
                &&& rest.body is Some
                &&& rest.body->0.field("error"@) == Some(field_or_null(v, "error"@))
                &&& tool.status == 200
                &&& shown.field("isError"@) == Some(JsonView::Bool(true))
            }
        }),
{
    reveal_strlit("id");
    reveal_strlit("jsonrpc");
    reveal_strlit("result");
    reveal_strlit("content");
    reveal_strlit("isError");
    assert("id"@.len() == 2 && "jsonrpc"@.len() == 7 && "result"@.len() == 6);
    assert("content"@[0] == 'c' && "isError"@[0] == 'i');
}

/// Whether a value is an object with two fields: its type is `error`, and its message is this.
pub open spec fn is_error_object(v: JsonView, message: Seq<char>) -> bool {
    &&& v.field("type"@) == Some(JsonView::Str("error"@))
    &&& v.field("message"@) == Some(JsonView::Str(message))
    &&& forall|name: Seq<char>| #[trigger] v.field(name) is Some ==> name == "type"@ || name == "message"@
}

/// The frame that says why a connection is rejected or closed is the text of an object that says so
/// and nothing more, and a farewell is that frame and then the close.
pub proof fn law_error_frame_says_why(v: JsonView, message: Seq<char>)
    requires
        is_error_object(v, message),
    ensures
        error_frame_text(message) == json_text(v),
        farewell_view(message).len() == 2,
        farewell_view(message)[0] == OutboundView::Frame(json_text(v)),
        farewell_view(message)[1] == OutboundView::Close,
{
    reveal_strlit("type");
    reveal_strlit("message");
    assert("type"@.len() == 4 && "message"@.len() == 7);
    let o = map!["type"@ => JsonView::Str("error"@), "message"@ => JsonView::Str(message)];
    assert(v->Object_0 =~= o) by {
        assert forall|name: Seq<char>| v->Object_0.contains_key(name) == o.contains_key(name) by {
            assert(v.field(name) is Some == v->Object_0.contains_key(name));
        }
        assert forall|name: Seq<char>| #[trigger] o.contains_key(name) implies v->Object_0[name] == o[name] by {
            assert(v.field(name) == Some(v->Object_0[name]));
        }
    }
}

/// A welcome names the app and the instance, and its endpoints lie below its base.
pub proof fn law_welcome_names_the_endpoints(base: Seq<char>, app: Seq<char>, id: Seq<char>, name: Seq<char>)
    ensures
        ({
            let v = welcome_json(base, app, id);
            &&& v.field("type"@) == Some(JsonView::Str("welcome"@))
            &&& v.field("app"@) == Some(JsonView::Str(app))
            &&& v.field("instanceId"@) == Some(JsonView::Str(id))
            &&& v.field("baseUrl"@) == Some(JsonView::Str(base))
            &&& v.field("mcpUrl"@) == Some(JsonView::Str(base + "/mcp"@))
            &&& v.field("apiUrl"@) == Some(JsonView::Str(base + "/api"@))
            &&& v.field(name) is Some ==> seq!["type"@, "app"@, "instanceId"@, "baseUrl"@, "mcpUrl"@, "apiUrl"@].contains(
                name,
            )
        }),
{
    reveal_strlit("type");
    reveal_strlit("app");
    reveal_strlit("instanceId");
    reveal_strlit("baseUrl");
    reveal_strlit("mcpUrl");
    reveal_strlit("apiUrl");
    assert("type"@.len() == 4 && "app"@.len() == 3 && "instanceId"@.len() == 10 && "baseUrl"@.len() == 7);
    assert("mcpUrl"@.len() == 6 && "apiUrl"@.len() == 6);
    assert("mcpUrl"@[0] == 'm' && "apiUrl"@[0] == 'a');
    let names = seq!["type"@, "app"@, "instanceId"@, "baseUrl"@, "mcpUrl"@, "apiUrl"@];
    assert(names[0] == "type"@ && names[1] == "app"@ && names[2] == "instanceId"@ && names[3] == "baseUrl"@
        && names[4] == "mcpUrl"@ && names[5] == "apiUrl"@);
}

} // verus!
