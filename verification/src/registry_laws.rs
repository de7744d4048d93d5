//! What is held about connections, and what each step changes.

use crate::chance::{seconds_of, short_id_of, time_since_epoch, unix_seconds};
use crate::codec::json_text;
use crate::hub_error::HubErrorView;
use crate::json::JsonView;
use crate::registry::{
    claimed_message, disconnected_message, info_of, no_free_id_message, AppMessage, AppStateView, HandleView,
    InfoView, InstanceView, Kicked, Registered,
};
use crate::slug::{is_name, slug_complaint};
use crate::socket::{HelloStep, SocketStep};
use crate::table::{keyed, waiter_entries};
use crate::wire::{hello_of, is_hello, outbound_view, response_of, welcome_json, HelloView, OutboundView};
use crate::wire_laws::{
    is_error_object, law_error_frame_says_why, says_text,
};
use vstd::prelude::*;

verus! {

/// Whether what is held about an instance is what a frame says, and nothing else: its title, its
/// description, its instructions, its label, and its tools where they are an array.
pub open spec fn says_all(frame: JsonView, info: InfoView) -> bool {
    &&& says_text(frame, "title"@, info.title)
    &&& says_text(frame, "description"@, info.description)
    &&& says_text(frame, "instructions"@, info.instructions)
    &&& says_text(frame, "instanceLabel"@, info.label)
    &&& if frame.field("tools"@) is Some && frame.field("tools"@)->0 is Array {
        info.tools == frame.field("tools"@)->0
    } else {
        info.tools == JsonView::Array(Seq::empty())
    }
}

/// What is held about an instance is what its hello says, field by field.
pub proof fn law_info_is_what_the_hello_says(frame: JsonView, hello: HelloView)
    requires
        hello_of(frame) == Ok::<HelloView, Seq<char>>(hello),
    ensures
        says_all(frame, info_of(hello)),
        info_of(hello).title == hello.title,
        info_of(hello).description == hello.description,
        info_of(hello).instructions == hello.instructions,
        info_of(hello).label == hello.instance_label,
{
}

/// After a connection sends a hello that can be read, everything that is held about it is what that
/// hello says, whatever was held before: the same as after registering with that hello. The rest of
/// the connection stays as it was.
pub proof fn law_hello_again_says_everything<S, W>(
    v: AppStateView<S, W>,
    handle: HandleView,
    frame: JsonView,
    hello: HelloView,
    sender: S,
    now: u64,
    outcome: AppMessage<W>,
)
    requires
        v.valid(),
        v.known(handle),
        frame.field("type"@) == Some(JsonView::Str("hello"@)),
        hello_of(frame) == Ok::<HelloView, Seq<char>>(hello),
        outcome.answers(v, handle, frame),
    ensures
        outcome is Refreshed,
        ({
            let before = v.connection(handle);
            let after = v.heard(handle, frame).connection(handle);
            let fresh = v.registered(handle.app, handle.id, hello, sender, now).instances[handle.key()];
            &&& says_all(frame, after.info)
            &&& after.info == fresh.info
            &&& after.conn_id == before.conn_id
            &&& after.app == before.app
            &&& after.id == before.id
            &&& after.connected_at == before.connected_at
            &&& after.sender == before.sender
            &&& after.pending == before.pending
        }),
{
    law_info_is_what_the_hello_says(frame, hello);
}

/// What a connection is known by after it sends a hello does not depend on what was held before.
pub proof fn law_hello_leaves_nothing_of_before<S, W>(
    v: AppStateView<S, W>,
    w: AppStateView<S, W>,
    handle: HandleView,
    frame: JsonView,
)
    requires
        v.valid(),
        w.valid(),
        v.known(handle),
        w.known(handle),
        is_hello(frame),
        hello_of(frame) is Ok,
    ensures
        v.heard(handle, frame).connection(handle).info == w.heard(handle, frame).connection(handle).info,
{
}

/// A hello that cannot be read, and a message that is neither a hello nor a reply, change nothing.
pub proof fn law_unreadable_messages_change_nothing<S, W>(
    v: AppStateView<S, W>,
    handle: HandleView,
    frame: JsonView,
    outcome: AppMessage<W>,
)
    requires
        outcome.answers(v, handle, frame),
    ensures
        is_hello(frame) && hello_of(frame) is Err ==> v.heard(handle, frame) == v && outcome is Ignored,
        !is_hello(frame) && response_of(frame) is None ==> v.heard(handle, frame) == v && outcome is Malformed
            && outcome->Malformed_0@ == frame,
{
}

/// A connection that was forgotten is not heard: nothing comes of what it says, and nothing changes.
pub proof fn law_forgotten_connection_is_not_heard<S, W>(
    v: AppStateView<S, W>,
    handle: HandleView,
    frame: JsonView,
    outcome: AppMessage<W>,
)
    requires
        !v.known(handle),
        outcome.answers(v, handle, frame),
    ensures
        v.heard(handle, frame) == v,
        outcome is Ignored || outcome is Malformed,
{
}

/// When a connection ends, every call in flight on it is given back with its waiter, and no other.
pub proof fn law_ended_calls_are_given_back<S, W>(
    before: AppStateView<S, W>,
    after: AppStateView<S, W>,
    handle: HandleView,
    step: SocketStep<W>,
    id: Seq<char>,
)
    requires
        before.known(handle),
        step.ends(before, after, handle),
    ensures
        keyed(waiter_entries(step->End_0@)).contains_key(id) <==> before.connection(handle).pending.contains_key(id),
        before.connection(handle).pending.contains_key(id) ==> keyed(waiter_entries(step->End_0@))[id]
            == before.connection(handle).pending[id],
{
}

/// A connection starts as its hello says: under the key it claimed, with the next number, the time,
/// the way to it, and no calls in flight. Nothing else changes but the loss of whoever held the key.
pub proof fn law_newcomer_is_as_it_said<S, W>(
    v: AppStateView<S, W>,
    app: Seq<char>,
    id: Seq<char>,
    frame: JsonView,
    hello: HelloView,
    sender: S,
    now: u64,
    key: (Seq<char>, Seq<char>),
)
    requires
        v.valid(),
        v.conn_counter < u64::MAX,
        hello_of(frame) == Ok::<HelloView, Seq<char>>(hello),
    ensures
        ({
            let after = v.registered(app, id, hello, sender, now);
            let newcomer = after.instances[(app, id)];
            &&& after.instances.contains_key((app, id))
            &&& newcomer.conn_id == v.conn_counter + 1
            &&& newcomer.app == app
            &&& newcomer.id == id
            &&& newcomer.connected_at == now
            &&& newcomer.sender == sender
            &&& newcomer.pending == Map::<Seq<char>, W>::empty()
            &&& says_all(frame, newcomer.info)
            &&& after.conn_counter == v.conn_counter + 1
            &&& after.port == v.port
            &&& key != (app, id) ==> after.instances.contains_key(key) == v.instances.contains_key(key)
            &&& key != (app, id) && v.instances.contains_key(key) ==> after.instances[key] == v.instances[key]
        }),
{
    law_info_is_what_the_hello_says(frame, hello);
}

/// A step on one connection touches no other.
pub proof fn law_steps_touch_one_connection<S, W>(
    v: AppStateView<S, W>,
    handle: HandleView,
    other: HandleView,
    id: Seq<char>,
    waiter: W,
    frame: JsonView,
)
    requires
        v.valid(),
        v.known(handle),
        v.known(other),
        other != handle,
    ensures
        v.called(handle, id, waiter).known(other),
        v.called(handle, id, waiter).connection(other) == v.connection(other),
        v.settled(handle, id).known(other),
        v.settled(handle, id).connection(other) == v.connection(other),
        v.removed(handle).known(other),
        v.removed(handle).connection(other) == v.connection(other),
        v.forgotten(handle).known(other),
        v.forgotten(handle).connection(other) == v.connection(other),
        v.heard(handle, frame).known(other),
        v.heard(handle, frame).connection(other) == v.connection(other),
        v.current(handle) ==> v.kicked(handle.key()).known(other) && v.kicked(handle.key()).connection(other)
            == v.connection(other),
        v.called(handle, id, waiter).current(other) == v.current(other),
        v.settled(handle, id).current(other) == v.current(other),
        v.removed(handle).current(other) == v.current(other),
        v.forgotten(handle).current(other) == v.current(other),
        v.heard(handle, frame).current(other) == v.current(other),
        v.kicked(handle.key()).current(other) == v.current(other),
{
}

/// To enter a call is to have that one call more in flight; to strike one out is to have that one
/// less; and nothing else of the connection changes.
pub proof fn law_calls_come_and_go_one_by_one<S, W>(
    v: AppStateView<S, W>,
    handle: HandleView,
    id: Seq<char>,
    waiter: W,
    other: Seq<char>,
)
    requires
        v.valid(),
        v.known(handle),
    ensures
        ({
            let before = v.connection(handle);
            let called = v.called(handle, id, waiter).connection(handle);
            let settled = v.settled(handle, id).connection(handle);
            &&& v.called(handle, id, waiter).known(handle)
            &&& v.called(handle, id, waiter).current(handle) == v.current(handle)
            &&& v.settled(handle, id).known(handle)
            &&& v.settled(handle, id).current(handle) == v.current(handle)
            &&& called.pending.contains_key(id) && called.pending[id] == waiter
            &&& !settled.pending.contains_key(id)
            &&& other != id ==> called.pending.contains_key(other) == before.pending.contains_key(other)
            &&& other != id ==> settled.pending.contains_key(other) == before.pending.contains_key(other)
            &&& other != id && before.pending.contains_key(other) ==> called.pending[other] == before.pending[other]
                && settled.pending[other] == before.pending[other]
            &&& called.info == before.info && settled.info == before.info
            &&& called.sender == before.sender && settled.sender == before.sender
            &&& called.handle() == handle && settled.handle() == handle
            &&& called.connected_at == before.connected_at && settled.connected_at == before.connected_at
            &&& v.called(handle, id, waiter).port == v.port && v.settled(handle, id).port == v.port
            &&& v.called(handle, id, waiter).conn_counter == v.conn_counter
            &&& v.settled(handle, id).conn_counter == v.conn_counter
        }),
{
}

/// A reply ends the call that it answers and changes nothing else of its connection.
pub proof fn law_reply_changes_only_its_call<S, W>(
    v: AppStateView<S, W>,
    handle: HandleView,
    frame: JsonView,
    other: Seq<char>,
)
    requires
        v.valid(),
        v.known(handle),
        !is_hello(frame),
        response_of(frame) is Some,
    ensures
        ({
            let before = v.connection(handle);
            let after = v.heard(handle, frame).connection(handle);
            &&& v.heard(handle, frame).known(handle)
            &&& after.info == before.info
            &&& after.sender == before.sender
            &&& after.connected_at == before.connected_at
            &&& after.handle() == before.handle()
            &&& !after.pending.contains_key(response_of(frame)->0.id)
            &&& other != response_of(frame)->0.id ==> after.pending.contains_key(other) == before.pending.contains_key(
                other,
            )
        }),
{
}

/// A live connection that the bridge closes hears so before the close, and gets its calls back.
pub proof fn law_disconnected_is_told<W>(kicked: Kicked<W>, pending: Map<Seq<char>, W>, frame: JsonView)
    requires
        kicked.says(disconnected_message(), pending),
        is_error_object(frame, "Disconnected from the bridge."@),
    ensures
        outbound_view(kicked.messages@).len() == 2,
        outbound_view(kicked.messages@)[0] == OutboundView::Frame(json_text(frame)),
        outbound_view(kicked.messages@)[1] == OutboundView::Close,
        keyed(waiter_entries(kicked.waiters@)) == pending,
{
    law_error_frame_says_why(frame, "Disconnected from the bridge."@);
}

/// An app stands for an instance if and only if that is connected and no other instance of the app
/// is.
pub proof fn law_shorthand_needs_exactly_one<S, W>(v: AppStateView<S, W>, app: Seq<char>, x: InstanceView<S, W>)
    requires
        v.valid(),
    ensures
        v.only_instance(app, x) <==> {
            &&& x.app == app
            &&& v.instances.contains_key(x.key())
            &&& v.instances[x.key()] == x
            &&& forall|key: (Seq<char>, Seq<char>)| #[trigger]
                v.instances.contains_key(key) && key.0 == app ==> key == x.key()
        },
{
    if v.only_instance(app, x) {
        assert forall|key: (Seq<char>, Seq<char>)| #[trigger] v.instances.contains_key(key) && key.0
            == app implies key == x.key() by {
            assert(v.instances.contains_key((app, key.1)));
        }
    }
}

/// Why an app stands for no instance: none is connected, or several are, whose ids are all given and
/// each of them once.
pub proof fn law_unresolved_is_exact<S, W>(
    v: AppStateView<S, W>,
    app: Seq<char>,
    e: HubErrorView,
    key: (Seq<char>, Seq<char>),
)
    requires
        v.unresolved(app, e),
        key.0 == app,
    ensures
        e is NotFound || e is Ambiguous,
        e is NotFound ==> e->NotFound_app == app && e->instance is None && !v.instances.contains_key(key),
        e is Ambiguous ==> e->Ambiguous_app == app && e->instances.len() >= 2 && e->instances.no_duplicates() && (
        e->instances.contains(key.1) <==> v.instances.contains_key(key)),
{
    assert(v.instances.contains_key((app, key.1)) == v.instances.contains_key(key));
}

/// A connection that gets in is registered under its key, at a time that the clock showed, and is
/// told where it is: below the base of the bridge, under its app and its id.
pub proof fn law_welcome_tells_the_place<S, W>(
    before: AppStateView<S, W>,
    after: AppStateView<S, W>,
    hello: HelloView,
    sender: S,
    step: HelloStep<S, W>,
)
    requires
        step.welcomes(before, after, hello, sender),
    ensures
        step is Welcome,
        ({
            let handle = step->registered.handle@;
            let now = step->registered.connected_at;
            &&& handle.app == hello.app
            &&& hello.instance_id is Some ==> handle.id == hello.instance_id->0
            &&& is_name(handle.app) && is_name(handle.id)
            &&& after == before.registered(handle.app, handle.id, hello, sender, now)
            &&& exists|t: std::time::SystemTime| now == unix_seconds(t)
            &&& step->frame@ == json_text(
                welcome_json(before.base_url() + "/"@ + handle.app + "/"@ + handle.id, handle.app, handle.id),
            )
        }),
{
}

/// A connection that is rejected hears why, in one frame, and changes nothing.
pub proof fn law_rejection_says_why<S, W>(
    before: AppStateView<S, W>,
    after: AppStateView<S, W>,
    message: Seq<char>,
    step: HelloStep<S, W>,
    frame: JsonView,
)
    requires
        step.rejects(before, after, message),
        is_error_object(frame, message),
    ensures
        step is Reject,
        step->Reject_0@ == json_text(frame),
        after == before,
{
    law_error_frame_says_why(frame, message);
}

/// A time before the epoch counts as zero, and any other as its whole seconds.
pub proof fn law_time_is_whole_seconds(t: std::time::SystemTime)
    ensures
        time_since_epoch(t) is Some ==> unix_seconds(t) == seconds_of(time_since_epoch(t)->0),
        time_since_epoch(t) is None ==> unix_seconds(t) == 0,
{
}

/// A connection that is told to go loses its calls and nothing else until it ends; one that ends
/// gives up its key and its calls.
pub proof fn law_leaving_gives_up_calls<S, W>(
    v: AppStateView<S, W>,
    handle: HandleView,
    key: (Seq<char>, Seq<char>),
)
    requires
        v.valid(),
        v.current(handle),
    ensures
        ({
            let kicked = v.kicked(handle.key());
            let removed = v.removed(handle);
            &&& kicked.current(handle)
            &&& kicked.connection(handle).pending == Map::<Seq<char>, W>::empty()
            &&& kicked.connection(handle).info == v.connection(handle).info
            &&& kicked.connection(handle).sender == v.connection(handle).sender
            &&& kicked.connection(handle).connected_at == v.connection(handle).connected_at
            &&& !removed.current(handle)
            &&& removed.known(handle)
            &&& removed.connection(handle).pending == Map::<Seq<char>, W>::empty()
            &&& removed.instances.contains_key(key) <==> v.instances.contains_key(key) && key != handle.key()
            &&& !removed.forgotten(handle).known(handle)
            &&& kicked.port == v.port && removed.port == v.port && removed.forgotten(handle).port == v.port
            &&& kicked.conn_counter == v.conn_counter && removed.conn_counter == v.conn_counter
                && removed.forgotten(handle).conn_counter == v.conn_counter
        }),
{
}

/// Whoever held the key before a registration is told who claimed it, in a farewell before the
/// close, and gets its calls back; where nobody held it, nobody is told anything.
pub proof fn law_loser_is_told<S, W>(
    v: AppStateView<S, W>,
    app: Seq<char>,
    id: Seq<char>,
    hello: HelloView,
    sender: S,
    now: u64,
    registered: Registered<W>,
    frame: JsonView,
)
    requires
        v.valid(),
        v.conn_counter < u64::MAX,
        registered.answers(v, v.newcomer(app, id, hello, sender, now)),
        is_error_object(
            frame,
            "Another connection claimed '"@ + app + "/"@ + id
                + "'. If this is a second tab of the same app, use a per-tab instance id (e.g. sessionStorage, not localStorage)."@,
        ),
    ensures
        registered.handle@ == (HandleView { conn_id: (v.conn_counter + 1) as u64, app, id }),
        registered.connected_at == now,
        registered.evicted is Some <==> v.instances.contains_key((app, id)),
        registered.evicted is Some ==> {
            let evicted = registered.evicted->0;
            &&& v.current(evicted.handle@)
            &&& evicted.handle@.key() == (app, id)
            &&& outbound_view(evicted.kicked.messages@).len() == 2
            &&& outbound_view(evicted.kicked.messages@)[0] == OutboundView::Frame(json_text(frame))
            &&& outbound_view(evicted.kicked.messages@)[1] == OutboundView::Close
            &&& keyed(waiter_entries(evicted.kicked.waiters@)) == v.instances[(app, id)].pending
        },
{
    law_error_frame_says_why(frame, claimed_message(app, id));
}

/// What connections are told by the bridge itself.
pub proof fn law_messages_of_the_bridge(app: Seq<char>, id: Seq<char>)
    ensures
        claimed_message(app, id) == "Another connection claimed '"@ + app + "/"@ + id
            + "'. If this is a second tab of the same app, use a per-tab instance id (e.g. sessionStorage, not localStorage)."@,
        disconnected_message() == "Disconnected from the bridge."@,
        no_free_id_message(app) == "No free instance id for '"@ + app + "'."@,
{
}

/// A drawn id is assigned if it is free.
pub proof fn law_drawn_id_is_assigned_if_free<S, W>(
    v: AppStateView<S, W>,
    hello: HelloView,
    drawn: u128,
    id: Seq<char>,
)
    requires
        hello.instance_id is None,
        v.assigns(hello, drawn, id),
    ensures
        !v.instances.contains_key((hello.app, id)),
        !v.instances.contains_key((hello.app, short_id_of(drawn))) ==> id == short_id_of(drawn),
        exists|n: u128| id == short_id_of(n),
{
    assert(crate::chance::stepped(drawn, 0) == drawn);
}

/// An id that a hello brings is the one that it gets.
pub proof fn law_own_id_is_assigned<S, W>(
    v: AppStateView<S, W>,
    hello: HelloView,
    own: Seq<char>,
    drawn: u128,
    id: Seq<char>,
)
    requires
        hello.instance_id == Some(own),
    ensures
        v.assigns(hello, drawn, id) <==> id == own && is_name(own) && is_name(hello.app),
        v.fits(hello, id) <==> id == own && is_name(own) && is_name(hello.app),
{
}

/// Whether a character is a lowercase letter or a digit.
pub open spec fn is_lower_or_digit(c: char) -> bool {
    ('a' <= c && c <= 'z') || ('0' <= c && c <= '9')
}

/// A name has 1 to 64 characters, all of them lowercase letters, digits, hyphens or underscores, of
/// which the first is a letter or a digit, and it is none of the six words that routes use.
pub proof fn law_names_are_free_slugs(s: Seq<char>)
    ensures
        is_name(s) <==> {
            &&& 1 <= s.len() <= 64
            &&& is_lower_or_digit(s[0])
            &&& forall|i: int| 0 <= i < s.len() ==> is_lower_or_digit(#[trigger] s[i]) || s[i] == '-' || s[i] == '_'
            &&& s != "api"@ && s != "mcp"@ && s != "ws"@ && s != "apps"@ && s != "status"@ && s != "tools"@
        },
{
    let all = crate::slug::reserved_slugs();
    assert(all.len() == 6);
    assert(all[0] == "api"@ && all[1] == "mcp"@ && all[2] == "ws"@ && all[3] == "apps"@ && all[4] == "status"@ && all[5]
        == "tools"@);
}

/// What is said of a text that is no name tells the text, what it was meant for, and whether it is
/// reserved or malformed.
pub proof fn law_bad_names_are_explained(s: Seq<char>, what: Seq<char>)
    ensures
        s == "api"@ || s == "mcp"@ || s == "ws"@ || s == "apps"@ || s == "status"@ || s == "tools"@ ==> slug_complaint(
            s,
            what,
        ) == "Invalid "@ + what + " '"@ + s + "': that name is reserved."@,
        s != "api"@ && s != "mcp"@ && s != "ws"@ && s != "apps"@ && s != "status"@ && s != "tools"@ && !is_name(s)
            ==> slug_complaint(s, what) == "Invalid "@ + what + " '"@ + s
            + "': use 1-64 chars of [a-z0-9_-], starting with a letter or digit."@,
{
    law_names_are_free_slugs(s);
    reveal_strlit("api");
    reveal_strlit("mcp");
    reveal_strlit("ws");
    reveal_strlit("apps");
    reveal_strlit("status");
    reveal_strlit("tools");
}

/// A hello is turned away with the complaint about the name of its app if that is bad, and else with
/// the complaint about the id that it brings.
pub proof fn law_refusals_are_explained<S, W>(v: AppStateView<S, W>, hello: HelloView, message: Seq<char>)
    requires
        v.turned_away(hello, message),
    ensures
        !is_name(hello.app) ==> message == slug_complaint(hello.app, "app name"@),
        is_name(hello.app) && hello.instance_id is Some ==> !is_name(hello.instance_id->0) && message
            == slug_complaint(hello.instance_id->0, "instance id"@),
        is_name(hello.app) && hello.instance_id is None ==> forall|n: u128|
            v.instances.contains_key((hello.app, #[trigger] short_id_of(n))),
{
}

} // verus!
