//! The registry of connected app instances.
//!
//! Every connected instance stands under its `(app, instance)` key. Client calls are forwarded to
//! the connection that holds the key, replies are matched to calls by request id, and results go
//! back to whoever asked. Payloads and results are opaque.
//!
//! A connection that was replaced, or that has ended, holds no key and is not shown. It still takes
//! calls and is still heard by its handle, until it is forgotten.
//!
//! `S` is what reaches a connection, and `W` is what wakes the client of a call in flight. The
//! registry keeps both and hands them out again.

use crate::chance::{
    is_random_uuid, is_request_id, law_assigned_ids_are_names, lemma_steps_reach, random_uuid, request_id, short_id,
    short_id_of, step_from, stepped, unix_now, unix_seconds, SHORT_IDS,
};
use crate::codec::parsed_json;
use crate::hub_error::{HubError, HubErrorView};
use crate::json::{Json, JsonView};
use crate::laws::law_ids_do_not_run_out;
use crate::registry_laws::{law_info_is_what_the_hello_says, says_all};
use crate::slug::{is_name, slug_complaint, validate_slug};
use crate::table::{
    distinct_keys, has_key, keyed, lemma_keyed_at, lemma_keyed_push, lemma_keyed_remove, lemma_keyed_update,
    waiter_entries, Waiters,
};
use crate::text::{copy_text, same_text, text_view, texts_view};
use crate::wire::{
    farewell, farewell_view, hello_of, is_hello, outbound_view, request_frame, request_frame_text, response_of,
    says_hello, Hello, HelloView, Outbound, ResponseView, WireResponse,
};
use crate::wire_laws::call_text;
use vstd::prelude::*;

verus! {

/// What an app says about one of its instances.
pub struct InstanceInfo {
    pub title: Option<String>,
    pub description: Option<String>,
    pub instructions: Option<String>,
    pub label: Option<String>,
    /// The tool catalog, which is an array.
    pub tools: Json,
}

/// What an `InstanceInfo` says.
pub struct InfoView {
    pub title: Option<Seq<char>>,
    pub description: Option<Seq<char>>,
    pub instructions: Option<Seq<char>>,
    pub label: Option<Seq<char>>,
    pub tools: JsonView,
}

impl View for InstanceInfo {
    type V = InfoView;

    open spec fn view(&self) -> InfoView {
        InfoView {
            title: text_view(self.title),
            description: text_view(self.description),
            instructions: text_view(self.instructions),
            label: text_view(self.label),
            tools: self.tools@,
        }
    }
}

/// What a hello says about an instance. A catalog that is no array counts as an empty one.
pub open spec fn info_of(hello: HelloView) -> InfoView {
    InfoView {
        title: hello.title,
        description: hello.description,
        instructions: hello.instructions,
        label: hello.instance_label,
        tools: (match hello.tools {
            Some(JsonView::Array(items)) => JsonView::Array(items),
            _ => JsonView::Array(Seq::empty()),
        }),
    }
}

impl InstanceInfo {
    /// What a hello says about an instance.
    pub fn from_hello(hello: &Hello) -> (info: InstanceInfo)
        ensures
            info@ == info_of(hello@),
    {
        let tools = match &hello.tools {
            Some(catalog) => if catalog.is_array() {
                catalog.clone()
            } else {
                no_tools()
            },
            None => no_tools(),
        };
        InstanceInfo {
            title: copy_text(&hello.title),
            description: copy_text(&hello.description),
            instructions: copy_text(&hello.instructions),
            label: copy_text(&hello.instance_label),
            tools,
        }
    }
}

fn no_tools() -> (j: Json)
    ensures
        j@ == JsonView::Array(Seq::empty()),
{
    let items: Vec<Json> = Vec::new();
    assert(crate::json::items_view(items@) =~= Seq::<JsonView>::empty());
    Json::Array(items)
}

/// One live app connection.
pub struct Instance<S, W> {
    /// The number of the connection, which tells it from another that claims the same key.
    pub conn_id: u64,
    pub app: String,
    pub id: String,
    pub connected_at: u64,
    pub info: InstanceInfo,
    /// What reaches the connection.
    pub sender: S,
    /// The waiters of calls in flight, by request id.
    pub pending: Waiters<W>,
}

/// What an `Instance` holds.
#[verifier::reject_recursive_types(S)]
#[verifier::reject_recursive_types(W)]
pub struct InstanceView<S, W> {
    pub conn_id: u64,
    pub app: Seq<char>,
    pub id: Seq<char>,
    pub connected_at: u64,
    pub info: InfoView,
    pub sender: S,
    pub pending: Map<Seq<char>, W>,
}

impl<S, W> View for Instance<S, W> {
    type V = InstanceView<S, W>;

    open spec fn view(&self) -> InstanceView<S, W> {
        InstanceView {
            conn_id: self.conn_id,
            app: self.app@,
            id: self.id@,
            connected_at: self.connected_at,
            info: self.info@,
            sender: self.sender,
            pending: self.pending@,
        }
    }
}

impl<S, W> InstanceView<S, W> {
    /// The key under which the instance is registered.
    pub open spec fn key(self) -> (Seq<char>, Seq<char>) {
        (self.app, self.id)
    }

    /// The instance with other calls in flight.
    pub open spec fn with_pending(self, pending: Map<Seq<char>, W>) -> InstanceView<S, W> {
        InstanceView { pending, ..self }
    }

    /// The instance with other things said about it.
    pub open spec fn with_info(self, info: InfoView) -> InstanceView<S, W> {
        InstanceView { info, ..self }
    }
}

/// What is left of an instance that was told to go: what to send it, and the waiters of the calls
/// that it will not answer.
pub struct Kicked<W> {
    pub messages: Vec<Outbound>,
    pub waiters: Vec<(String, W)>,
}

impl<S, W> Instance<S, W> {
    /// The advertised tool catalog.
    pub fn tools(&self) -> (tools: Json)
        ensures
            tools@ == self@.info.tools,
    {
        self.info.tools.clone()
    }

    /// How agents should use the tools.
    pub fn instructions(&self) -> (instructions: Option<String>)
        ensures
            text_view(instructions) == self@.info.instructions,
    {
        copy_text(&self.info.instructions)
    }

    /// Gives up every call in flight.
    pub fn fail_pending(&mut self) -> (waiters: Vec<(String, W)>)
        requires
            old(self).pending.wf(),
        ensures
            final(self).pending.wf(),
            final(self)@ == old(self)@.with_pending(Map::empty()),
            distinct_keys(waiter_entries(waiters@)),
            keyed(waiter_entries(waiters@)) == old(self)@.pending,
    {
        self.pending.take_all()
    }

    /// Tells the app why it has to go and closes the connection, and gives up every call in flight.
    pub fn kick(&mut self, message: &str) -> (kicked: Kicked<W>)
        requires
            old(self).pending.wf(),
        ensures
            final(self).pending.wf(),
            final(self)@ == old(self)@.with_pending(Map::empty()),
            outbound_view(kicked.messages@) == farewell_view(message@),
            distinct_keys(waiter_entries(kicked.waiters@)),
            keyed(waiter_entries(kicked.waiters@)) == old(self)@.pending,
    {
        let messages = farewell(message);
        let waiters = self.fail_pending();
        Kicked { messages, waiters }
    }
}

/// Which connection is meant: the key that it claimed and its number.
#[derive(Debug, PartialEq)]
pub struct Handle {
    pub conn_id: u64,
    pub app: String,
    pub id: String,
}

/// What a `Handle` says.
pub struct HandleView {
    pub conn_id: u64,
    pub app: Seq<char>,
    pub id: Seq<char>,
}

impl View for Handle {
    type V = HandleView;

    open spec fn view(&self) -> HandleView {
        HandleView { conn_id: self.conn_id, app: self.app@, id: self.id@ }
    }
}

impl HandleView {
    /// The key that the connection claimed.
    pub open spec fn key(self) -> (Seq<char>, Seq<char>) {
        (self.app, self.id)
    }
}

impl Handle {
    /// The same handle again.
    pub fn copy(&self) -> (handle: Handle)
        ensures
            handle@ == self@,
    {
        Handle { conn_id: self.conn_id, app: self.app.clone(), id: self.id.clone() }
    }
}

impl<S, W> InstanceView<S, W> {
    /// The handle of the connection.
    pub open spec fn handle(self) -> HandleView {
        HandleView { conn_id: self.conn_id, app: self.app, id: self.id }
    }
}

impl<S, W> Instance<S, W> {
    /// The handle of the connection.
    pub fn handle(&self) -> (handle: Handle)
        ensures
            handle@ == self@.handle(),
    {
        Handle { conn_id: self.conn_id, app: self.app.clone(), id: self.id.clone() }
    }
}

/// The state of the bridge: who is connected, and where it listens.
pub struct AppState<S, W> {
    rows: Vec<Instance<S, W>>,
    lost: Vec<Instance<S, W>>,
    port: u16,
    conn_counter: u64,
}

/// What an `AppState` holds.
#[verifier::reject_recursive_types(S)]
#[verifier::reject_recursive_types(W)]
pub struct AppStateView<S, W> {
    /// The connected instances by `(app, instance)`.
    pub instances: Map<(Seq<char>, Seq<char>), InstanceView<S, W>>,
    /// The connections that hold no key, by their numbers: they were replaced or have ended, and
    /// are not forgotten yet.
    pub lost: Map<u64, InstanceView<S, W>>,
    /// The port that the server is bound to, or zero.
    pub port: u16,
    /// How many connections were ever registered.
    pub conn_counter: u64,
}

/// The instances of a list by their keys.
pub open spec fn row_entries<S, W>(rows: Seq<Instance<S, W>>) -> Seq<((Seq<char>, Seq<char>), InstanceView<S, W>)> {
    rows.map_values(|row: Instance<S, W>| (row@.key(), row@))
}

/// The connections of a list by their numbers.
pub open spec fn lost_entries<S, W>(rows: Seq<Instance<S, W>>) -> Seq<(u64, InstanceView<S, W>)> {
    rows.map_values(|row: Instance<S, W>| (row.conn_id, row@))
}

impl<S, W> View for AppState<S, W> {
    type V = AppStateView<S, W>;

    closed spec fn view(&self) -> AppStateView<S, W> {
        AppStateView {
            instances: keyed(row_entries(self.rows@)),
            lost: keyed(lost_entries(self.lost@)),
            port: self.port,
            conn_counter: self.conn_counter,
        }
    }
}

impl<S, W> AppStateView<S, W> {
    /// What holds at all times: finitely many instances are connected; every one of them stands
    /// under its own key, which is made of names that can stand in a path; its tool catalog is an
    /// array; and connections, those without a key among them, have numbers of their own, all of
    /// them given out already.
    pub open spec fn valid(self) -> bool {
        &&& self.instances.dom().finite()
        &&& forall|key: (Seq<char>, Seq<char>)| #[trigger]
            self.instances.contains_key(key) ==> {
                let instance = self.instances[key];
                &&& instance.key() == key
                &&& is_name(key.0)
                &&& is_name(key.1)
                &&& instance.info.tools is Array
                &&& 0 < instance.conn_id <= self.conn_counter
            }
        &&& forall|a: (Seq<char>, Seq<char>), b: (Seq<char>, Seq<char>)|
            #![trigger self.instances[a], self.instances[b]]
            self.instances.contains_key(a) && self.instances.contains_key(b) && a != b
                ==> self.instances[a].conn_id != self.instances[b].conn_id
        &&& forall|n: u64| #[trigger]
            self.lost.contains_key(n) ==> {
                let instance = self.lost[n];
                &&& instance.conn_id == n
                &&& is_name(instance.app)
                &&& is_name(instance.id)
                &&& instance.info.tools is Array
                &&& 0 < n <= self.conn_counter
            }
        &&& forall|key: (Seq<char>, Seq<char>)| #[trigger]
            self.instances.contains_key(key) ==> !self.lost.contains_key(self.instances[key].conn_id)
    }

    /// Whether a connection still holds the key that it claimed.
    pub open spec fn current(self, handle: HandleView) -> bool {
        self.instances.contains_key(handle.key()) && self.instances[handle.key()].conn_id == handle.conn_id
    }

    /// Whether a connection holds no key, and is not forgotten.
    pub open spec fn is_lost(self, handle: HandleView) -> bool {
        self.lost.contains_key(handle.conn_id) && self.lost[handle.conn_id].handle() == handle
    }

    /// Whether a connection was registered, and is not forgotten.
    pub open spec fn known(self, handle: HandleView) -> bool {
        self.current(handle) || self.is_lost(handle)
    }

    /// What is held of a connection that is known.
    pub open spec fn connection(self, handle: HandleView) -> InstanceView<S, W> {
        if self.current(handle) {
            self.instances[handle.key()]
        } else {
            self.lost[handle.conn_id]
        }
    }

    /// The state with a connection in another condition, whether it holds its key or not.
    pub open spec fn with_connection(self, instance: InstanceView<S, W>) -> AppStateView<S, W> {
        if self.current(instance.handle()) {
            self.with_instance(instance)
        } else {
            self.with_lost(instance)
        }
    }

    /// The state with a connection put among those that hold no key.
    pub open spec fn with_lost(self, instance: InstanceView<S, W>) -> AppStateView<S, W> {
        AppStateView { lost: self.lost.insert(instance.conn_id, instance), ..self }
    }

    /// The state with an instance put in the place of the one that has its key.
    pub open spec fn with_instance(self, instance: InstanceView<S, W>) -> AppStateView<S, W> {
        AppStateView { instances: self.instances.insert(instance.key(), instance), ..self }
    }

    /// The instance that a newly registered connection starts as.
    pub open spec fn newcomer(
        self,
        app: Seq<char>,
        id: Seq<char>,
        hello: HelloView,
        sender: S,
        now: u64,
    ) -> InstanceView<S, W> {
        InstanceView {
            conn_id: (self.conn_counter + 1) as u64,
            app,
            id,
            connected_at: now,
            info: info_of(hello),
            sender,
            pending: Map::empty(),
        }
    }

    /// The state after a connection was registered: it holds its key. Whoever held the key before is
    /// without one, and without calls in flight.
    pub open spec fn registered(
        self,
        app: Seq<char>,
        id: Seq<char>,
        hello: HelloView,
        sender: S,
        now: u64,
    ) -> AppStateView<S, W> {
        let newcomer = self.newcomer(app, id, hello, sender, now);
        let before = if self.instances.contains_key((app, id)) {
            self.with_lost(self.instances[(app, id)].with_pending(Map::empty()))
        } else {
            self
        };
        AppStateView { conn_counter: newcomer.conn_id, ..before.with_instance(newcomer) }
    }

    /// The state after a connection ended: its key is free, unless another connection holds it, and
    /// its calls in flight are given up.
    pub open spec fn removed(self, handle: HandleView) -> AppStateView<S, W> {
        if self.known(handle) {
            let after = self.with_lost(self.connection(handle).with_pending(Map::empty()));
            if self.current(handle) {
                AppStateView { instances: self.instances.remove(handle.key()), ..after }
            } else {
                after
            }
        } else {
            self
        }
    }

    /// The state after a connection was forgotten that holds no key.
    pub open spec fn forgotten(self, handle: HandleView) -> AppStateView<S, W> {
        if self.is_lost(handle) {
            AppStateView { lost: self.lost.remove(handle.conn_id), ..self }
        } else {
            self
        }
    }

    /// The state after a connection said hello again.
    pub open spec fn refreshed(self, handle: HandleView, hello: HelloView) -> AppStateView<S, W> {
        if self.known(handle) {
            self.with_connection(self.connection(handle).with_info(info_of(hello)))
        } else {
            self
        }
    }

    /// Whether a call is in flight on a connection.
    pub open spec fn in_flight(self, handle: HandleView, id: Seq<char>) -> bool {
        self.known(handle) && self.connection(handle).pending.contains_key(id)
    }

    /// The calls in flight on a connection, with their waiters.
    pub open spec fn pending_on(self, handle: HandleView) -> Map<Seq<char>, W> {
        if self.known(handle) {
            self.connection(handle).pending
        } else {
            Map::empty()
        }
    }

    /// The state after a call was entered on a connection.
    pub open spec fn called(self, handle: HandleView, id: Seq<char>, waiter: W) -> AppStateView<S, W> {
        let instance = self.connection(handle);
        self.with_connection(instance.with_pending(instance.pending.insert(id, waiter)))
    }

    /// The state after a call was struck out on a connection.
    pub open spec fn settled(self, handle: HandleView, id: Seq<char>) -> AppStateView<S, W> {
        if self.known(handle) {
            let instance = self.connection(handle);
            self.with_connection(instance.with_pending(instance.pending.remove(id)))
        } else {
            self
        }
    }

    /// The state after every call in flight on the holder of a key was given up.
    pub open spec fn kicked(self, key: (Seq<char>, Seq<char>)) -> AppStateView<S, W> {
        if self.instances.contains_key(key) {
            self.with_instance(self.instances[key].with_pending(Map::empty()))
        } else {
            self
        }
    }
}

impl<S, W> AppState<S, W> {
    /// No key and no number stands twice in its table, and neither does a request id in the table of
    /// an instance.
    pub closed spec fn tidy(&self) -> bool {
        &&& distinct_keys(row_entries(self.rows@))
        &&& distinct_keys(lost_entries(self.lost@))
        &&& forall|i: int| 0 <= i < self.rows@.len() ==> (#[trigger] self.rows@[i]).pending.wf()
        &&& forall|i: int| 0 <= i < self.lost@.len() ==> (#[trigger] self.lost@[i]).pending.wf()
    }

    /// Whether the state is in order. Every function of the registry keeps it so.
    pub open spec fn wf(&self) -> bool {
        self.tidy() && self@.valid()
    }

    /// Nobody is connected, and no port is bound.
    pub fn new() -> (state: AppState<S, W>)
        ensures
            state.wf(),
            state@ == (AppStateView::<S, W> {
                instances: Map::empty(),
                lost: Map::empty(),
                port: 0,
                conn_counter: 0,
            }),
    {
        let state = AppState { rows: Vec::new(), lost: Vec::new(), port: 0, conn_counter: 0 };
        assert(state@.instances =~= Map::empty());
        assert(state@.lost =~= Map::empty());
        state
    }

    /// Records the port that the server is bound to.
    pub fn set_port(&mut self, port: u16)
        requires
            old(self).wf(),
        ensures
            final(self).wf(),
            final(self)@ == (AppStateView { port, ..old(self)@ }),
    {
        self.port = port;
    }

    /// The port that the server is bound to, or zero.
    pub fn port(&self) -> (port: u16)
        ensures
            port == self@.port,
    {
        self.port
    }

    /// How many connections were ever registered.
    pub fn connections(&self) -> (n: u64)
        ensures
            n == self@.conn_counter,
    {
        self.conn_counter
    }

    /// The connected instances, each of them once.
    pub fn instances(&self) -> (rows: &Vec<Instance<S, W>>)
        requires
            self.wf(),
        ensures
            distinct_keys(row_entries(rows@)),
            keyed(row_entries(rows@)) == self@.instances,
    {
        &self.rows
    }

    fn position(&self, app: &str, id: &str) -> (at: Option<usize>)
        requires
            self.wf(),
        ensures
            match at {
                Some(i) => i < self.rows@.len() && self.rows@[i as int]@.key() == (app@, id@)
                    && self@.instances.contains_key((app@, id@)) && self@.instances[(app@, id@)]
                    == self.rows@[i as int]@,
                None => !has_key(row_entries(self.rows@), (app@, id@)) && !self@.instances.contains_key((app@, id@)),
            },
    {
        let ghost all = row_entries(self.rows@);
        for i in 0..self.rows.len()
            invariant
                self.wf(),
                all == row_entries(self.rows@),
                forall|k: int| 0 <= k < i ==> (#[trigger] all[k]).0 != (app@, id@),
        {
            if same_text(self.rows[i].app.as_str(), app) && same_text(self.rows[i].id.as_str(), id) {
                proof {
                    lemma_keyed_at(all, i as int);
                }
                return Some(i);
            }
            assert(all[i as int].0 != (app@, id@));
        }
        None
    }

    fn current_position(&self, handle: &Handle) -> (at: Option<usize>)
        requires
            self.wf(),
        ensures
            match at {
                Some(i) => i < self.rows@.len() && self.rows@[i as int]@.key() == handle@.key() && self@.current(
                    handle@,
                ) && self@.instances[handle@.key()] == self.rows@[i as int]@,
                None => !self@.current(handle@),
            },
    {
        match self.position(handle.app.as_str(), handle.id.as_str()) {
            Some(i) => if self.rows[i].conn_id == handle.conn_id {
                Some(i)
            } else {
                None
            },
            None => None,
        }
    }

    /// The instance that holds a key.
    pub fn get(&self, app: &str, instance: &str) -> (found: Option<&Instance<S, W>>)
        requires
            self.wf(),
        ensures
            match found {
                Some(i) => self@.instances.contains_key((app@, instance@)) && i@ == self@.instances[(
                    app@,
                    instance@,
                )],
                None => !self@.instances.contains_key((app@, instance@)),
            },
    {
        match self.position(app, instance) {
            Some(i) => Some(&self.rows[i]),
            None => None,
        }
    }

    fn lost_position(&self, handle: &Handle) -> (at: Option<usize>)
        requires
            self.wf(),
        ensures
            match at {
                Some(i) => i < self.lost@.len() && self.lost@[i as int]@.handle() == handle@ && self@.is_lost(handle@)
                    && self@.lost[handle.conn_id] == self.lost@[i as int]@,
                None => !self@.is_lost(handle@),
            },
    {
        let ghost all = lost_entries(self.lost@);
        for i in 0..self.lost.len()
            invariant
                self.wf(),
                all == lost_entries(self.lost@),
                forall|k: int| 0 <= k < i ==> (#[trigger] all[k]).1.handle() != handle@,
        {
            if self.lost[i].conn_id == handle.conn_id && same_text(self.lost[i].app.as_str(), handle.app.as_str())
                && same_text(self.lost[i].id.as_str(), handle.id.as_str()) {
                proof {
                    lemma_keyed_at(all, i as int);
                    assert(all[i as int] == (handle.conn_id, self.lost@[i as int]@));
                }
                return Some(i);
            }
            assert(all[i as int].1.handle() != handle@);
        }
        proof {
            if self@.is_lost(handle@) {
                assert(has_key(all, handle.conn_id));
                let k = choose|k: int| 0 <= k < all.len() && (#[trigger] all[k]).0 == handle.conn_id;
                lemma_keyed_at(all, k);
            }
        }
        None
    }

    /// What is held of a connection, whether it holds its key or not.
    pub fn connection(&self, handle: &Handle) -> (found: Option<&Instance<S, W>>)
        requires
            self.wf(),
        ensures
            match found {
                Some(i) => self@.known(handle@) && i@ == self@.connection(handle@),
                None => !self@.known(handle@),
            },
    {
        match self.current_position(handle) {
            Some(i) => Some(&self.rows[i]),
            None => match self.lost_position(handle) {
                Some(i) => Some(&self.lost[i]),
                None => None,
            },
        }
    }

    /// Ends a connection. Its key is free, unless a newer connection has taken it over. Gives back
    /// the waiters of the calls that it will not answer.
    pub fn remove(&mut self, handle: &Handle) -> (waiters: Vec<(String, W)>)
        requires
            old(self).wf(),
        ensures
            final(self).wf(),
            final(self)@ == old(self)@.removed(handle@),
            distinct_keys(waiter_entries(waiters@)),
            keyed(waiter_entries(waiters@)) == old(self)@.pending_on(handle@),
    {
        let ghost before = *self;
        match self.current_position(handle) {
            Some(i) => {
                let ghost all = row_entries(self.rows@);
                let ghost others = lost_entries(self.lost@);
                proof {
                    lemma_keyed_remove(all, i as int);
                }
                let mut gone = self.rows.remove(i);
                assert(row_entries(self.rows@) =~= all.remove(i as int));
                let waiters = gone.fail_pending();
                proof {
                    assert(!before@.lost.contains_key(gone.conn_id));
                    lemma_keyed_push(others, gone.conn_id, gone@);
                }
                let ghost entry = (gone.conn_id, gone@);
                self.lost.push(gone);
                proof {
                    assert(lost_entries(self.lost@) =~= others.push(entry));
                    assert(self@ == before@.removed(handle@));
                }
                waiters
            },
            None => match self.lost_position(handle) {
                Some(i) => {
                    let waiters = self.lost[i].fail_pending();
                    proof {
                        Self::lemma_lost_changed(before, *self, i as int);
                    }
                    waiters
                },
                None => {
                    let none: Vec<(String, W)> = Vec::new();
                    assert(keyed(waiter_entries(none@)) =~= Map::empty());
                    none
                },
            },
        }
    }

    /// Forgets a connection that holds no key. This is for one that nobody will speak of again.
    pub fn forget(&mut self, handle: &Handle)
        requires
            old(self).wf(),
        ensures
            final(self).wf(),
            final(self)@ == old(self)@.forgotten(handle@),
    {
        match self.lost_position(handle) {
            Some(i) => {
                let ghost all = lost_entries(self.lost@);
                proof {
                    lemma_keyed_remove(all, i as int);
                }
                let _ = self.lost.remove(i);
                assert(lost_entries(self.lost@) =~= all.remove(i as int));
            },
            None => {},
        }
    }
}

impl<S, W> Default for AppState<S, W> {
    fn default() -> (state: AppState<S, W>)
        ensures
            state.wf(),
            state@ == (AppStateView::<S, W> {
                instances: Map::empty(),
                lost: Map::empty(),
                port: 0,
                conn_counter: 0,
            }),
    {
        AppState::new()
    }
}

/// A connection that lost its key to a newer one: which it is, what to send it, and the waiters of
/// the calls that it will not answer.
pub struct Evicted<W> {
    pub handle: Handle,
    pub kicked: Kicked<W>,
}

/// A connection that was registered.
pub struct Registered<W> {
    pub handle: Handle,
    pub connected_at: u64,
    /// The connection that held the key before.
    pub evicted: Option<Evicted<W>>,
}

/// What a connection is told that loses its key to a newer one.
pub open spec fn claimed_message(app: Seq<char>, id: Seq<char>) -> Seq<char> {
    "Another connection claimed '"@ + app + "/"@ + id
        + "'. If this is a second tab of the same app, use a per-tab instance id (e.g. sessionStorage, not localStorage)."@
}

/// What a connection is told that the bridge closes.
pub open spec fn disconnected_message() -> Seq<char> {
    "Disconnected from the bridge."@
}

/// What an app is told for which no free id was drawn.
pub open spec fn no_free_id_message(app: Seq<char>) -> Seq<char> {
    "No free instance id for '"@ + app + "'."@
}

impl<W> Kicked<W> {
    /// Whether this is what is left of an instance with these calls in flight that was told this.
    pub open spec fn says(self, message: Seq<char>, pending: Map<Seq<char>, W>) -> bool {
        &&& outbound_view(self.messages@) == farewell_view(message)
        &&& distinct_keys(waiter_entries(self.waiters@))
        &&& keyed(waiter_entries(self.waiters@)) == pending
    }
}

impl<W> Registered<W> {
    /// Whether this is how a state answers to a registration: with the handle of the newcomer, and
    /// with a farewell for the connection that held the key before, if there was one.
    pub open spec fn answers<S>(self, before: AppStateView<S, W>, newcomer: InstanceView<S, W>) -> bool {
        &&& self.handle@ == newcomer.handle()
        &&& self.connected_at == newcomer.connected_at
        &&& match self.evicted {
            Some(evicted) => {
                let loser = before.instances[newcomer.key()];
                &&& before.instances.contains_key(newcomer.key())
                &&& evicted.handle@ == loser.handle()
                &&& evicted.kicked.says(claimed_message(newcomer.app, newcomer.id), loser.pending)
            },
            None => !before.instances.contains_key(newcomer.key()),
        }
    }

    /// Whether a hello leads from one state to another like this, with this number drawn and at
    /// this time: its connection is registered under its own id or the one that the number leads to.
    pub open spec fn enters<S>(
        self,
        before: AppStateView<S, W>,
        after: AppStateView<S, W>,
        hello: HelloView,
        sender: S,
        drawn: u128,
        now: u64,
    ) -> bool {
        let id = self.handle@.id;
        &&& before.assigns(hello, drawn, id)
        &&& after == before.registered(hello.app, id, hello, sender, now)
        &&& self.answers(before, before.newcomer(hello.app, id, hello, sender, now))
    }

    /// Whether a hello leads from one state to another like this: its connection is registered
    /// under an id that fits, at a time that the system clock showed.
    pub open spec fn admits<S>(
        self,
        before: AppStateView<S, W>,
        after: AppStateView<S, W>,
        hello: HelloView,
        sender: S,
    ) -> bool {
        let id = self.handle@.id;
        let now = self.connected_at;
        &&& before.fits(hello, id)
        &&& exists|t: std::time::SystemTime| now == unix_seconds(t)
        &&& after == before.registered(hello.app, id, hello, sender, now)
        &&& self.answers(before, before.newcomer(hello.app, id, hello, sender, now))
    }
}

impl<S, W> AppState<S, W> {
    /// Registers a connection under a key at a given time. If the key is taken, the new connection
    /// wins; the old one is told that it was replaced, and closed.
    pub fn register_as(&mut self, app: String, id: String, hello: &Hello, sender: S, now: u64) -> (registered: Registered<
        W,
    >)
        requires
            old(self).wf(),
            old(self)@.conn_counter < u64::MAX,
            is_name(app@),
            is_name(id@),
        ensures
            final(self).wf(),
            final(self)@ == old(self)@.registered(app@, id@, hello@, sender, now),
            registered.answers(old(self)@, old(self)@.newcomer(app@, id@, hello@, sender, now)),
    {
        let ghost before = self@;
        let ghost newcomer = self@.newcomer(app@, id@, hello@, sender, now);
        let ghost others = lost_entries(self.lost@);
        let key_app = app.clone();
        let key_id = id.clone();
        let instance = Instance {
            conn_id: self.conn_counter + 1,
            app,
            id,
            connected_at: now,
            info: InstanceInfo::from_hello(hello),
            sender,
            pending: Waiters::new(),
        };
        assert(instance@ == newcomer);
        let handle = instance.handle();
        let evicted = match self.position(key_app.as_str(), key_id.as_str()) {
            Some(i) => {
                let ghost all = row_entries(self.rows@);
                proof {
                    lemma_keyed_remove(all, i as int);
                }
                let mut loser = self.rows.remove(i);
                assert(row_entries(self.rows@) =~= all.remove(i as int));
                let kicked = loser.kick(
                    "Another connection claimed '".to_owned().concat(key_app.as_str()).concat("/").concat(
                        key_id.as_str(),
                    ).concat(
                        "'. If this is a second tab of the same app, use a per-tab instance id (e.g. sessionStorage, not localStorage).",
                    ).as_str(),
                );
                let loser_handle = loser.handle();
                proof {
                    assert(!before.lost.contains_key(loser.conn_id));
                    lemma_keyed_push(others, loser.conn_id, loser@);
                }
                let ghost entry = (loser.conn_id, loser@);
                self.lost.push(loser);
                assert(lost_entries(self.lost@) =~= others.push(entry));
                Some(Evicted { handle: loser_handle, kicked })
            },
            None => None,
        };
        let ghost rest = row_entries(self.rows@);
        proof {
            assert(!has_key(rest, newcomer.key()));
            lemma_keyed_push(rest, newcomer.key(), newcomer);
        }
        self.conn_counter = self.conn_counter + 1;
        self.rows.push(instance);
        proof {
            assert(row_entries(self.rows@) =~= rest.push((newcomer.key(), newcomer)));
            assert(self@.instances =~= before.instances.insert(newcomer.key(), newcomer));
            assert(self@ == before.registered(newcomer.app, newcomer.id, hello@, newcomer.sender, now));
        }
        Registered { handle, connected_at: now, evicted }
    }
}

impl<S, W> AppStateView<S, W> {
    /// Whether every id that can be drawn for an instance of an app is taken.
    pub open spec fn all_ids_taken(self, app: Seq<char>) -> bool {
        forall|n: u128| self.instances.contains_key((app, #[trigger] short_id_of(n)))
    }

    /// Whether an id is the first free one for an instance of an app, from a drawn number on.
    pub open spec fn first_free(self, app: Seq<char>, drawn: u128, id: Seq<char>) -> bool {
        exists|k: int|
            {
                &&& 0 <= k < SHORT_IDS
                &&& id == short_id_of(#[trigger] stepped(drawn, k))
                &&& !self.instances.contains_key((app, id))
                &&& forall|j: int|
                    0 <= j < k ==> self.instances.contains_key((app, short_id_of(#[trigger] stepped(drawn, j))))
            }
    }

    /// Whether this is the id under which a hello is registered: the id that it brings, or else
    /// the first free one from the drawn number on.
    pub open spec fn assigns(self, hello: HelloView, drawn: u128, id: Seq<char>) -> bool {
        &&& is_name(hello.app)
        &&& is_name(id)
        &&& match hello.instance_id {
            Some(own) => id == own,
            None => self.first_free(hello.app, drawn, id),
        }
    }

    /// Whether a connection can be registered under this id by this hello: the id that the hello
    /// brings, or one that a random number leads to.
    pub open spec fn fits(self, hello: HelloView, id: Seq<char>) -> bool {
        &&& is_name(hello.app)
        &&& is_name(id)
        &&& match hello.instance_id {
            Some(own) => id == own,
            None => exists|drawn: u128| is_random_uuid(drawn) && #[trigger] self.first_free(hello.app, drawn, id),
        }
    }

    /// Whether this is why a hello is turned away.
    pub open spec fn turned_away(self, hello: HelloView, message: Seq<char>) -> bool {
        if !is_name(hello.app) {
            message == slug_complaint(hello.app, "app name"@)
        } else {
            match hello.instance_id {
                Some(own) => !is_name(own) && message == slug_complaint(own, "instance id"@),
                None => self.all_ids_taken(hello.app) && message == no_free_id_message(hello.app),
            }
        }
    }
}

impl<S, W> AppState<S, W> {
    /// The first free id for an instance of the app, from a drawn number on. There is none only
    /// where every id is taken.
    pub fn free_id_from(&self, app: &str, drawn: u128) -> (free: Option<String>)
        requires
            self.wf(),
        ensures
            match free {
                Some(id) => is_name(id@) && self@.first_free(app@, drawn, id@),
                None => self@.all_ids_taken(app@),
            },
    {
        let mut k: u64 = 0;
        while k < SHORT_IDS
            invariant
                self.wf(),
                k <= SHORT_IDS,
                forall|j: int|
                    0 <= j < k ==> self@.instances.contains_key((app@, short_id_of(#[trigger] stepped(drawn, j)))),
            decreases SHORT_IDS - k,
        {
            let n = step_from(drawn, k);
            let candidate = short_id(n);
            if self.position(app, candidate.as_str()).is_none() {
                proof {
                    law_assigned_ids_are_names(n);
                    assert(candidate@ == short_id_of(stepped(drawn, k as int)));
                }
                return Some(candidate);
            }
            k = k + 1;
        }
        proof {
            assert forall|n: u128| self@.instances.contains_key((app@, #[trigger] short_id_of(n))) by {
                let j = lemma_steps_reach(drawn, n);
                assert(self@.instances.contains_key((app@, short_id_of(stepped(drawn, j)))));
            }
        }
        None
    }

    /// Registers an app from its hello at a given time. If it brings no id, it gets the first free
    /// one from the drawn number on.
    pub fn register_drawn(&mut self, hello: &Hello, sender: S, drawn: u128, now: u64) -> (r: Result<
        Registered<W>,
        String,
    >)
        requires
            old(self).wf(),
            old(self)@.conn_counter < u64::MAX,
        ensures
            final(self).wf(),
            match r {
                Ok(registered) => registered.enters(old(self)@, final(self)@, hello@, sender, drawn, now),
                Err(message) => final(self)@ == old(self)@ && old(self)@.turned_away(hello@, message@),
            },
    {
        let app = match validate_slug(hello.app.as_str(), "app name") {
            Ok(app) => app,
            Err(message) => return Err(message),
        };
        let id = match &hello.instance_id {
            Some(own) => match validate_slug(own.as_str(), "instance id") {
                Ok(id) => id,
                Err(message) => return Err(message),
            },
            None => match self.free_id_from(app.as_str(), drawn) {
                Some(id) => id,
                None => return Err(
                    "No free instance id for '".to_owned().concat(app.as_str()).concat("'."),
                ),
            },
        };
        Ok(self.register_as(app, id, hello, sender, now))
    }

    /// Registers a freshly connected app from its hello. If its key is taken (a page that reloads
    /// may reconnect before its old connection is seen to be gone), the new connection wins; the
    /// old one is told that it was replaced, and closed. Only a bad name is refused, as long as fewer
    /// instances are connected than there are ids to assign.
    pub fn register(&mut self, hello: &Hello, sender: S) -> (r: Result<Registered<W>, String>)
        requires
            old(self).wf(),
            old(self)@.conn_counter < u64::MAX,
        ensures
            final(self).wf(),
            match r {
                Ok(registered) => registered.admits(old(self)@, final(self)@, hello@, sender),
                Err(message) => final(self)@ == old(self)@ && old(self)@.turned_away(hello@, message@),
            },
            old(self)@.instances.dom().len() < SHORT_IDS ==> (r is Err <==> !is_name(hello@.app) || (
            hello@.instance_id is Some && !is_name(hello@.instance_id->0))),
    {
        proof {
            if self@.instances.dom().len() < SHORT_IDS {
                law_ids_do_not_run_out(self@, hello@.app);
            }
        }
        let drawn: u128 = match &hello.instance_id {
            Some(_) => 0,
            None => random_uuid(),
        };
        self.register_drawn(hello, sender, drawn, unix_now())
    }

    /// Resolves an app to its instance, which takes that exactly one is connected.
    pub fn resolve_single(&self, app: &str) -> (r: Result<&Instance<S, W>, HubError>)
        requires
            self.wf(),
        ensures
            match r {
                Ok(instance) => self@.only_instance(app@, instance@),
                Err(e) => self@.unresolved(app@, e@),
            },
    {
        let ghost all = row_entries(self.rows@);
        let mut ids: Vec<String> = Vec::new();
        let mut last: usize = 0;
        for i in 0..self.rows.len()
            invariant
                self.wf(),
                all == row_entries(self.rows@),
                ids@.len() > 0 ==> last < i && self.rows@[last as int]@.key() == (app@, ids@.last()@),
                forall|k: int| 0 <= k < i && (#[trigger] all[k]).0.0 == app@ ==> texts_view(ids@).contains(all[k].0.1),
                forall|n: int| 0 <= n < ids@.len() ==> exists|k: int|
                    0 <= k < i && (#[trigger] all[k]).0 == (app@, (#[trigger] ids@[n])@),
                texts_view(ids@).no_duplicates(),
        {
            if same_text(self.rows[i].app.as_str(), app) {
                let ghost before = ids@;
                ids.push(self.rows[i].id.clone());
                last = i;
                proof {
                    let id = self.rows@[i as int].id@;
                    assert(all[i as int].0 == (app@, id));
                    assert(texts_view(ids@) =~= texts_view(before).push(id));
                    assert(texts_view(ids@)[before.len() as int] == id);
                    assert(!texts_view(before).contains(id)) by {
                        if texts_view(before).contains(id) {
                            let n = choose|n: int| 0 <= n < before.len() && texts_view(before)[n] == id;
                            assert(before[n]@ == id);
                            let k = choose|k: int| 0 <= k < i && (#[trigger] all[k]).0 == (app@, before[n]@);
                            assert(all[k].0 == all[i as int].0);
                        }
                    }
                    assert forall|k: int| 0 <= k < i + 1 && (#[trigger] all[k]).0.0 == app@ implies texts_view(
                        ids@,
                    ).contains(all[k].0.1) by {
                        if k < i {
                            let n = choose|n: int| 0 <= n < before.len() && texts_view(before)[n] == all[k].0.1;
                            assert(texts_view(ids@)[n] == all[k].0.1);
                        }
                    }
                    assert forall|n: int| 0 <= n < ids@.len() implies exists|k: int|
                        0 <= k < i + 1 && (#[trigger] all[k]).0 == (app@, (#[trigger] ids@[n])@) by {
                        if n < before.len() {
                            assert(ids@[n] == before[n]);
                        }
                    }
                }
            }
        }
        proof {
            assert forall|id: Seq<char>| texts_view(ids@).contains(id) == #[trigger] self@.instances.contains_key(
                (app@, id),
            ) by {
                if texts_view(ids@).contains(id) {
                    let n = choose|n: int| 0 <= n < ids@.len() && texts_view(ids@)[n] == id;
                    assert(ids@[n]@ == id);
                }
                if self@.instances.contains_key((app@, id)) {
                    let k = choose|k: int| 0 <= k < all.len() && (#[trigger] all[k]).0 == (app@, id);
                    assert(all[k].0.0 == app@);
                }
            }
        }
        if ids.len() == 0 {
            Err(HubError::NotFound { app: app.to_owned(), instance: None })
        } else if ids.len() == 1 {
            proof {
                lemma_keyed_at(all, last as int);
                assert forall|id: Seq<char>| #[trigger] self@.instances.contains_key((app@, id)) implies id
                    == self.rows@[last as int].id@ by {
                    assert(texts_view(ids@).contains(id));
                }
            }
            Ok(&self.rows[last])
        } else {
            Err(HubError::Ambiguous { app: app.to_owned(), instances: ids })
        }
    }
}

impl<S, W> AppStateView<S, W> {
    /// Whether this is the one connected instance of an app.
    pub open spec fn only_instance(self, app: Seq<char>, instance: InstanceView<S, W>) -> bool {
        &&& instance.app == app
        &&& self.instances.contains_key((app, instance.id))
        &&& self.instances[(app, instance.id)] == instance
        &&& forall|id: Seq<char>| #[trigger] self.instances.contains_key((app, id)) ==> id == instance.id
    }

    /// Whether this is why an app does not stand for an instance: none is connected, or several
    /// are, of which these are all the ids, each named once.
    pub open spec fn unresolved(self, app: Seq<char>, e: crate::hub_error::HubErrorView) -> bool {
        match e {
            crate::hub_error::HubErrorView::NotFound { app: named, instance } => {
                &&& named == app
                &&& instance is None
                &&& forall|id: Seq<char>| !#[trigger] self.instances.contains_key((app, id))
            },
            crate::hub_error::HubErrorView::Ambiguous { app: named, instances } => {
                &&& named == app
                &&& instances.len() >= 2
                &&& instances.no_duplicates()
                &&& forall|id: Seq<char>|
                    instances.contains(id) == #[trigger] self.instances.contains_key((app, id))
            },
            _ => false,
        }
    }
}

/// What came of a message from an app.
pub enum AppMessage<W> {
    /// What was said about the instance is refreshed.
    Refreshed,
    /// A reply for a call in flight, and the waiter of that call.
    Deliver { waiter: W, response: WireResponse },
    /// Nothing: the reply answers no call in flight, or the hello says nothing that can be read.
    Ignored,
    /// The message is no JSON; this is the complaint about it.
    Unreadable(String),
    /// The message is neither a hello nor a reply; this is what it says.
    Malformed(Json),
}

impl<W> AppMessage<W> {
    /// Whether this is what comes of a hello on a connection.
    pub open spec fn answers_hello<S>(self, before: AppStateView<S, W>, handle: HandleView, v: JsonView) -> bool {
        if before.known(handle) && hello_of(v) is Ok {
            self is Refreshed
        } else {
            self is Ignored
        }
    }

    /// Whether this is what comes of a reply on a connection.
    pub open spec fn answers_reply<S>(
        self,
        before: AppStateView<S, W>,
        handle: HandleView,
        response: ResponseView,
    ) -> bool {
        if before.in_flight(handle, response.id) {
            &&& self is Deliver
            &&& self->response@ == response
            &&& self->waiter == before.connection(handle).pending[response.id]
        } else {
            self is Ignored
        }
    }

    /// Whether this is what comes of a value that was read from a connection.
    pub open spec fn answers<S>(self, before: AppStateView<S, W>, handle: HandleView, v: JsonView) -> bool {
        if is_hello(v) {
            self.answers_hello(before, handle, v)
        } else {
            match response_of(v) {
                Some(response) => self.answers_reply(before, handle, response),
                None => self is Malformed && self->Malformed_0@ == v,
            }
        }
    }
}

impl<S, W> AppStateView<S, W> {
    /// The state after a value was read from a connection. A hello refreshes what is said about
    /// the instance; anything else is a reply to a call in flight, matched by request id.
    pub open spec fn heard(self, handle: HandleView, v: JsonView) -> AppStateView<S, W> {
        if is_hello(v) {
            match hello_of(v) {
                Ok(hello) => self.refreshed(handle, hello),
                Err(_) => self,
            }
        } else {
            match response_of(v) {
                Some(response) => self.settled(handle, response.id),
                None => self,
            }
        }
    }
}

/// A call that was entered: its request id, and the frame that relays it.
#[derive(Debug, PartialEq)]
pub struct Call {
    pub id: String,
    pub frame: String,
}

/// How a relayed call ended.
pub enum Outcome {
    /// The frame could not be handed to the connection.
    Unsent,
    /// The app replied.
    Replied(WireResponse),
    /// The waiter was dropped: the app disconnected.
    Dropped,
    /// No reply came in time.
    TimedOut,
}

/// What an `Outcome` says.
pub enum OutcomeView {
    Unsent,
    Replied(ResponseView),
    Dropped,
    TimedOut,
}

impl View for Outcome {
    type V = OutcomeView;

    open spec fn view(&self) -> OutcomeView {
        match self {
            Outcome::Unsent => OutcomeView::Unsent,
            Outcome::Replied(response) => OutcomeView::Replied(response@),
            Outcome::Dropped => OutcomeView::Dropped,
            Outcome::TimedOut => OutcomeView::TimedOut,
        }
    }
}

/// What the client of a call gets.
pub open spec fn call_result(outcome: OutcomeView) -> Result<JsonView, crate::hub_error::HubErrorView> {
    match outcome {
        OutcomeView::Replied(response) => if response.ok {
            Ok(response.result)
        } else {
            Err(crate::hub_error::HubErrorView::App(response.error))
        },
        OutcomeView::TimedOut => Err(crate::hub_error::HubErrorView::Timeout),
        _ => Err(crate::hub_error::HubErrorView::Gone),
    }
}

/// What a result says.
pub open spec fn result_view(r: Result<Json, HubError>) -> Result<JsonView, crate::hub_error::HubErrorView> {
    match r {
        Ok(j) => Ok(j@),
        Err(e) => Err(e@),
    }
}

impl<S, W> AppState<S, W> {
    /// A change of one row that keeps its key, its number and its catalog an array keeps the state
    /// in order.
    proof fn lemma_row_changed(before: Self, after: Self, i: int)
        requires
            before.wf(),
            0 <= i < before.rows@.len(),
            after.rows@.len() == before.rows@.len(),
            forall|k: int| 0 <= k < after.rows@.len() && k != i ==> #[trigger] after.rows@[k] == before.rows@[k],
            after.rows@[i]@.key() == before.rows@[i]@.key(),
            after.rows@[i].conn_id == before.rows@[i].conn_id,
            after.rows@[i]@.info.tools is Array,
            after.rows@[i].pending.wf(),
            after.lost == before.lost,
            after.port == before.port,
            after.conn_counter == before.conn_counter,
        ensures
            after.wf(),
            after@ == before@.with_instance(after.rows@[i]@),
    {
        let all = row_entries(before.rows@);
        let key = before.rows@[i]@.key();
        lemma_keyed_at(all, i);
        lemma_keyed_update(all, i, after.rows@[i]@);
        assert(row_entries(after.rows@) =~= all.update(i, (key, after.rows@[i]@)));
        assert(all[i].0 == key);
        assert(after@.instances == before@.instances.insert(key, after.rows@[i]@));
        assert(before@.instances[key] == before.rows@[i]@);
        assert(after@.valid()) by {
            assert forall|k: (Seq<char>, Seq<char>)| #[trigger] after@.instances.contains_key(k) implies ({
                let instance = after@.instances[k];
                &&& instance.key() == k
                &&& is_name(k.0)
                &&& is_name(k.1)
                &&& instance.info.tools is Array
                &&& 0 < instance.conn_id <= after@.conn_counter
            }) by {
                assert(before@.instances.contains_key(k));
            }
        }
    }

    /// The same of a connection that holds no key.
    proof fn lemma_lost_changed(before: Self, after: Self, i: int)
        requires
            before.wf(),
            0 <= i < before.lost@.len(),
            after.lost@.len() == before.lost@.len(),
            forall|k: int| 0 <= k < after.lost@.len() && k != i ==> #[trigger] after.lost@[k] == before.lost@[k],
            after.lost@[i]@.handle() == before.lost@[i]@.handle(),
            after.lost@[i]@.info.tools is Array,
            after.lost@[i].pending.wf(),
            after.rows == before.rows,
            after.port == before.port,
            after.conn_counter == before.conn_counter,
        ensures
            after.wf(),
            after@ == before@.with_lost(after.lost@[i]@),
    {
        let all = lost_entries(before.lost@);
        let n = before.lost@[i].conn_id;
        lemma_keyed_at(all, i);
        lemma_keyed_update(all, i, after.lost@[i]@);
        assert(lost_entries(after.lost@) =~= all.update(i, (n, after.lost@[i]@)));
        assert(all[i].0 == n);
        assert(before@.lost[n] == before.lost@[i]@);
        assert(after@.lost == before@.lost.insert(n, after.lost@[i]@));
        assert(after@.lost.dom() =~= before@.lost.dom());
    }

    /// Asks a live connection to close. It keeps its key until it is gone.
    pub fn request_disconnect(&mut self, app: &str, instance: &str) -> (kicked: Option<Kicked<W>>)
        requires
            old(self).wf(),
        ensures
            final(self).wf(),
            final(self)@ == old(self)@.kicked((app@, instance@)),
            match kicked {
                Some(k) => old(self)@.instances.contains_key((app@, instance@)) && k.says(
                    disconnected_message(),
                    old(self)@.instances[(app@, instance@)].pending,
                ),
                None => !old(self)@.instances.contains_key((app@, instance@)),
            },
    {
        match self.position(app, instance) {
            Some(i) => {
                let ghost before = *self;
                let kicked = self.rows[i].kick("Disconnected from the bridge.");
                proof {
                    Self::lemma_row_changed(before, *self, i as int);
                }
                Some(kicked)
            },
            None => None,
        }
    }

    /// Acts on a value that was read from a connection.
    pub fn handle_app_value(&mut self, handle: &Handle, v: &Json) -> (message: AppMessage<W>)
        requires
            old(self).wf(),
        ensures
            final(self).wf(),
            final(self)@ == old(self)@.heard(handle@, v@),
            message.answers(old(self)@, handle@, v@),
            message is Refreshed ==> says_all(v@, final(self)@.connection(handle@).info),
            message is Deliver ==> old(self)@.connection(handle@).pending.contains_key(message->response@.id)
                && message->waiter == old(self)@.connection(handle@).pending[message->response@.id],
    {
        if says_hello(v) {
            match Hello::from_json(v) {
                Ok(hello) => match self.current_position(handle) {
                    Some(i) => {
                        proof {
                            law_info_is_what_the_hello_says(v@, hello@);
                        }
                        let ghost before = *self;
                        self.rows[i].info = InstanceInfo::from_hello(&hello);
                        proof {
                            Self::lemma_row_changed(before, *self, i as int);
                        }
                        AppMessage::Refreshed
                    },
                    None => match self.lost_position(handle) {
                        Some(i) => {
                            proof {
                                law_info_is_what_the_hello_says(v@, hello@);
                            }
                            let ghost before = *self;
                            self.lost[i].info = InstanceInfo::from_hello(&hello);
                            proof {
                                Self::lemma_lost_changed(before, *self, i as int);
                            }
                            AppMessage::Refreshed
                        },
                        None => AppMessage::Ignored,
                    },
                },
                Err(_) => AppMessage::Ignored,
            }
        } else {
            match WireResponse::from_json(v) {
                Some(response) => match self.strike(handle, response.id.as_str()) {
                    Some(waiter) => AppMessage::Deliver { waiter, response },
                    None => AppMessage::Ignored,
                },
                None => AppMessage::Malformed(v.clone()),
            }
        }
    }

    /// Acts on a message from a connection: a hello refreshes what is said about the instance;
    /// anything else is a reply to a call in flight, matched by request id.
    pub fn handle_app_message(&mut self, handle: &Handle, text: &str) -> (message: AppMessage<W>)
        requires
            old(self).wf(),
        ensures
            final(self).wf(),
            match parsed_json(text@) {
                Ok(v) => final(self)@ == old(self)@.heard(handle@, v) && message.answers(old(self)@, handle@, v),
                Err(e) => final(self)@ == old(self)@ && message is Unreadable && message->Unreadable_0@ == e,
            },
    {
        match Json::parse(text) {
            Ok(v) => self.handle_app_value(handle, &v),
            Err(e) => AppMessage::Unreadable(e),
        }
    }

    /// Strikes a call out on a connection, and gives back its waiter.
    fn strike(&mut self, handle: &Handle, id: &str) -> (waiter: Option<W>)
        requires
            old(self).wf(),
        ensures
            final(self).wf(),
            final(self)@ == old(self)@.settled(handle@, id@),
            waiter == (if old(self)@.in_flight(handle@, id@) {
                Some(old(self)@.connection(handle@).pending[id@])
            } else {
                None
            }),
    {
        match self.current_position(handle) {
            Some(i) => {
                let ghost before = *self;
                let waiter = self.rows[i].pending.remove(id);
                proof {
                    Self::lemma_row_changed(before, *self, i as int);
                }
                waiter
            },
            None => match self.lost_position(handle) {
                Some(i) => {
                    let ghost before = *self;
                    let waiter = self.lost[i].pending.remove(id);
                    proof {
                        Self::lemma_lost_changed(before, *self, i as int);
                    }
                    waiter
                },
                None => None,
            },
        }
    }

    /// Enters a call on a connection under a request id, and gives the frame that relays it. Only a
    /// connection that was forgotten takes no calls.
    pub fn call_as(&mut self, handle: &Handle, id: String, action: &str, payload: Json, waiter: W) -> (r: Result<
        Call,
        HubError,
    >)
        requires
            old(self).wf(),
        ensures
            final(self).wf(),
            match r {
                Ok(call) => old(self)@.known(handle@) && final(self)@ == old(self)@.called(handle@, id@, waiter)
                    && call.id@ == id@ && call.frame@ == request_frame_text(id@, action@, payload@),
                Err(e) => !old(self)@.known(handle@) && final(self)@ == old(self)@ && e is Gone,
            },
            r is Ok ==> r->Ok_0.frame@ == call_text(id@, action@, payload@) && final(self)@.connection(
                handle@,
            ).pending.contains_key(id@) && final(self)@.connection(handle@).pending[id@] == waiter,
    {
        match self.current_position(handle) {
            Some(i) => {
                let frame = request_frame(id.as_str(), action, payload);
                let ghost before = *self;
                let _ = self.rows[i].pending.insert(id.clone(), waiter);
                proof {
                    Self::lemma_row_changed(before, *self, i as int);
                }
                Ok(Call { id, frame })
            },
            None => match self.lost_position(handle) {
                Some(i) => {
                    let frame = request_frame(id.as_str(), action, payload);
                    let ghost before = *self;
                    let _ = self.lost[i].pending.insert(id.clone(), waiter);
                    proof {
                        Self::lemma_lost_changed(before, *self, i as int);
                    }
                    Ok(Call { id, frame })
                },
                None => Err(HubError::Gone),
            },
        }
    }

    /// Enters a call on a connection under a fresh request id, and gives the frame that relays it.
    pub fn call(&mut self, handle: &Handle, action: &str, payload: Json, waiter: W) -> (r: Result<Call, HubError>)
        requires
            old(self).wf(),
        ensures
            final(self).wf(),
            match r {
                Ok(call) => old(self)@.known(handle@) && final(self)@ == old(self)@.called(
                    handle@,
                    call.id@,
                    waiter,
                ) && call.frame@ == request_frame_text(call.id@, action@, payload@) && is_request_id(call.id@),
                Err(e) => !old(self)@.known(handle@) && final(self)@ == old(self)@ && e is Gone,
            },
            r is Ok ==> r->Ok_0.frame@ == call_text(r->Ok_0.id@, action@, payload@) && final(self)@.connection(
                handle@,
            ).pending.contains_key(r->Ok_0.id@) && final(self)@.connection(handle@).pending[r->Ok_0.id@] == waiter,
    {
        let id = request_id();
        self.call_as(handle, id, action, payload, waiter)
    }

    /// Ends a call: a call that was not sent, or not answered in time, is struck out, and the
    /// client gets the app's result or learns why there is none.
    pub fn settle(&mut self, handle: &Handle, id: &str, outcome: Outcome) -> (r: Result<Json, HubError>)
        requires
            old(self).wf(),
        ensures
            final(self).wf(),
            final(self)@ == (match outcome {
                Outcome::Unsent => old(self)@.settled(handle@, id@),
                Outcome::TimedOut => old(self)@.settled(handle@, id@),
                _ => old(self)@,
            }),
            result_view(r) == call_result(outcome@),
            match outcome {
                Outcome::Unsent => r is Err && r->Err_0 is Gone,
                Outcome::Dropped => r is Err && r->Err_0 is Gone,
                Outcome::TimedOut => r is Err && r->Err_0 is Timeout,
                Outcome::Replied(response) => if response.ok {
                    r is Ok && r->Ok_0@ == response.result@
                } else {
                    r is Err && r->Err_0@ == HubErrorView::App(response.error@)
                },
            },
            outcome is Unsent || outcome is TimedOut ==> !final(self)@.in_flight(handle@, id@),
    {
        match outcome {
            Outcome::Unsent => {
                let _ = self.strike(handle, id);
                Err(HubError::Gone)
            },
            Outcome::Replied(response) => if response.ok {
                Ok(response.result)
            } else {
                Err(HubError::App(response.error))
            },
            Outcome::Dropped => Err(HubError::Gone),
            Outcome::TimedOut => {
                let _ = self.strike(handle, id);
                Err(HubError::Timeout)
            },
        }
    }
}

} // verus!
