//! What happens on the connection of an app, event by event.

use crate::codec::{json_text, parsed_json};
use crate::discovery::{instance_url, instance_url_text};
use crate::registry::{AppMessage, AppState, AppStateView, Handle, HandleView, Registered};
use crate::table::{distinct_keys, keyed, waiter_entries};
use crate::wire::{
    error_frame, error_frame_text, first_frame, parse_hello, welcome_frame, welcome_json, Hello, HelloView,
    Outbound, OutboundView,
};
use vstd::prelude::*;

verus! {

/// What comes from the connection of an app.
pub enum SocketEvent {
    /// A text frame.
    Text(String),
    /// A close frame.
    Close,
    /// Any other frame.
    Other,
    /// Nothing more: the connection ended or failed, or was silent for too long.
    Ended,
}

/// What happens on a connection that has not said hello.
pub enum HelloStep<S, W> {
    /// Its hello is still awaited.
    Wait(S),
    /// It is sent this frame and closed.
    Reject(String),
    /// It is registered, and sent this frame.
    Welcome { registered: Registered<W>, frame: String },
    /// It is over.
    End,
}

impl<S, W> HelloStep<S, W> {
    /// Whether a connection is rejected like this, without a change of the state.
    pub open spec fn rejects(
        self,
        before: AppStateView<S, W>,
        after: AppStateView<S, W>,
        message: Seq<char>,
    ) -> bool {
        self is Reject && self->Reject_0@ == error_frame_text(message) && after == before
    }

    /// Whether a connection is welcomed: registered by its hello, and told who it is and where it
    /// is exposed.
    pub open spec fn welcomes(
        self,
        before: AppStateView<S, W>,
        after: AppStateView<S, W>,
        hello: HelloView,
        sender: S,
    ) -> bool {
        let handle = self->registered.handle@;
        &&& self is Welcome
        &&& self->registered.admits(before, after, hello, sender)
        &&& self->frame@ == json_text(
            welcome_json(instance_url(before.base_url(), handle.app, handle.id), handle.app, handle.id),
        )
    }

    /// Whether this is what happens after a first frame that was read like this.
    pub open spec fn greets(
        self,
        before: AppStateView<S, W>,
        after: AppStateView<S, W>,
        first: Result<HelloView, Seq<char>>,
        sender: S,
    ) -> bool {
        match first {
            Err(message) => self.rejects(before, after, message),
            Ok(hello) => {
                ||| self.welcomes(before, after, hello, sender)
                ||| exists|message: Seq<char>| #[trigger]
                    before.turned_away(hello, message) && self.rejects(before, after, message)
            },
        }
    }
}

/// What happens on a connection that has said hello.
pub enum SocketStep<W> {
    /// Something came of a message.
    Message(AppMessage<W>),
    /// Nothing came of the event.
    Skip,
    /// The connection is over, and these are the waiters of the calls that it will not answer.
    End(Vec<(String, W)>),
}

impl<W> SocketStep<W> {
    /// Whether a connection ends like this: its key is free, unless another connection holds it, its
    /// calls in flight are given up, and it is forgotten.
    pub open spec fn ends<S>(
        self,
        before: AppStateView<S, W>,
        after: AppStateView<S, W>,
        handle: HandleView,
    ) -> bool {
        &&& self is End
        &&& after == before.removed(handle).forgotten(handle)
        &&& distinct_keys(waiter_entries(self->End_0@))
        &&& keyed(waiter_entries(self->End_0@)) == before.pending_on(handle)
    }
}

/// What was made of a first frame.
pub open spec fn hello_view(r: Result<Hello, String>) -> Result<HelloView, Seq<char>> {
    match r {
        Ok(hello) => Ok(hello@),
        Err(message) => Err(message@),
    }
}

impl<S, W> AppState<S, W> {
    /// Acts on a first frame that was read: registers the app and welcomes it, or rejects it.
    pub fn greet(&mut self, first: Result<Hello, String>, sender: S) -> (step: HelloStep<S, W>)
        requires
            old(self).wf(),
            old(self)@.conn_counter < u64::MAX,
        ensures
            final(self).wf(),
            step.greets(old(self)@, final(self)@, hello_view(first), sender),
            first is Err ==> step is Reject,
            step is Reject ==> final(self)@ == old(self)@,
            step is Welcome ==> final(self)@.current(step->registered.handle@) && final(self)@.connection(
                step->registered.handle@,
            ).sender == sender,
    {
        let hello = match first {
            Ok(hello) => hello,
            Err(message) => return HelloStep::Reject(error_frame(message.as_str())),
        };
        let bridge = self.base_url();
        match self.register(&hello, sender) {
            Ok(registered) => {
                let app = registered.handle.app.clone();
                let id = registered.handle.id.clone();
                let base = instance_url_text(bridge.as_str(), app.as_str(), id.as_str());
                let frame = welcome_frame(base.as_str(), app.as_str(), id.as_str());
                HelloStep::Welcome { registered, frame }
            },
            Err(message) => HelloStep::Reject(error_frame(message.as_str())),
        }
    }

    /// Acts on an event of a connection that has not said hello. Frames that are no text are passed
    /// over; the first text must be a hello.
    pub fn on_first_event(&mut self, event: SocketEvent, sender: S) -> (step: HelloStep<S, W>)
        requires
            old(self).wf(),
            old(self)@.conn_counter < u64::MAX,
        ensures
            final(self).wf(),
            match event {
                SocketEvent::Text(text) => step.greets(
                    old(self)@,
                    final(self)@,
                    first_frame(parsed_json(text@)),
                    sender,
                ),
                SocketEvent::Ended => step is End && final(self)@ == old(self)@,
                _ => step == HelloStep::<S, W>::Wait(sender) && final(self)@ == old(self)@,
            },
    {
        match event {
            SocketEvent::Text(text) => self.greet(parse_hello(text.as_str()), sender),
            SocketEvent::Ended => HelloStep::End,
            _ => HelloStep::Wait(sender),
        }
    }

    /// Acts on an event of a connection that has said hello. One that is over gives up its key,
    /// unless a newer connection has taken it over.
    pub fn on_event(&mut self, handle: &Handle, event: SocketEvent) -> (step: SocketStep<W>)
        requires
            old(self).wf(),
        ensures
            final(self).wf(),
            match event {
                SocketEvent::Text(text) => step is Message && match parsed_json(text@) {
                    Ok(v) => final(self)@ == old(self)@.heard(handle@, v) && step->Message_0.answers(
                        old(self)@,
                        handle@,
                        v,
                    ),
                    Err(e) => final(self)@ == old(self)@ && step->Message_0 is Unreadable
                        && step->Message_0->Unreadable_0@ == e,
                },
                SocketEvent::Other => step is Skip && final(self)@ == old(self)@,
                _ => step.ends(old(self)@, final(self)@, handle@),
            },
            event is Close || event is Ended ==> !final(self)@.known(handle@),
    {
        match event {
            SocketEvent::Text(text) => SocketStep::Message(self.handle_app_message(handle, text.as_str())),
            SocketEvent::Other => SocketStep::Skip,
            _ => {
                let waiters = self.remove(handle);
                self.forget(handle);
                SocketStep::End(waiters)
            },
        }
    }
}

/// What is written to a connection.
pub enum WriteStep {
    /// This text frame.
    Write(String),
    /// A close frame, and nothing after it.
    Finish,
}

/// What comes of an outbound message. The messages of a connection are written in order, until one
/// closes it.
pub fn on_outbound(message: Outbound) -> (step: WriteStep)
    ensures
        match message@ {
            OutboundView::Frame(text) => step is Write && step->Write_0@ == text,
            OutboundView::Close => step is Finish,
        },
{
    match message {
        Outbound::Frame(text) => WriteStep::Write(text),
        Outbound::Close => WriteStep::Finish,
    }
}

} // verus!
