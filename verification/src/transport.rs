//! What passes between a prompt session and the messaging service: the
//! requests a session asks to have carried out, and the replies it is told.
//!
//! Nothing here talks to a network. Whoever drives a session performs each
//! request and reports what came of it.

use crate::text::text_view;
use vstd::prelude::*;

verus! {

/// The kind of an event: a response event (a user selected a control of a
/// prompt), or anything else the service may deliver.
#[derive(Clone, Copy, Debug, PartialEq, Eq, Structural)]
pub enum EventKind {
    Response,
    Other,
}

/// One event delivered by the service.
#[derive(Debug, PartialEq, Eq)]
pub struct Event {
    /// The update identifier.
    pub id: i32,
    pub kind: EventKind,
    /// What the selected control carried, if the event has any payload.
    pub payload: Option<String>,
}

/// An event as a mathematical value.
pub struct EventView {
    pub id: int,
    pub response: bool,
    pub payload: Option<Seq<char>>,
}

impl View for Event {
    type V = EventView;

    open spec fn view(&self) -> EventView {
        EventView {
            id: self.id as int,
            response: self.kind is Response,
            payload: text_view(self.payload),
        }
    }
}

/// The views of a batch of events, in order.
pub open spec fn events_view(events: Seq<Event>) -> Seq<EventView> {
    events.map_values(|event: Event| event@)
}

/// The identifiers of a batch of events, in order.
pub open spec fn ids_of(events: Seq<EventView>) -> Seq<int> {
    events.map_values(|event: EventView| event.id)
}

/// A message as the service knows it once it has been sent: what is needed
/// to edit that message later.
#[derive(Clone, Copy, Debug, PartialEq, Eq, Structural)]
pub struct PublishedMessage {
    pub message_id: i32,
    pub chat_id: i64,
}

/// One selectable control of a prompt.
#[derive(Debug, PartialEq, Eq)]
pub struct Button {
    /// The visible text.
    pub label: String,
    /// What the service hands back when the control is selected.
    pub payload: String,
}

/// A control as a mathematical value.
pub struct ButtonView {
    pub label: Seq<char>,
    pub payload: Seq<char>,
}

impl View for Button {
    type V = ButtonView;

    open spec fn view(&self) -> ButtonView {
        ButtonView { label: self.label@, payload: self.payload@ }
    }
}

/// The views of a row of controls, in order.
pub open spec fn buttons_view(buttons: Seq<Button>) -> Seq<ButtonView> {
    buttons.map_values(|button: Button| button@)
}

/// A call that a session asks its driver to make.
#[derive(Debug, PartialEq, Eq)]
pub enum Request {
    /// Ask for response events from `offset` on (everything queued when the
    /// offset is undefined), waiting up to `wait_secs` seconds for one.
    PollResponses { offset: Option<i64>, wait_secs: u32 },
    /// Send the prompt text with one control per button, in order.
    SendPrompt { chat: i64, text: String, buttons: Vec<Button>, silent: bool },
    /// Replace the text of a published message.
    EditText { message: PublishedMessage, text: String },
    /// Confirm every update below `below`: a poll at that offset that does
    /// not wait and whose events are dropped.
    Acknowledge { below: i64 },
}

/// A request as a mathematical value.
pub enum RequestView {
    PollResponses { offset: Option<int>, wait_secs: nat },
    SendPrompt { chat: int, text: Seq<char>, buttons: Seq<ButtonView>, silent: bool },
    EditText { message: PublishedMessage, text: Seq<char> },
    Acknowledge { below: int },
}

impl View for Request {
    type V = RequestView;

    open spec fn view(&self) -> RequestView {
        match *self {
            Request::PollResponses { offset, wait_secs } => RequestView::PollResponses {
                offset: match offset {
                    Some(next) => Some(next as int),
                    None => None,
                },
                wait_secs: wait_secs as nat,
            },
            Request::SendPrompt { chat, text, buttons, silent } => RequestView::SendPrompt {
                chat: chat as int,
                text: text@,
                buttons: buttons_view(buttons@),
                silent,
            },
            Request::EditText { message, text } => RequestView::EditText { message, text: text@ },
            Request::Acknowledge { below } => RequestView::Acknowledge { below: below as int },
        }
    }
}

/// The views of a row of requests, in order.
pub open spec fn requests_view(requests: Seq<Request>) -> Seq<RequestView> {
    requests.map_values(|request: Request| request@)
}

/// What came of a request.
#[derive(Debug, PartialEq, Eq)]
pub enum Reply {
    /// A poll returned these events (possibly none) after `elapsed_secs`
    /// seconds.
    Events { events: Vec<Event>, elapsed_secs: u32 },
    /// The prompt was sent and is now this message.
    Published(PublishedMessage),
    /// An edit or an acknowledgment went through.
    Done,
    /// The connection timed out after `elapsed_secs` seconds: the call
    /// itself gave up, which says nothing about whether events exist.
    ConnectionTimeout { elapsed_secs: u32 },
    /// The call failed for any other reason.
    Failed,
}

/// A reply as a mathematical value.
pub enum ReplyView {
    Events { events: Seq<EventView>, elapsed_secs: nat },
    Published(PublishedMessage),
    Done,
    ConnectionTimeout { elapsed_secs: nat },
    Failed,
}

impl View for Reply {
    type V = ReplyView;

    open spec fn view(&self) -> ReplyView {
        match *self {
            Reply::Events { events, elapsed_secs } => ReplyView::Events {
                events: events_view(events@),
                elapsed_secs: elapsed_secs as nat,
            },
            Reply::Published(message) => ReplyView::Published(message),
            Reply::Done => ReplyView::Done,
            Reply::ConnectionTimeout { elapsed_secs } => ReplyView::ConnectionTimeout {
                elapsed_secs: elapsed_secs as nat,
            },
            Reply::Failed => ReplyView::Failed,
        }
    }
}

/// The seconds that a call counts for when it took `secs` whole seconds and
/// `subsec_nanos` nanoseconds more: a second that was begun counts in full,
/// and what is too long to tell counts as `u32::MAX`.
pub open spec fn counted_seconds(secs: nat, subsec_nanos: nat) -> nat {
    let begun = if subsec_nanos > 0 {
        secs + 1
    } else {
        secs
    };
    if begun > u32::MAX {
        u32::MAX as nat
    } else {
        begun
    }
}

/// The seconds to report for a call that took `secs` whole seconds and
/// `subsec_nanos` nanoseconds more. Rounding up makes every call that took
/// any time at all use up some of the wait.
pub fn elapsed_seconds(secs: u64, subsec_nanos: u32) -> (elapsed_secs: u32)
    ensures
        elapsed_secs == counted_seconds(secs as nat, subsec_nanos as nat),
{
    let limit: u64 = 0xffff_ffff;
    if secs >= limit {
        u32::MAX
    } else if subsec_nanos > 0 {
        (secs + 1) as u32
    } else {
        secs as u32
    }
}

/// The views of a row of replies, in order.
pub open spec fn replies_view(replies: Seq<Reply>) -> Seq<ReplyView> {
    replies.map_values(|reply: Reply| reply@)
}

} // verus!
