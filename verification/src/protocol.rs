//! The prompt protocol as a transition system over mathematical values.
//!
//! A session asks for one call at a time. Each reply moves it on: to the next
//! call, or to its end. The order is fixed: clear the queue, send the prompt,
//! wait for a response, then mark the prompt as pressed or expired and, after
//! a press, confirm the response.

use crate::cursor::{advanced, moved_past};
use crate::outcome::{Operation, SessionError, SessionOutcome};
use crate::payload::{decimal, parse_decimal};
use crate::transport::{
    ids_of, ButtonView, EventView, PublishedMessage, ReplyView, RequestView,
};
use vstd::prelude::*;

verus! {

/// What is appended to the prompt once a control has been selected.
pub const PRESSED_NOTE: &'static str = "\n\n(pressed)";

/// What is appended to the prompt once the deadline has passed.
pub const EXPIRED_NOTE: &'static str = "\n\n(expired)";

/// A prompt as a mathematical value: its text and the labels of its options,
/// in order.
pub struct PromptView {
    pub text: Seq<char>,
    pub options: Seq<Seq<char>>,
}

/// Where a session stands: the call it has asked for and not yet heard of.
pub enum PhaseView {
    /// The poll that clears the queue.
    Draining,
    /// Sending the prompt.
    Publishing,
    /// The long poll: the seconds it was asked to wait, and the seconds left
    /// until the deadline when it was sent.
    Awaiting { message: PublishedMessage, remaining_secs: nat, wait_secs: nat },
    /// The edit that marks the prompt as expired.
    Expiring,
    /// The edit that marks the prompt as pressed. `choice` is the index that
    /// the response carried, if it carried one; `offset` is where the cursor
    /// stands, just past the response.
    Marking { choice: Option<usize>, offset: int },
    /// Confirming the response.
    Acknowledging { choice: Option<usize> },
}

/// A session as a mathematical value.
pub struct SessionView {
    pub chat: int,
    pub prompt: PromptView,
    pub silent: bool,
    pub timeout_secs: nat,
    pub cursor: Option<int>,
    pub phase: PhaseView,
}

/// What a reply leads to: the session goes on with another request, or ends.
pub enum StepView {
    Continue(SessionView, RequestView),
    Finished(Result<SessionOutcome, SessionError>),
}

/// One control per option, in order: the label is the option, the payload
/// its 0-based index in decimal.
pub open spec fn keyboard(options: Seq<Seq<char>>) -> Seq<ButtonView> {
    Seq::new(options.len(), |i: int| ButtonView { label: options[i], payload: decimal(i as nat) })
}

/// The position of the first response event of a batch, if it has one.
pub open spec fn first_response(events: Seq<EventView>) -> Option<int>
    decreases events.len(),
{
    if events.len() == 0 {
        None
    } else if events[0].response {
        Some(0)
    } else {
        match first_response(events.drop_first()) {
            Some(i) => Some(i + 1),
            None => None,
        }
    }
}

/// The option that a payload selects among `count` options: the index it
/// denotes, if it denotes one below `count`.
pub open spec fn choice_of(payload: Option<Seq<char>>, count: nat) -> Option<usize> {
    match payload {
        Some(text) => match parse_decimal(text) {
            Some(index) => if index < count && index <= usize::MAX {
                Some(index as usize)
            } else {
                None
            },
            None => None,
        },
        None => None,
    }
}

/// How a session ends once its response has been confirmed.
pub open spec fn conclusion(choice: Option<usize>) -> Result<SessionOutcome, SessionError> {
    match choice {
        Some(index) => Ok(SessionOutcome::Selected(index)),
        None => Err(SessionError::ProtocolViolation),
    }
}

/// The text of a prompt that was acted upon.
pub open spec fn pressed_text(text: Seq<char>) -> Seq<char> {
    text + PRESSED_NOTE@
}

/// The text of a prompt that expired.
pub open spec fn expired_text(text: Seq<char>) -> Seq<char> {
    text + EXPIRED_NOTE@
}

/// Whether the parts of a session fit together: while the prompt is being
/// marked as pressed, the offset to confirm is where the cursor stands.
pub open spec fn well_formed(s: SessionView) -> bool {
    s.phase matches PhaseView::Marking { offset, .. } ==> s.cursor == Some(offset)
}

/// A session that has done nothing yet.
pub open spec fn initial(
    chat: int,
    prompt: PromptView,
    silent: bool,
    timeout_secs: nat,
) -> SessionView {
    SessionView { chat, prompt, silent, timeout_secs, cursor: None, phase: PhaseView::Draining }
}

/// The first request of every session: everything queued, without waiting.
pub open spec fn drain_request() -> RequestView {
    RequestView::PollResponses { offset: None, wait_secs: 0 }
}

/// The end of a session whose call `operation` failed.
pub open spec fn failed(operation: Operation) -> StepView {
    StepView::Finished(Err(SessionError::Transport(operation)))
}

/// After the queue was polled: stale events move the cursor past the highest
/// of them, and the prompt is sent. Any failure ends the session.
pub open spec fn after_drain(s: SessionView, reply: ReplyView) -> StepView {
    match reply {
        ReplyView::Events { events, elapsed_secs } => StepView::Continue(
            SessionView {
                cursor: advanced(s.cursor, ids_of(events)),
                phase: PhaseView::Publishing,
                ..s
            },
            RequestView::SendPrompt {
                chat: s.chat,
                text: s.prompt.text,
                buttons: keyboard(s.prompt.options),
                silent: s.silent,
            },
        ),
        _ => failed(Operation::Drain),
    }
}

/// After the prompt was sent: the long poll starts with the whole timeout
/// ahead of it.
pub open spec fn after_publish(s: SessionView, reply: ReplyView) -> StepView {
    match reply {
        ReplyView::Published(message) => StepView::Continue(
            SessionView {
                phase: PhaseView::Awaiting {
                    message,
                    remaining_secs: s.timeout_secs,
                    wait_secs: s.timeout_secs,
                },
                ..s
            },
            RequestView::PollResponses { offset: s.cursor, wait_secs: s.timeout_secs },
        ),
        _ => failed(Operation::Publish),
    }
}

/// The session goes on waiting: it asks for response events from its cursor
/// on, for `wait_secs` seconds, with `remaining_secs` left until the
/// deadline.
pub open spec fn poll_on(
    s: SessionView,
    message: PublishedMessage,
    remaining_secs: nat,
    wait_secs: nat,
) -> StepView {
    StepView::Continue(
        SessionView { phase: PhaseView::Awaiting { message, remaining_secs, wait_secs }, ..s },
        RequestView::PollResponses { offset: s.cursor, wait_secs },
    )
}

/// The deadline has passed: the prompt is marked as expired.
pub open spec fn expire(s: SessionView, message: PublishedMessage) -> StepView {
    StepView::Continue(
        SessionView { phase: PhaseView::Expiring, ..s },
        RequestView::EditText { message, text: expired_text(s.prompt.text) },
    )
}

/// A poll that came back without a response after `elapsed_secs` seconds:
/// while the deadline lies ahead a new poll is asked for the time that is
/// left, else the prompt is marked as expired.
pub open spec fn wait_on(
    s: SessionView,
    message: PublishedMessage,
    remaining_secs: nat,
    elapsed_secs: nat,
) -> StepView {
    if elapsed_secs < remaining_secs {
        let left = (remaining_secs - elapsed_secs) as nat;
        poll_on(s, message, left, left)
    } else {
        expire(s, message)
    }
}

/// A poll that timed out on the connection after `elapsed_secs` seconds:
/// while the deadline lies ahead the poll that timed out is asked again as
/// it was, from the same offset and for the same `wait_secs`; only the time
/// left until the deadline goes down. Else the prompt is marked as expired.
pub open spec fn retry(
    s: SessionView,
    message: PublishedMessage,
    remaining_secs: nat,
    wait_secs: nat,
    elapsed_secs: nat,
) -> StepView {
    if elapsed_secs < remaining_secs {
        poll_on(s, message, (remaining_secs - elapsed_secs) as nat, wait_secs)
    } else {
        expire(s, message)
    }
}

/// The first response event of a batch was found: the cursor moves past it
/// and the prompt is marked as pressed.
pub open spec fn press(s: SessionView, message: PublishedMessage, event: EventView) -> StepView {
    let offset = moved_past(s.cursor, event.id);
    StepView::Continue(
        SessionView {
            cursor: Some(offset),
            phase: PhaseView::Marking {
                choice: choice_of(event.payload, s.prompt.options.len()),
                offset,
            },
            ..s
        },
        RequestView::EditText { message, text: pressed_text(s.prompt.text) },
    )
}

/// After a long poll. The first response event among those returned is the
/// answer. A batch without one is observed and waited on. A connection
/// timeout observes nothing and has the same poll asked again. Any other
/// failure ends the session.
pub open spec fn after_poll(
    s: SessionView,
    message: PublishedMessage,
    remaining_secs: nat,
    wait_secs: nat,
    reply: ReplyView,
) -> StepView {
    match reply {
        ReplyView::Events { events, elapsed_secs } => match first_response(events) {
            Some(i) => press(s, message, events[i]),
            None => wait_on(
                SessionView { cursor: advanced(s.cursor, ids_of(events)), ..s },
                message,
                remaining_secs,
                elapsed_secs,
            ),
        },
        ReplyView::ConnectionTimeout { elapsed_secs } => retry(
            s,
            message,
            remaining_secs,
            wait_secs,
            elapsed_secs,
        ),
        _ => failed(Operation::Await),
    }
}

/// After the edit that marks the prompt as expired: the session has timed
/// out.
pub open spec fn after_expiry_edit(reply: ReplyView) -> StepView {
    match reply {
        ReplyView::Done => StepView::Finished(Ok(SessionOutcome::TimedOut)),
        _ => failed(Operation::Edit),
    }
}

/// After the edit that marks the prompt as pressed: the response is
/// confirmed, together with everything at or below its identifier.
pub open spec fn after_press_edit(
    s: SessionView,
    choice: Option<usize>,
    offset: int,
    reply: ReplyView,
) -> StepView {
    match reply {
        ReplyView::Done => StepView::Continue(
            SessionView { phase: PhaseView::Acknowledging { choice }, ..s },
            RequestView::Acknowledge { below: offset },
        ),
        _ => failed(Operation::Edit),
    }
}

/// After the response was confirmed: the session ends with the choice.
pub open spec fn after_acknowledge(choice: Option<usize>, reply: ReplyView) -> StepView {
    match reply {
        ReplyView::Done => StepView::Finished(conclusion(choice)),
        _ => failed(Operation::Acknowledge),
    }
}

/// What `reply`, as the answer to the request that `s` waits on, leads to.
/// A reply that does not answer that request counts as its failure.
pub open spec fn step(s: SessionView, reply: ReplyView) -> StepView {
    match s.phase {
        PhaseView::Draining => after_drain(s, reply),
        PhaseView::Publishing => after_publish(s, reply),
        PhaseView::Awaiting { message, remaining_secs, wait_secs } => after_poll(
            s,
            message,
            remaining_secs,
            wait_secs,
            reply,
        ),
        PhaseView::Expiring => after_expiry_edit(reply),
        PhaseView::Marking { choice, offset } => after_press_edit(s, choice, offset, reply),
        PhaseView::Acknowledging { choice } => after_acknowledge(choice, reply),
    }
}

/// What a run amounts to: the requests it asked for, in order, and how it
/// ended, if the replies took it to its end.
pub struct Run {
    pub requests: Seq<RequestView>,
    pub end: Option<Result<SessionOutcome, SessionError>>,
}

/// The run of session `s` on `replies`: the first reply answers the request
/// that `s` waits on, each later one the request that the reply before it
/// led to. Replies after the end of the session are not looked at.
pub open spec fn run(s: SessionView, replies: Seq<ReplyView>) -> Run
    decreases replies.len(),
{
    if replies.len() == 0 {
        Run { requests: Seq::empty(), end: None }
    } else {
        match step(s, replies[0]) {
            StepView::Finished(end) => Run { requests: Seq::empty(), end: Some(end) },
            StepView::Continue(next, request) => {
                let rest = run(next, replies.drop_first());
                Run { requests: seq![request] + rest.requests, end: rest.end }
            },
        }
    }
}

/// `first_response` is the least position that holds a response event.
pub proof fn lemma_first_response(events: Seq<EventView>)
    ensures
        match first_response(events) {
            Some(i) => 0 <= i < events.len() && events[i].response && forall|j: int|
                0 <= j < i ==> !(#[trigger] events[j]).response,
            None => forall|j: int| 0 <= j < events.len() ==> !(#[trigger] events[j]).response,
        },
    decreases events.len(),
{
    if events.len() > 0 && !events[0].response {
        let rest = events.drop_first();
        lemma_first_response(rest);
        match first_response(rest) {
            Some(i) => {
                assert forall|j: int| 0 <= j < i + 1 implies !(#[trigger] events[j]).response by {
                    if j > 0 {
                        assert(events[j] == rest[j - 1]);
                    }
                }
            },
            None => {
                assert forall|j: int| 0 <= j < events.len() implies !(#[trigger] events[j])
                    .response by {
                    if j > 0 {
                        assert(events[j] == rest[j - 1]);
                    }
                }
            },
        }
    }
}

/// A position that holds a response event, with none before it, is the one
/// that `first_response` gives.
pub proof fn lemma_first_response_at(events: Seq<EventView>, i: int)
    requires
        0 <= i < events.len(),
        events[i].response,
        forall|j: int| 0 <= j < i ==> !(#[trigger] events[j]).response,
    ensures
        first_response(events) == Some(i),
{
    lemma_first_response(events);
}

/// A run of one reply.
pub proof fn lemma_run_one(s: SessionView, reply: ReplyView)
    ensures
        run(s, seq![reply]) == match step(s, reply) {
            StepView::Finished(end) => Run { requests: Seq::empty(), end: Some(end) },
            StepView::Continue(next, request) => Run { requests: seq![request], end: None },
        },
{
    let replies = seq![reply];
    match step(s, reply) {
        StepView::Finished(end) => {},
        StepView::Continue(next, request) => {
            assert(run(next, replies.drop_first()).requests =~= Seq::<RequestView>::empty());
        },
    }
}

/// A run that goes on after its first reply is that first step followed by
/// the run of the session it led to.
pub proof fn lemma_run_split(s: SessionView, first: ReplyView, rest: Seq<ReplyView>)
    ensures
        run(s, seq![first] + rest) == match step(s, first) {
            StepView::Finished(end) => Run { requests: Seq::empty(), end: Some(end) },
            StepView::Continue(next, request) => Run {
                requests: seq![request] + run(next, rest).requests,
                end: run(next, rest).end,
            },
        },
{
    let replies = seq![first] + rest;
    assert(replies.drop_first() =~= rest);
}

} // verus!
