//! A prompt session: a prompt with selectable options, held until someone
//! selects one or the deadline passes.
//!
//! A session does no call itself. `Session::start` gives the first request;
//! the driver performs it and hands the reply to `Session::step`, which gives
//! the next request or the end of the session.

use crate::cursor::{advanced, lemma_advanced_push, UpdateCursor};
use crate::laws::lemma_step_keeps_order;
use crate::outcome::{Operation, SessionError, SessionOutcome};
use crate::payload::{decode_index, encode_index};
use crate::protocol::{
    choice_of, drain_request, expire, first_response, initial, keyboard, lemma_first_response,
    lemma_first_response_at, lemma_run_split, poll_on, run, step, well_formed, PhaseView,
    PromptView, Run, SessionView, StepView, EXPIRED_NOTE, PRESSED_NOTE,
};
use crate::text::{text_view, texts_view};
use crate::transport::{
    buttons_view, events_view, ids_of, replies_view, requests_view, Button, Event, EventKind,
    PublishedMessage, Reply, Request,
};
use vstd::prelude::*;
use vstd::string::StringExecFns;

verus! {

/// What to ask: a text, and the options to choose from, in order.
#[derive(Debug, PartialEq, Eq)]
pub struct Prompt {
    pub text: String,
    pub options: Vec<String>,
}

impl View for Prompt {
    type V = PromptView;

    open spec fn view(&self) -> PromptView {
        PromptView { text: self.text@, options: texts_view(self.options@) }
    }
}

impl Prompt {
    /// One control per option, in order: the label is the option, the
    /// payload its 0-based index in decimal.
    pub fn keyboard(&self) -> (buttons: Vec<Button>)
        ensures
            buttons_view(buttons@) == keyboard(self@.options),
    {
        let mut buttons: Vec<Button> = Vec::new();
        let mut i: usize = 0;
        while i < self.options.len()
            invariant
                0 <= i <= self.options.len(),
                buttons.len() == i,
                forall|j: int|
                    0 <= j < i ==> (#[trigger] buttons[j])@ == keyboard(self@.options)[j],
            decreases self.options.len() - i,
        {
            let button = Button { label: self.options[i].clone(), payload: encode_index(i) };
            buttons.push(button);
            i = i + 1;
        }
        buttons
    }
}

/// Where a session stands.
#[derive(Debug)]
enum Phase {
    Draining,
    Publishing,
    Awaiting { message: PublishedMessage, remaining_secs: u32, wait_secs: u32 },
    Expiring,
    Marking { choice: Option<usize>, offset: i64 },
    Acknowledging { choice: Option<usize> },
}

impl View for Phase {
    type V = PhaseView;

    closed spec fn view(&self) -> PhaseView {
        match *self {
            Phase::Draining => PhaseView::Draining,
            Phase::Publishing => PhaseView::Publishing,
            Phase::Awaiting { message, remaining_secs, wait_secs } => PhaseView::Awaiting {
                message,
                remaining_secs: remaining_secs as nat,
                wait_secs: wait_secs as nat,
            },
            Phase::Expiring => PhaseView::Expiring,
            Phase::Marking { choice, offset } => PhaseView::Marking {
                choice,
                offset: offset as int,
            },
            Phase::Acknowledging { choice } => PhaseView::Acknowledging { choice },
        }
    }
}

/// One run of the prompt protocol, between two calls.
#[derive(Debug)]
pub struct Session {
    chat: i64,
    prompt: Prompt,
    silent: bool,
    timeout_secs: u32,
    cursor: UpdateCursor,
    phase: Phase,
}

impl View for Session {
    type V = SessionView;

    closed spec fn view(&self) -> SessionView {
        SessionView {
            chat: self.chat as int,
            prompt: self.prompt@,
            silent: self.silent,
            timeout_secs: self.timeout_secs as nat,
            cursor: self.cursor@,
            phase: self.phase@,
        }
    }
}

/// What a reply led to.
#[derive(Debug)]
pub enum Step {
    /// The session goes on: perform the request and hand its reply to the
    /// session.
    Continue(Session, Request),
    /// The session is over.
    Finished(Result<SessionOutcome, SessionError>),
}

impl View for Step {
    type V = StepView;

    open spec fn view(&self) -> StepView {
        match *self {
            Step::Continue(session, request) => StepView::Continue(session@, request@),
            Step::Finished(end) => StepView::Finished(end),
        }
    }
}

/// Moves `cursor` past every event of a batch.
fn observe_events(cursor: &mut UpdateCursor, events: &Vec<Event>)
    ensures
        final(cursor)@ == advanced(old(cursor)@, ids_of(events_view(events@))),
{
    let ghost ids = ids_of(events_view(events@));
    let mut i: usize = 0;
    while i < events.len()
        invariant
            0 <= i <= events.len(),
            ids == ids_of(events_view(events@)),
            cursor@ == advanced(old(cursor)@, ids.take(i as int)),
        decreases events.len() - i,
    {
        proof {
            lemma_advanced_push(old(cursor)@, ids.take(i as int), ids[i as int]);
            assert(ids.take(i as int).push(ids[i as int]) =~= ids.take(i + 1));
        }
        let _ = cursor.advance_past(events[i].id);
        i = i + 1;
    }
    assert(ids.take(i as int) =~= ids);
}

/// The position of the first response event of a batch, if it has one.
fn find_response(events: &Vec<Event>) -> (found: Option<usize>)
    ensures
        match found {
            Some(i) => first_response(events_view(events@)) == Some(i as int) && i < events.len(),
            None => first_response(events_view(events@)) is None,
        },
{
    let ghost views = events_view(events@);
    let mut i: usize = 0;
    while i < events.len()
        invariant
            0 <= i <= events.len(),
            views == events_view(events@),
            forall|j: int| 0 <= j < i ==> !(#[trigger] views[j]).response,
        decreases events.len() - i,
    {
        match events[i].kind {
            EventKind::Response => {
                proof {
                    lemma_first_response_at(views, i as int);
                }
                return Some(i);
            },
            EventKind::Other => {},
        }
        i = i + 1;
    }
    proof {
        lemma_first_response(views);
    }
    None
}

/// The option that a payload selects among `count` options.
fn choose_option(payload: &Option<String>, count: usize) -> (choice: Option<usize>)
    ensures
        choice == choice_of(text_view(*payload), count as nat),
{
    match payload {
        Some(text) => match decode_index(text.as_str()) {
            Some(index) => if index < count {
                Some(index)
            } else {
                None
            },
            None => None,
        },
        None => None,
    }
}

impl Session {
    /// Every session is well formed, whatever replies it was handed.
    #[verifier::type_invariant]
    spec fn fits(self) -> bool {
        well_formed(self@)
    }

    /// Opens a session for `prompt` in the conversation `chat`, to wait up
    /// to `timeout_secs` seconds for a response.
    ///
    /// The first request is always the poll that clears the queue: it asks
    /// for everything queued and does not wait.
    pub fn start(chat: i64, prompt: Prompt, silent: bool, timeout_secs: u32) -> (begun: (
        Session,
        Request,
    ))
        ensures
            begun.0@ == initial(chat as int, prompt@, silent, timeout_secs as nat),
            begun.1@ == drain_request(),
            well_formed(begun.0@),
    {
        let session = Session {
            chat,
            prompt,
            silent,
            timeout_secs,
            cursor: UpdateCursor::new(),
            phase: Phase::Draining,
        };
        (session, Request::PollResponses { offset: None, wait_secs: 0 })
    }

    /// The offset that the next poll of this session asks from, once the
    /// session has observed an update.
    pub fn offset(&self) -> (offset: Option<i64>)
        ensures
            match offset {
                Some(next) => self@.cursor == Some(next as int),
                None => self@.cursor is None,
            },
    {
        self.cursor.current()
    }

    /// Takes the reply to the request that the session waits on, and gives
    /// what follows: the next request, or the end of the session.
    pub fn step(self, reply: Reply) -> (next: Step)
        ensures
            next@ == step(self@, reply@),
            next matches Step::Continue(session, _) ==> well_formed(session@),
    {
        proof {
            use_type_invariant(&self);
            lemma_step_keeps_order(self@, reply@);
        }
        let Session { chat, prompt, silent, timeout_secs, cursor, phase } = self;
        match phase {
            Phase::Draining => match reply {
                Reply::Events { events, elapsed_secs: _ } => {
                    let mut cursor = cursor;
                    observe_events(&mut cursor, &events);
                    let request = Request::SendPrompt {
                        chat,
                        text: prompt.text.clone(),
                        buttons: prompt.keyboard(),
                        silent,
                    };
                    let phase = Phase::Publishing;
                    Step::Continue(
                        Session { chat, prompt, silent, timeout_secs, cursor, phase },
                        request,
                    )
                },
                _ => Step::Finished(Err(SessionError::Transport(Operation::Drain))),
            },
            Phase::Publishing => match reply {
                Reply::Published(message) => {
                    let request = Request::PollResponses {
                        offset: cursor.current(),
                        wait_secs: timeout_secs,
                    };
                    let phase = Phase::Awaiting {
                        message,
                        remaining_secs: timeout_secs,
                        wait_secs: timeout_secs,
                    };
                    Step::Continue(
                        Session { chat, prompt, silent, timeout_secs, cursor, phase },
                        request,
                    )
                },
                _ => Step::Finished(Err(SessionError::Transport(Operation::Publish))),
            },
            Phase::Awaiting { message, remaining_secs, wait_secs } => match reply {
                Reply::Events { events, elapsed_secs } => match find_response(&events) {
                    Some(i) => {
                        let mut cursor = cursor;
                        let choice = choose_option(&events[i].payload, prompt.options.len());
                        let offset = cursor.advance_past(events[i].id);
                        let request = Request::EditText {
                            message,
                            text: prompt.text.clone().concat(PRESSED_NOTE),
                        };
                        let phase = Phase::Marking { choice, offset };
                        Step::Continue(
                            Session { chat, prompt, silent, timeout_secs, cursor, phase },
                            request,
                        )
                    },
                    None => {
                        let mut cursor = cursor;
                        observe_events(&mut cursor, &events);
                        let phase = Phase::Awaiting { message, remaining_secs, wait_secs };
                        let waiting = Session { chat, prompt, silent, timeout_secs, cursor, phase };
                        if elapsed_secs < remaining_secs {
                            let left: u32 = remaining_secs - elapsed_secs;
                            waiting.poll_on(message, left, left)
                        } else {
                            waiting.expire(message)
                        }
                    },
                },
                Reply::ConnectionTimeout { elapsed_secs } => {
                    let phase = Phase::Awaiting { message, remaining_secs, wait_secs };
                    let waiting = Session { chat, prompt, silent, timeout_secs, cursor, phase };
                    if elapsed_secs < remaining_secs {
                        waiting.poll_on(message, remaining_secs - elapsed_secs, wait_secs)
                    } else {
                        waiting.expire(message)
                    }
                },
                _ => Step::Finished(Err(SessionError::Transport(Operation::Await))),
            },
            Phase::Expiring => match reply {
                Reply::Done => Step::Finished(Ok(SessionOutcome::TimedOut)),
                _ => Step::Finished(Err(SessionError::Transport(Operation::Edit))),
            },
            Phase::Marking { choice, offset } => match reply {
                Reply::Done => {
                    let phase = Phase::Acknowledging { choice };
                    Step::Continue(
                        Session { chat, prompt, silent, timeout_secs, cursor, phase },
                        Request::Acknowledge { below: offset },
                    )
                },
                _ => Step::Finished(Err(SessionError::Transport(Operation::Edit))),
            },
            Phase::Acknowledging { choice } => match reply {
                Reply::Done => match choice {
                    Some(index) => Step::Finished(Ok(SessionOutcome::Selected(index))),
                    None => Step::Finished(Err(SessionError::ProtocolViolation)),
                },
                _ => Step::Finished(Err(SessionError::Transport(Operation::Acknowledge))),
            },
        }
    }

    /// Goes on waiting: asks for response events from the cursor on, for
    /// `wait_secs` seconds, with `remaining_secs` left until the deadline.
    fn poll_on(self, message: PublishedMessage, remaining_secs: u32, wait_secs: u32) -> (next:
        Step)
        ensures
            next@ == poll_on(self@, message, remaining_secs as nat, wait_secs as nat),
    {
        let Session { chat, prompt, silent, timeout_secs, cursor, phase: _ } = self;
        let request = Request::PollResponses { offset: cursor.current(), wait_secs };
        let phase = Phase::Awaiting { message, remaining_secs, wait_secs };
        Step::Continue(Session { chat, prompt, silent, timeout_secs, cursor, phase }, request)
    }

    /// Marks the prompt as expired.
    fn expire(self, message: PublishedMessage) -> (next: Step)
        ensures
            next@ == expire(self@, message),
    {
        let Session { chat, prompt, silent, timeout_secs, cursor, phase: _ } = self;
        let request = Request::EditText {
            message,
            text: prompt.text.clone().concat(EXPIRED_NOTE),
        };
        let phase = Phase::Expiring;
        Step::Continue(Session { chat, prompt, silent, timeout_secs, cursor, phase }, request)
    }
}

/// What a run came to: the requests it asked for, in order, and how it
/// ended, if it did.
#[derive(Debug, PartialEq, Eq)]
pub struct Trace {
    pub requests: Vec<Request>,
    pub end: Option<Result<SessionOutcome, SessionError>>,
}

impl View for Trace {
    type V = Run;

    open spec fn view(&self) -> Run {
        Run { requests: requests_view(self.requests@), end: self.end }
    }
}

/// Runs `session` on replies that are known beforehand, as a driver would
/// that got these replies from the service: the first reply answers the
/// request that the session waits on, each later one the request that the
/// reply before it led to. Replies after the end of the session are not
/// looked at.
pub fn replay(session: Session, replies: Vec<Reply>) -> (trace: Trace)
    ensures
        trace@ == run(session@, replies_view(replies@)),
{
    let ghost start = session@;
    let ghost all = replies_view(replies@);
    let mut current = session;
    let mut requests: Vec<Request> = Vec::new();
    proof {
        assert(all.skip(0) =~= all);
        assert(requests_view(requests@) + run(start, all).requests =~= run(start, all).requests);
    }
    for reply in pending: replies
        invariant
            start == session@,
            all == replies_view(replies@),
            pending.seq() == replies@,
            run(start, all).end == run(current@, all.skip(pending.index() as int)).end,
            run(start, all).requests == requests_view(requests@) + run(
                current@,
                all.skip(pending.index() as int),
            ).requests,
    {
        proof {
            let rest = all.skip(pending.index() as int);
            assert(rest =~= seq![reply@] + all.skip(pending.index() + 1));
            lemma_run_split(current@, reply@, all.skip(pending.index() + 1));
        }
        match current.step(reply) {
            Step::Finished(end) => {
                return Trace { requests, end: Some(end) };
            },
            Step::Continue(next, request) => {
                requests.push(request);
                current = next;
            },
        }
    }
    Trace { requests, end: None }
}

} // verus!
