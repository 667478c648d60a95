//! What holds of every run of the prompt protocol.
//!
//! A run is a session together with the replies it is handed, one after the
//! other. The laws below speak of the requests such a run asks for and of
//! how it ends, whatever the service replies.

use crate::cursor::{
    advanced, at_or_before, excludes, lemma_advanced_excludes, lemma_past_all_is_highest,
    moved_past, past_all,
};
use crate::outcome::{SessionError, SessionOutcome};
use crate::payload::lemma_decimal_round_trip;
use crate::protocol::{
    choice_of, conclusion, expired_text, first_response, initial, keyboard, lemma_first_response,
    lemma_run_one, lemma_run_split, pressed_text, run, step, well_formed, PhaseView, PromptView,
    Run, SessionView, StepView,
};
use crate::transport::{ids_of, EventView, PublishedMessage, ReplyView, RequestView};
use vstd::prelude::*;

verus! {

/// The requests that the run of `s` on `replies` asks for, in order.
pub open spec fn asked(s: SessionView, replies: Seq<ReplyView>) -> Seq<RequestView> {
    run(s, replies).requests
}

/// How the run of `s` on `replies` ends, if it does.
pub open spec fn ended(
    s: SessionView,
    replies: Seq<ReplyView>,
) -> Option<Result<SessionOutcome, SessionError>> {
    run(s, replies).end
}

/// Whether the run of `s` on `replies` ends timed out.
pub open spec fn times_out(s: SessionView, replies: Seq<ReplyView>) -> bool {
    ended(s, replies) == Some(Ok::<SessionOutcome, SessionError>(SessionOutcome::TimedOut))
}

/// Whether the run of `s` on `replies` ends with the selection of option `k`.
pub open spec fn selects(s: SessionView, replies: Seq<ReplyView>, k: nat) -> bool {
    ended(s, replies) == Some(
        Ok::<SessionOutcome, SessionError>(SessionOutcome::Selected(k as usize)),
    )
}

/// Whether the run of `s` on `replies` ends on a response: with a selection,
/// or with a response that selects nothing.
pub open spec fn ends_on_response(s: SessionView, replies: Seq<ReplyView>) -> bool {
    ended(s, replies) matches Some(Ok(SessionOutcome::Selected(_))) || ended(s, replies) == Some(
        Err::<SessionOutcome, SessionError>(SessionError::ProtocolViolation),
    )
}

/// Whether `request` leaves out the update `id`: a poll or an acknowledgment
/// does when its offset is greater than `id`; other requests ask for no
/// update at all.
pub open spec fn leaves_out(request: RequestView, id: int) -> bool {
    match request {
        RequestView::PollResponses { offset, .. } => excludes(offset, id),
        RequestView::Acknowledge { below } => id < below,
        _ => true,
    }
}

/// Whether a reply keeps to the offset of the poll it answers: it holds no
/// event that the offset leaves out.
pub open spec fn honours(reply: ReplyView, offset: Option<int>) -> bool {
    reply matches ReplyView::Events { events, .. } ==> forall|i: int|
        0 <= i < events.len() ==> !excludes(offset, (#[trigger] events[i]).id)
}

/// Whether a request is an acknowledgment.
pub open spec fn is_acknowledge(request: RequestView) -> bool {
    request is Acknowledge
}

/// Whether a request sends the prompt.
pub open spec fn is_send_prompt(request: RequestView) -> bool {
    request is SendPrompt
}

/// The request that sends the prompt of a session.
pub open spec fn send_prompt(chat: int, prompt: PromptView, silent: bool) -> RequestView {
    RequestView::SendPrompt {
        chat,
        text: prompt.text,
        buttons: keyboard(prompt.options),
        silent,
    }
}

/// The requests of a run that went on after its first reply: the request
/// that the first reply led to, then those of the rest of the run.
proof fn lemma_asked_after_step(s: SessionView, replies: Seq<ReplyView>)
    requires
        replies.len() > 0,
        step(s, replies[0]) is Continue,
    ensures
        asked(s, replies).len() == 1 + asked(
            step(s, replies[0])->Continue_0,
            replies.drop_first(),
        ).len(),
        asked(s, replies)[0] == step(s, replies[0])->Continue_1,
        forall|j: int|
            0 < j < asked(s, replies).len() ==> #[trigger] asked(s, replies)[j] == asked(
                step(s, replies[0])->Continue_0,
                replies.drop_first(),
            )[j - 1],
        ended(s, replies) == ended(step(s, replies[0])->Continue_0, replies.drop_first()),
{
}

/// Every step keeps a session well formed, leaves what it was opened with
/// as it is, and never moves its cursor back: what the cursor left out
/// before, the request and the cursor after the step leave out too.
pub proof fn lemma_step_keeps_order(s: SessionView, reply: ReplyView)
    requires
        well_formed(s),
    ensures
        step(s, reply) matches StepView::Continue(next, request) ==> {
            &&& well_formed(next)
            &&& next.chat == s.chat
            &&& next.prompt == s.prompt
            &&& next.silent == s.silent
            &&& next.timeout_secs == s.timeout_secs
            &&& at_or_before(s.cursor, next.cursor)
            &&& forall|id: int| excludes(s.cursor, id) ==> leaves_out(request, id)
            &&& forall|id: int| excludes(s.cursor, id) ==> excludes(next.cursor, id)
        },
{
    if let ReplyView::Events { events, elapsed_secs } = reply {
        lemma_advanced_excludes(s.cursor, ids_of(events));
        lemma_first_response(events);
    }
}

/// Drain correctness. Stale events that the first poll brings leave the
/// cursor at the highest of their identifiers plus one, and the prompt is
/// sent next.
pub proof fn lemma_drain_moves_cursor(
    chat: int,
    prompt: PromptView,
    silent: bool,
    timeout_secs: nat,
    stale: Seq<EventView>,
    elapsed_secs: nat,
)
    requires
        stale.len() > 0,
    ensures
        step(
            initial(chat, prompt, silent, timeout_secs),
            ReplyView::Events { events: stale, elapsed_secs },
        ) matches StepView::Continue(next, request) && {
            &&& next.cursor == past_all(ids_of(stale))
            &&& exists|i: int|
                0 <= i < stale.len() && next.cursor == Some(#[trigger] stale[i].id + 1)
            &&& forall|i: int|
                0 <= i < stale.len() ==> excludes(next.cursor, (#[trigger] stale[i]).id)
            &&& next.phase == PhaseView::Publishing
            &&& request == send_prompt(chat, prompt, silent)
        },
{
    let ids = ids_of(stale);
    lemma_past_all_is_highest(ids);
    let i = choose|i: int| 0 <= i < ids.len() && #[trigger] ids[i] + 1 == past_all(ids)->0;
    assert(past_all(ids) == Some(stale[i].id + 1));
    assert forall|j: int| 0 <= j < stale.len() implies excludes(
        past_all(ids),
        (#[trigger] stale[j]).id,
    ) by {
        assert(ids[j] == stale[j].id);
    }
}

/// No update is asked for twice. Once the cursor of a session leaves out an
/// update, every poll and every acknowledgment of the rest of its run leaves
/// it out too, whatever the replies.
pub proof fn lemma_run_leaves_out(s: SessionView, replies: Seq<ReplyView>, id: int)
    requires
        well_formed(s),
        excludes(s.cursor, id),
    ensures
        forall|j: int|
            0 <= j < asked(s, replies).len() ==> leaves_out(#[trigger] asked(s, replies)[j], id),
    decreases replies.len(),
{
    if replies.len() > 0 {
        lemma_step_keeps_order(s, replies[0]);
        if let StepView::Continue(next, request) = step(s, replies[0]) {
            lemma_run_leaves_out(next, replies.drop_first(), id);
            lemma_asked_after_step(s, replies);
        }
    }
}

/// Stale events never come back. After a drain that brought stale events,
/// every poll and every acknowledgment of the session leaves each of them
/// out, whatever the replies.
pub proof fn lemma_drained_run_leaves_out_stale(
    chat: int,
    prompt: PromptView,
    silent: bool,
    timeout_secs: nat,
    stale: Seq<EventView>,
    elapsed_secs: nat,
    replies: Seq<ReplyView>,
)
    ensures
        ({
            let start = initial(chat, prompt, silent, timeout_secs);
            let all = seq![ReplyView::Events { events: stale, elapsed_secs }] + replies;
            forall|i: int, j: int|
                0 <= i < stale.len() && 0 <= j < asked(start, all).len() ==> leaves_out(
                    #[trigger] asked(start, all)[j],
                    (#[trigger] stale[i]).id,
                )
        }),
{
    let start = initial(chat, prompt, silent, timeout_secs);
    let first = ReplyView::Events { events: stale, elapsed_secs };
    let all = seq![first] + replies;
    let drained = step(start, first)->Continue_0;
    assert(all.drop_first() =~= replies);
    lemma_asked_after_step(start, all);
    assert forall|i: int, j: int|
        0 <= i < stale.len() && 0 <= j < asked(start, all).len() implies leaves_out(
        #[trigger] asked(start, all)[j],
        (#[trigger] stale[i]).id,
    ) by {
        lemma_drain_moves_cursor(chat, prompt, silent, timeout_secs, stale, elapsed_secs);
        lemma_run_leaves_out(drained, replies, stale[i].id);
    }
}

/// Whether a session that is handed the batch `events` observes the update
/// `id`. A drain observes every event of its batch, and so does a long poll
/// that finds no response. A long poll that finds a response observes that
/// response and whatever is at or below its identifier; later events of the
/// batch stay queued.
pub open spec fn observes(s: SessionView, events: Seq<EventView>, id: int) -> bool {
    match first_response(events) {
        Some(i) if s.phase is Awaiting => id <= events[i].id,
        _ => (s.phase is Draining || s.phase is Awaiting) && exists|k: int|
            0 <= k < events.len() && #[trigger] events[k].id == id,
    }
}

/// No observed update is asked for again. Whatever a session observes in a
/// batch, every poll and every acknowledgment that follows leaves out,
/// whatever the replies.
pub proof fn lemma_observed_is_not_asked_again(
    s: SessionView,
    events: Seq<EventView>,
    elapsed_secs: nat,
    replies: Seq<ReplyView>,
    id: int,
)
    requires
        well_formed(s),
        observes(s, events, id),
    ensures
        ({
            let all = seq![ReplyView::Events { events, elapsed_secs }] + replies;
            forall|j: int|
                0 <= j < asked(s, all).len() ==> leaves_out(#[trigger] asked(s, all)[j], id)
        }),
{
    let first = ReplyView::Events { events, elapsed_secs };
    let all = seq![first] + replies;
    assert(all.drop_first() =~= replies);
    lemma_first_response(events);
    lemma_advanced_excludes(s.cursor, ids_of(events));
    lemma_step_keeps_order(s, first);
    if let StepView::Continue(next, request) = step(s, first) {
        if !(s.phase is Awaiting && first_response(events) is Some) {
            let k = choose|k: int| 0 <= k < events.len() && #[trigger] events[k].id == id;
            assert(ids_of(events)[k] == id);
        }
        lemma_asked_after_step(s, all);
        lemma_run_leaves_out(next, replies, id);
    }
}

/// The answer is never a stale event. When the long poll is answered within
/// its offset, the event that the session takes as the response is none
/// that its cursor had left out.
pub proof fn lemma_answer_is_fresh(s: SessionView, reply: ReplyView, id: int)
    requires
        s.phase is Awaiting,
        honours(reply, s.cursor),
        excludes(s.cursor, id),
    ensures
        reply matches ReplyView::Events { events, .. } ==> (first_response(events) matches Some(i)
            ==> events[i].id != id),
{
    if let ReplyView::Events { events, elapsed_secs } = reply {
        lemma_first_response(events);
    }
}

/// A session that is past its drain does not send its prompt again.
pub proof fn lemma_prompt_is_not_sent_again(s: SessionView, replies: Seq<ReplyView>)
    requires
        !(s.phase is Draining),
    ensures
        forall|j: int|
            0 <= j < asked(s, replies).len() ==> !is_send_prompt(#[trigger] asked(s, replies)[j]),
    decreases replies.len(),
{
    if replies.len() > 0 {
        if let StepView::Continue(next, request) = step(s, replies[0]) {
            lemma_prompt_is_not_sent_again(next, replies.drop_first());
            lemma_asked_after_step(s, replies);
        }
    }
}

/// Drain, then publish, then wait. The first request after the drain is the
/// prompt; it is asked for only once the drain has come back with events,
/// and never again. What follows it, once the prompt is published, is the
/// long poll for the whole timeout.
pub proof fn lemma_order_of_calls(
    chat: int,
    prompt: PromptView,
    silent: bool,
    timeout_secs: nat,
    replies: Seq<ReplyView>,
)
    ensures
        ({
            let requests = asked(initial(chat, prompt, silent, timeout_secs), replies);
            &&& requests.len() > 0 ==> replies.len() > 0 && replies[0] is Events && requests[0]
                == send_prompt(chat, prompt, silent)
            &&& requests.len() > 1 ==> replies.len() > 1 && replies[1] is Published
                && requests[1] is PollResponses && requests[1]->wait_secs == timeout_secs
            &&& forall|j: int|
                0 < j < requests.len() ==> !is_send_prompt(#[trigger] requests[j])
        }),
{
    let start = initial(chat, prompt, silent, timeout_secs);
    if replies.len() > 0 {
        if let StepView::Continue(drained, send) = step(start, replies[0]) {
            let after = replies.drop_first();
            lemma_asked_after_step(start, replies);
            lemma_prompt_is_not_sent_again(drained, after);
            if after.len() > 0 {
                if let StepView::Continue(waiting, poll) = step(drained, after[0]) {
                    lemma_asked_after_step(drained, after);
                }
            }
        }
    }
}

/// One acknowledgment covers everything at or below the response. When a
/// batch holds a response, the offset that is confirmed afterwards lies past
/// the first response of the batch and past every event of the batch whose
/// identifier is no higher.
pub proof fn lemma_press_covers(
    s: SessionView,
    events: Seq<EventView>,
    elapsed_secs: nat,
    i: int,
)
    requires
        s.phase is Awaiting,
        first_response(events) == Some(i),
    ensures
        0 <= i < events.len(),
        step(s, ReplyView::Events { events, elapsed_secs }) matches StepView::Continue(
            marking,
            edit,
        ) && {
            &&& edit is EditText
            &&& step(marking, ReplyView::Done) matches StepView::Continue(
                _,
                RequestView::Acknowledge { below },
            )
            &&& marking.cursor == Some(below)
            &&& forall|j: int|
                0 <= j < events.len() && (#[trigger] events[j]).id <= events[i].id
                    ==> events[j].id < below
        },
{
    lemma_first_response(events);
}

/// A session that waits for its acknowledgment asks for nothing more, and
/// does not end timed out.
proof fn lemma_nothing_after_acknowledgment(s: SessionView, replies: Seq<ReplyView>)
    requires
        s.phase is Acknowledging,
    ensures
        asked(s, replies).len() == 0,
        !times_out(s, replies),
{
}

/// At most one acknowledgment, and none before the edit. A run asks for at
/// most one acknowledgment; if it asks for one, that is its last request,
/// and the request right before it, if the run holds it, is the edit that
/// marks the prompt as pressed.
pub proof fn lemma_at_most_one_acknowledgment(s: SessionView, replies: Seq<ReplyView>)
    ensures
        forall|j: int|
            0 <= j < asked(s, replies).len() && is_acknowledge(#[trigger] asked(s, replies)[j])
                ==> {
                &&& j == asked(s, replies).len() - 1
                &&& j > 0 ==> asked(s, replies)[j - 1] is EditText
                &&& j == 0 ==> s.phase is Marking
            },
    decreases replies.len(),
{
    if replies.len() > 0 {
        if let StepView::Continue(next, request) = step(s, replies[0]) {
            let tail = replies.drop_first();
            lemma_at_most_one_acknowledgment(next, tail);
            lemma_asked_after_step(s, replies);
            if next.phase is Acknowledging {
                lemma_nothing_after_acknowledgment(next, tail);
            }
            assert forall|j: int|
                0 <= j < asked(s, replies).len() && is_acknowledge(
                    #[trigger] asked(s, replies)[j],
                ) implies {
                &&& j == asked(s, replies).len() - 1
                &&& j > 0 ==> asked(s, replies)[j - 1] is EditText
                &&& j == 0 ==> s.phase is Marking
            } by {
                if j > 0 {
                    assert(is_acknowledge(asked(next, tail)[j - 1]));
                }
            }
        }
    }
}

/// A timeout produces no acknowledgment. A run that ends timed out has asked
/// for no acknowledgment.
pub proof fn lemma_timed_out_without_acknowledgment(s: SessionView, replies: Seq<ReplyView>)
    requires
        times_out(s, replies),
    ensures
        forall|j: int|
            0 <= j < asked(s, replies).len() ==> !is_acknowledge(#[trigger] asked(s, replies)[j]),
    decreases replies.len(),
{
    if replies.len() > 0 {
        if let StepView::Continue(next, request) = step(s, replies[0]) {
            let tail = replies.drop_first();
            lemma_asked_after_step(s, replies);
            lemma_timed_out_without_acknowledgment(next, tail);
            if is_acknowledge(request) {
                lemma_nothing_after_acknowledgment(next, tail);
            }
        }
    }
}

/// Whether a request is an edit.
pub open spec fn is_edit(request: RequestView) -> bool {
    request is EditText
}

/// Whether a session has asked for the edit that marks its prompt.
pub open spec fn has_marked(s: SessionView) -> bool {
    s.phase is Expiring || s.phase is Marking || s.phase is Acknowledging
}

/// A session that has marked its prompt does not edit it again.
proof fn lemma_no_edit_after_mark(s: SessionView, replies: Seq<ReplyView>)
    requires
        has_marked(s),
    ensures
        forall|j: int|
            0 <= j < asked(s, replies).len() ==> !is_edit(#[trigger] asked(s, replies)[j]),
    decreases replies.len(),
{
    if replies.len() > 0 {
        if let StepView::Continue(next, request) = step(s, replies[0]) {
            lemma_no_edit_after_mark(next, replies.drop_first());
            lemma_asked_after_step(s, replies);
        }
    }
}

/// One terminal edit. A run edits at most once, and what it edits is the
/// message that was published: the edit of a waiting session names the
/// message that the session waits on.
pub proof fn lemma_at_most_one_edit(s: SessionView, replies: Seq<ReplyView>)
    ensures
        forall|j: int, k: int|
            0 <= j < asked(s, replies).len() && 0 <= k < asked(s, replies).len() && is_edit(
                #[trigger] asked(s, replies)[j],
            ) && is_edit(#[trigger] asked(s, replies)[k]) ==> j == k,
        s.phase is Awaiting ==> forall|j: int|
            0 <= j < asked(s, replies).len() && is_edit(#[trigger] asked(s, replies)[j])
                ==> asked(s, replies)[j]->message == s.phase->message,
    decreases replies.len(),
{
    if replies.len() > 0 {
        if let StepView::Continue(next, request) = step(s, replies[0]) {
            let tail = replies.drop_first();
            lemma_at_most_one_edit(next, tail);
            lemma_asked_after_step(s, replies);
            if has_marked(next) {
                lemma_no_edit_after_mark(next, tail);
            }
        }
    }
}

/// Every outcome shows in the prompt. A session that ends timed out has
/// marked its prompt as expired with its last request. A session that ends
/// with a selection, or with a response that selects nothing, has marked its
/// prompt as pressed and then asked for the acknowledgment, which is its
/// last request.
pub proof fn lemma_outcome_is_marked(s: SessionView, replies: Seq<ReplyView>)
    requires
        !has_marked(s),
    ensures
        times_out(s, replies) ==> {
            &&& asked(s, replies).len() >= 1
            &&& asked(s, replies).last() is EditText
            &&& asked(s, replies).last()->EditText_text == expired_text(s.prompt.text)
        },
        ends_on_response(s, replies) ==> {
            &&& asked(s, replies).len() >= 2
            &&& asked(s, replies)[asked(s, replies).len() - 2] is EditText
            &&& asked(s, replies)[asked(s, replies).len() - 2]->EditText_text == pressed_text(
                s.prompt.text,
            )
            &&& asked(s, replies).last() is Acknowledge
        },
    decreases replies.len(),
{
    if replies.len() > 0 {
        if let StepView::Continue(next, request) = step(s, replies[0]) {
            let tail = replies.drop_first();
            lemma_asked_after_step(s, replies);
            if has_marked(next) {
                lemma_marked_run(next, tail);
            } else {
                lemma_outcome_is_marked(next, tail);
            }
        }
    }
}

/// What follows the edit. After the edit that marks the prompt as expired
/// nothing more is asked for, and the session does not end with a
/// selection. After the edit that marks it as pressed at most the
/// acknowledgment is asked for, the session does not end timed out, and it
/// ends with a selection, or with a response that selects nothing, only
/// once the acknowledgment has been asked for.
proof fn lemma_marked_run(s: SessionView, replies: Seq<ReplyView>)
    requires
        s.phase is Expiring || s.phase is Marking,
    ensures
        s.phase is Expiring ==> asked(s, replies).len() == 0 && !ends_on_response(s, replies),
        s.phase is Marking ==> !times_out(s, replies),
        s.phase is Marking && ends_on_response(s, replies) ==> asked(s, replies).len() == 1
            && asked(s, replies)[0] is Acknowledge,
{
    if replies.len() > 0 {
        if let StepView::Continue(next, request) = step(s, replies[0]) {
            lemma_asked_after_step(s, replies);
            lemma_nothing_after_acknowledgment(next, replies.drop_first());
        }
    }
}

/// The deadline ends the wait. When the long poll returns without a
/// response, or times out on the connection, and no time is left, the
/// prompt is marked as expired; once that edit is through the session ends
/// timed out, with the edit as its only request.
pub proof fn lemma_deadline_expires(s: SessionView, reply: ReplyView)
    requires
        s.phase is Awaiting,
        match reply {
            ReplyView::Events { events, elapsed_secs } => first_response(events) is None
                && elapsed_secs >= s.phase->remaining_secs,
            ReplyView::ConnectionTimeout { elapsed_secs } => elapsed_secs
                >= s.phase->remaining_secs,
            _ => false,
        },
    ensures
        run(s, seq![reply, ReplyView::Done]) == (Run {
            requests: seq![
                RequestView::EditText {
                    message: s.phase->message,
                    text: expired_text(s.prompt.text),
                },
            ],
            end: Some(Ok(SessionOutcome::TimedOut)),
        }),
{
    assert(seq![reply, ReplyView::Done] =~= seq![reply] + seq![ReplyView::Done]);
    lemma_run_split(s, reply, seq![ReplyView::Done]);
    lemma_run_one(step(s, reply)->Continue_0, ReplyView::Done);
}

/// A press is carried through. When the long poll brings a batch whose
/// first response is at position `i`, the prompt is marked as pressed, the
/// response is confirmed, and the session ends with what the payload of that
/// response selects.
pub proof fn lemma_press_run(s: SessionView, events: Seq<EventView>, elapsed_secs: nat, i: int)
    requires
        s.phase is Awaiting,
        0 <= i < events.len(),
        first_response(events) == Some(i),
    ensures
        run(
            s,
            seq![ReplyView::Events { events, elapsed_secs }, ReplyView::Done, ReplyView::Done],
        ) == (Run {
            requests: seq![
                RequestView::EditText {
                    message: s.phase->message,
                    text: pressed_text(s.prompt.text),
                },
                RequestView::Acknowledge { below: moved_past(s.cursor, events[i].id) },
            ],
            end: Some(conclusion(choice_of(events[i].payload, s.prompt.options.len()))),
        }),
{
    let reply = ReplyView::Events { events, elapsed_secs };
    let done = ReplyView::Done;
    let edit = RequestView::EditText {
        message: s.phase->message,
        text: pressed_text(s.prompt.text),
    };
    let confirm = RequestView::Acknowledge { below: moved_past(s.cursor, events[i].id) };
    assert(seq![reply, done, done] =~= seq![reply] + seq![done, done]);
    lemma_run_split(s, reply, seq![done, done]);
    let marking = step(s, reply)->Continue_0;
    assert(seq![done, done] =~= seq![done] + seq![done]);
    lemma_run_split(marking, done, seq![done]);
    let confirming = step(marking, done)->Continue_0;
    lemma_run_one(confirming, done);
    assert(seq![edit] + (seq![confirm] + Seq::<RequestView>::empty()) =~= seq![edit, confirm]);
}

/// One acknowledgment, from the response's identifier plus one. When the
/// first response of a batch does not lie below the cursor, and the edit and
/// the acknowledgment go through, the session asks for the edit and then for
/// one acknowledgment from that response's identifier plus one. That single
/// call leaves out every event of the batch whose identifier is no higher.
///
/// A response below the cursor is confirmed at the cursor instead, which
/// never moves back; `lemma_press_run` covers it.
pub proof fn lemma_fresh_press_acknowledged(
    s: SessionView,
    events: Seq<EventView>,
    elapsed_secs: nat,
    i: int,
)
    requires
        s.phase is Awaiting,
        0 <= i < events.len(),
        first_response(events) == Some(i),
        !excludes(s.cursor, events[i].id),
    ensures
        run(
            s,
            seq![ReplyView::Events { events, elapsed_secs }, ReplyView::Done, ReplyView::Done],
        ) == (Run {
            requests: seq![
                RequestView::EditText {
                    message: s.phase->message,
                    text: pressed_text(s.prompt.text),
                },
                RequestView::Acknowledge { below: events[i].id + 1 },
            ],
            end: Some(conclusion(choice_of(events[i].payload, s.prompt.options.len()))),
        }),
        forall|j: int|
            0 <= j < events.len() && (#[trigger] events[j]).id <= events[i].id ==> leaves_out(
                RequestView::Acknowledge { below: events[i].id + 1 },
                events[j].id,
            ),
{
    lemma_press_run(s, events, elapsed_secs, i);
}

/// Index round trip. A press on the control of option `k` ends the session
/// with `Selected(k)`: when the first response of a batch carries the
/// payload of the `k`-th control of the keyboard, that is the outcome.
pub proof fn lemma_index_round_trip(
    s: SessionView,
    events: Seq<EventView>,
    elapsed_secs: nat,
    i: int,
    k: nat,
)
    requires
        s.phase is Awaiting,
        s.prompt.options.len() <= usize::MAX,
        k < s.prompt.options.len(),
        0 <= i < events.len(),
        first_response(events) == Some(i),
        events[i].payload == Some(keyboard(s.prompt.options)[k as int].payload),
    ensures
        selects(
            s,
            seq![ReplyView::Events { events, elapsed_secs }, ReplyView::Done, ReplyView::Done],
            k,
        ),
{
    lemma_decimal_round_trip(k);
    lemma_press_run(s, events, elapsed_secs, i);
}

/// The replies of a row of attempts that each timed out on the connection,
/// after the given numbers of seconds.
pub open spec fn timeouts(waits: Seq<nat>) -> Seq<ReplyView> {
    waits.map_values(|secs: nat| ReplyView::ConnectionTimeout { elapsed_secs: secs })
}

/// The seconds that a row of attempts took in all.
pub open spec fn total(waits: Seq<nat>) -> nat
    decreases waits.len(),
{
    if waits.len() == 0 {
        0
    } else {
        waits[0] + total(waits.drop_first())
    }
}

/// The waiting session `s` with `spent` seconds less until its deadline.
pub open spec fn waited(s: SessionView, spent: nat) -> SessionView
    recommends
        s.phase is Awaiting,
{
    SessionView {
        phase: PhaseView::Awaiting {
            message: s.phase->message,
            remaining_secs: (s.phase->remaining_secs - spent) as nat,
            wait_secs: s.phase->wait_secs,
        },
        ..s
    }
}

/// The poll that a waiting session waits on.
pub open spec fn pending_poll(s: SessionView) -> RequestView
    recommends
        s.phase is Awaiting,
{
    RequestView::PollResponses { offset: s.cursor, wait_secs: s.phase->wait_secs }
}

/// Every waiting session that a step leads to waits on the poll that the
/// step asked for.
pub proof fn lemma_waits_on_what_was_asked(s: SessionView, reply: ReplyView)
    ensures
        step(s, reply) matches StepView::Continue(next, request) ==> (next.phase is Awaiting
            ==> request == pending_poll(next)),
{
}

/// Connection timeouts keep the session waiting. While the time they took
/// stays under what is left until the deadline, each of them is answered by
/// the poll that timed out, asked again as it was: from the same offset and
/// for the same wait. The session goes on as it was, with only that much
/// less time until its deadline.
pub proof fn lemma_timeouts_keep_waiting(s: SessionView, waits: Seq<nat>, then: Seq<ReplyView>)
    requires
        s.phase is Awaiting,
        total(waits) < s.phase->remaining_secs,
    ensures
        ended(s, timeouts(waits) + then) == ended(waited(s, total(waits)), then),
        asked(s, timeouts(waits) + then).len() == waits.len() + asked(
            waited(s, total(waits)),
            then,
        ).len(),
        forall|j: int|
            0 <= j < waits.len() ==> #[trigger] asked(s, timeouts(waits) + then)[j]
                == pending_poll(s),
        forall|j: int|
            0 <= j < asked(waited(s, total(waits)), then).len() ==> asked(
                s,
                timeouts(waits) + then,
            )[waits.len() as int + j] == #[trigger] asked(waited(s, total(waits)), then)[j],
    decreases waits.len(),
{
    if waits.len() > 0 {
        let first = ReplyView::ConnectionTimeout { elapsed_secs: waits[0] };
        let rest = waits.drop_first();
        let next = waited(s, waits[0]);
        assert(timeouts(waits) + then =~= seq![first] + (timeouts(rest) + then));
        lemma_run_split(s, first, timeouts(rest) + then);
        lemma_timeouts_keep_waiting(next, rest, then);
        assert(waited(next, total(rest)) == waited(s, total(waits)));
    }
}

/// Connection-timeout retry. Any number of connection timeouts whose time
/// stays under the deadline, followed by a press on the control of option
/// `k`, end the session with `Selected(k)`: each timeout is answered by the
/// poll that timed out, asked again with the same arguments, then the prompt
/// is marked as pressed and the response is confirmed, and nothing else is
/// asked for.
pub proof fn lemma_timeouts_then_press(
    s: SessionView,
    waits: Seq<nat>,
    events: Seq<EventView>,
    elapsed_secs: nat,
    i: int,
    k: nat,
)
    requires
        s.phase is Awaiting,
        total(waits) < s.phase->remaining_secs,
        s.prompt.options.len() <= usize::MAX,
        k < s.prompt.options.len(),
        0 <= i < events.len(),
        first_response(events) == Some(i),
        events[i].payload == Some(keyboard(s.prompt.options)[k as int].payload),
    ensures
        ({
            let replies = timeouts(waits) + seq![
                ReplyView::Events { events, elapsed_secs },
                ReplyView::Done,
                ReplyView::Done,
            ];
            &&& selects(s, replies, k)
            &&& asked(s, replies).len() == waits.len() + 2
            &&& forall|j: int|
                0 <= j < waits.len() ==> #[trigger] asked(s, replies)[j] == pending_poll(s)
            &&& asked(s, replies)[waits.len() as int] == RequestView::EditText {
                message: s.phase->message,
                text: pressed_text(s.prompt.text),
            }
            &&& asked(s, replies)[waits.len() as int + 1] == RequestView::Acknowledge {
                below: moved_past(s.cursor, events[i].id),
            }
        }),
{
    let then = seq![ReplyView::Events { events, elapsed_secs }, ReplyView::Done, ReplyView::Done];
    let resumed = waited(s, total(waits));
    lemma_timeouts_keep_waiting(s, waits, then);
    lemma_index_round_trip(resumed, events, elapsed_secs, i, k);
    lemma_press_run(resumed, events, elapsed_secs, i);
}

/// Whether a reply uses up some of the wait when it brings no response: a
/// poll that came back empty-handed, or timed out on the connection, took a
/// second or more.
pub open spec fn takes_time(reply: ReplyView) -> bool {
    match reply {
        ReplyView::Events { events, elapsed_secs } => first_response(events) is Some
            || elapsed_secs >= 1,
        ReplyView::ConnectionTimeout { elapsed_secs } => elapsed_secs >= 1,
        _ => true,
    }
}

/// The most replies that a session still takes before it ends, as long as
/// every reply takes time.
pub open spec fn patience(s: SessionView) -> nat {
    match s.phase {
        PhaseView::Draining => s.timeout_secs + 5,
        PhaseView::Publishing => s.timeout_secs + 4,
        PhaseView::Awaiting { remaining_secs, .. } => remaining_secs + 3,
        PhaseView::Marking { .. } => 2,
        PhaseView::Expiring => 1,
        PhaseView::Acknowledging { .. } => 1,
    }
}

/// Every step that takes time brings the end nearer.
pub proof fn lemma_step_uses_patience(s: SessionView, reply: ReplyView)
    requires
        takes_time(reply),
    ensures
        step(s, reply) matches StepView::Continue(next, _) ==> patience(next) < patience(s),
{
}

/// The deadline holds. A session whose replies all take time ends: it takes
/// no more replies than its timeout has seconds, and five more for the
/// calls around the wait.
pub proof fn lemma_session_ends(s: SessionView, replies: Seq<ReplyView>)
    requires
        replies.len() >= patience(s),
        forall|i: int| 0 <= i < replies.len() ==> takes_time(#[trigger] replies[i]),
    ensures
        ended(s, replies) is Some,
    decreases replies.len(),
{
    lemma_step_uses_patience(s, replies[0]);
    if let StepView::Continue(next, request) = step(s, replies[0]) {
        let tail = replies.drop_first();
        assert forall|i: int| 0 <= i < tail.len() implies takes_time(#[trigger] tail[i]) by {
            assert(tail[i] == replies[i + 1]);
        }
        lemma_session_ends(next, tail);
    }
}

/// Whether a reply to the long poll brings neither a response nor a
/// failure: a batch without a response event (empty, or of other kinds
/// only), or a connection timeout.
pub open spec fn is_quiet(reply: ReplyView) -> bool {
    match reply {
        ReplyView::Events { events, .. } => first_response(events) is None,
        ReplyView::ConnectionTimeout { .. } => true,
        _ => false,
    }
}

/// The seconds that a reply to a poll says the poll took.
pub open spec fn time_of(reply: ReplyView) -> nat {
    match reply {
        ReplyView::Events { elapsed_secs, .. } => elapsed_secs,
        ReplyView::ConnectionTimeout { elapsed_secs } => elapsed_secs,
        _ => 0,
    }
}

/// The identifiers of the events that a reply brings.
pub open spec fn seen_in(reply: ReplyView) -> Seq<int> {
    match reply {
        ReplyView::Events { events, .. } => ids_of(events),
        _ => Seq::empty(),
    }
}

/// Whether the replies are quiet up to the deadline that lies
/// `remaining_secs` ahead: each of them is quiet, each but the last leaves
/// time until the deadline, and the last leaves none.
pub open spec fn runs_out(remaining_secs: nat, quiet: Seq<ReplyView>) -> bool
    decreases quiet.len(),
{
    &&& quiet.len() > 0
    &&& is_quiet(quiet[0])
    &&& if quiet.len() == 1 {
        time_of(quiet[0]) >= remaining_secs
    } else {
        &&& time_of(quiet[0]) < remaining_secs
        &&& runs_out((remaining_secs - time_of(quiet[0])) as nat, quiet.drop_first())
    }
}

/// Where a cursor at `cursor` stands after it has observed what the replies
/// bring, one reply after the other.
pub open spec fn cursor_after(cursor: Option<int>, replies: Seq<ReplyView>) -> Option<int>
    decreases replies.len(),
{
    if replies.len() == 0 {
        cursor
    } else {
        cursor_after(advanced(cursor, seen_in(replies[0])), replies.drop_first())
    }
}

/// Replies that bring no event leave the cursor where it stands.
pub proof fn lemma_empty_replies_keep_cursor(cursor: Option<int>, replies: Seq<ReplyView>)
    requires
        forall|i: int| 0 <= i < replies.len() ==> seen_in(#[trigger] replies[i]).len() == 0,
    ensures
        cursor_after(cursor, replies) == cursor,
    decreases replies.len(),
{
    if replies.len() > 0 {
        let rest = replies.drop_first();
        assert forall|i: int| 0 <= i < rest.len() implies seen_in(#[trigger] rest[i]).len()
            == 0 by {
            assert(rest[i] == replies[i + 1]);
        }
        assert(seen_in(replies[0]).len() == 0);
        lemma_empty_replies_keep_cursor(cursor, rest);
    }
}

/// The edit that marks the prompt of a waiting session as expired.
pub open spec fn expiry_edit(s: SessionView) -> RequestView
    recommends
        s.phase is Awaiting,
{
    RequestView::EditText { message: s.phase->message, text: expired_text(s.prompt.text) }
}

/// Whether a request is a poll for responses from `offset` on.
pub open spec fn polls_from(request: RequestView, offset: Option<int>) -> bool {
    request is PollResponses && request->offset == offset
}

/// A quiet wait expires. When every reply to the long poll up to the
/// deadline is quiet, the session polls on after each reply but the last,
/// from where the events so far have moved its cursor, and after the last
/// it asks for the one edit that marks the prompt as expired. Once that edit
/// is through the session ends timed out. It asks for no acknowledgment.
pub proof fn lemma_quiet_wait_expires(s: SessionView, quiet: Seq<ReplyView>)
    requires
        s.phase is Awaiting,
        runs_out(s.phase->remaining_secs, quiet),
    ensures
        times_out(s, quiet + seq![ReplyView::Done]),
        asked(s, quiet + seq![ReplyView::Done]).len() == quiet.len(),
        forall|j: int|
            0 <= j < quiet.len() - 1 ==> polls_from(
                #[trigger] asked(s, quiet + seq![ReplyView::Done])[j],
                cursor_after(s.cursor, quiet.take(j + 1)),
            ),
        asked(s, quiet + seq![ReplyView::Done])[quiet.len() - 1] == expiry_edit(s),
        forall|j: int|
            0 <= j < quiet.len() ==> !is_acknowledge(
                #[trigger] asked(s, quiet + seq![ReplyView::Done])[j],
            ),
    decreases quiet.len(),
{
    let done = seq![ReplyView::Done];
    let all = quiet + done;
    if quiet.len() == 1 {
        assert(all =~= seq![quiet[0], ReplyView::Done]);
        lemma_deadline_expires(s, quiet[0]);
    } else {
        let rest = quiet.drop_first();
        let next = step(s, quiet[0])->Continue_0;
        assert(all =~= seq![quiet[0]] + (rest + done));
        assert(all.drop_first() =~= rest + done);
        lemma_asked_after_step(s, all);
        lemma_quiet_wait_expires(next, rest);
        assert(next.cursor == advanced(s.cursor, seen_in(quiet[0])));
        assert forall|j: int| 0 <= j < quiet.len() - 1 implies polls_from(
            #[trigger] asked(s, all)[j],
            cursor_after(s.cursor, quiet.take(j + 1)),
        ) by {
            let front = quiet.take(j + 1);
            assert(front[0] == quiet[0]);
            assert(front.drop_first() =~= rest.take(j));
            if j == 0 {
                assert(cursor_after(next.cursor, rest.take(0)) == next.cursor);
            } else {
                assert(asked(s, all)[j] == asked(next, rest + done)[j - 1]);
            }
        }
    }
}

/// The waiting session that a drain which brought `stale`, and the
/// publication of the prompt as `message`, lead to.
pub open spec fn opened(
    chat: int,
    prompt: PromptView,
    silent: bool,
    timeout_secs: nat,
    stale: Seq<EventView>,
    message: PublishedMessage,
) -> SessionView {
    SessionView {
        chat,
        prompt,
        silent,
        timeout_secs,
        cursor: past_all(ids_of(stale)),
        phase: PhaseView::Awaiting {
            message,
            remaining_secs: timeout_secs,
            wait_secs: timeout_secs,
        },
    }
}

/// How every session opens. Once the drain has come back and the prompt is
/// published, the session has asked for the prompt and for the long poll,
/// from past whatever was stale and for the whole timeout, and goes on as
/// the waiting session `opened(..)`.
pub proof fn lemma_session_opens(
    chat: int,
    prompt: PromptView,
    silent: bool,
    timeout_secs: nat,
    stale: Seq<EventView>,
    drain_secs: nat,
    message: PublishedMessage,
    then: Seq<ReplyView>,
)
    ensures
        ({
            let start = initial(chat, prompt, silent, timeout_secs);
            let waiting = opened(chat, prompt, silent, timeout_secs, stale, message);
            let all = seq![
                ReplyView::Events { events: stale, elapsed_secs: drain_secs },
                ReplyView::Published(message),
            ] + then;
            &&& ended(start, all) == ended(waiting, then)
            &&& asked(start, all).len() == 2 + asked(waiting, then).len()
            &&& asked(start, all)[0] == send_prompt(chat, prompt, silent)
            &&& asked(start, all)[1] == pending_poll(waiting)
            &&& forall|j: int|
                0 <= j < asked(waiting, then).len() ==> asked(start, all)[j + 2]
                    == #[trigger] asked(waiting, then)[j]
        }),
{
    let start = initial(chat, prompt, silent, timeout_secs);
    let drain = ReplyView::Events { events: stale, elapsed_secs: drain_secs };
    let all = seq![drain, ReplyView::Published(message)] + then;
    let after = seq![ReplyView::Published(message)] + then;
    assert(all.drop_first() =~= after);
    assert(after.drop_first() =~= then);
    lemma_asked_after_step(start, all);
    lemma_asked_after_step(step(start, drain)->Continue_0, after);
}

/// A whole session that is retried. The queue is cleared, the prompt is
/// published, the long poll times out on the connection any number of times
/// within the timeout, and then the control of option `k` is pressed: the
/// long poll is asked for once more than it timed out, each time with the
/// same arguments; then come the one edit and the one acknowledgment, and
/// the session ends with `Selected(k)`. The acknowledgment is from the
/// response's identifier plus one, unless the response lies below what the
/// drain left out.
pub proof fn lemma_session_retried(
    chat: int,
    prompt: PromptView,
    silent: bool,
    timeout_secs: nat,
    stale: Seq<EventView>,
    drain_secs: nat,
    message: PublishedMessage,
    waits: Seq<nat>,
    events: Seq<EventView>,
    elapsed_secs: nat,
    i: int,
    k: nat,
)
    requires
        total(waits) < timeout_secs,
        prompt.options.len() <= usize::MAX,
        k < prompt.options.len(),
        0 <= i < events.len(),
        first_response(events) == Some(i),
        events[i].payload == Some(keyboard(prompt.options)[k as int].payload),
    ensures
        ({
            let start = initial(chat, prompt, silent, timeout_secs);
            let all = seq![
                ReplyView::Events { events: stale, elapsed_secs: drain_secs },
                ReplyView::Published(message),
            ] + (timeouts(waits) + seq![
                ReplyView::Events { events, elapsed_secs },
                ReplyView::Done,
                ReplyView::Done,
            ]);
            let poll = RequestView::PollResponses {
                offset: past_all(ids_of(stale)),
                wait_secs: timeout_secs,
            };
            &&& selects(start, all, k)
            &&& asked(start, all).len() == waits.len() + 4
            &&& asked(start, all)[0] == send_prompt(chat, prompt, silent)
            &&& forall|j: int| 1 <= j <= waits.len() + 1 ==> #[trigger] asked(start, all)[j] == poll
            &&& asked(start, all)[waits.len() as int + 2] == RequestView::EditText {
                message,
                text: pressed_text(prompt.text),
            }
            &&& asked(start, all)[waits.len() as int + 3] == RequestView::Acknowledge {
                below: moved_past(past_all(ids_of(stale)), events[i].id),
            }
            &&& !excludes(past_all(ids_of(stale)), events[i].id) ==> moved_past(
                past_all(ids_of(stale)),
                events[i].id,
            ) == events[i].id + 1
        }),
{
    let start = initial(chat, prompt, silent, timeout_secs);
    let waiting = opened(chat, prompt, silent, timeout_secs, stale, message);
    let then = timeouts(waits) + seq![
        ReplyView::Events { events, elapsed_secs },
        ReplyView::Done,
        ReplyView::Done,
    ];
    let all = seq![
        ReplyView::Events { events: stale, elapsed_secs: drain_secs },
        ReplyView::Published(message),
    ] + then;
    lemma_session_opens(chat, prompt, silent, timeout_secs, stale, drain_secs, message, then);
    lemma_timeouts_then_press(waiting, waits, events, elapsed_secs, i, k);
    assert forall|j: int| 1 <= j <= waits.len() + 1 implies #[trigger] asked(start, all)[j]
        == pending_poll(waiting) by {
        if j > 1 {
            assert(asked(start, all)[(j - 2) + 2] == asked(waiting, then)[j - 2]);
        }
    }
    let n = waits.len() as int;
    assert(asked(start, all)[n + 2] == asked(waiting, then)[n]);
    assert(asked(start, all)[(n + 1) + 2] == asked(waiting, then)[n + 1]);
}

/// A whole session with one acknowledgment. The queue is cleared, the
/// prompt is published, and the long poll brings a batch whose first
/// response does not lie below what the drain left out: the session asks for
/// the prompt, for the long poll, for the edit that marks the prompt as
/// pressed, and then for exactly one acknowledgment, from that response's
/// identifier plus one. That single call leaves out every event of the batch
/// whose identifier is no higher.
pub proof fn lemma_session_acknowledges_once(
    chat: int,
    prompt: PromptView,
    silent: bool,
    timeout_secs: nat,
    stale: Seq<EventView>,
    drain_secs: nat,
    message: PublishedMessage,
    events: Seq<EventView>,
    elapsed_secs: nat,
    i: int,
)
    requires
        0 <= i < events.len(),
        first_response(events) == Some(i),
        !excludes(past_all(ids_of(stale)), events[i].id),
    ensures
        run(
            initial(chat, prompt, silent, timeout_secs),
            seq![
                ReplyView::Events { events: stale, elapsed_secs: drain_secs },
                ReplyView::Published(message),
                ReplyView::Events { events, elapsed_secs },
                ReplyView::Done,
                ReplyView::Done,
            ],
        ) == (Run {
            requests: seq![
                send_prompt(chat, prompt, silent),
                RequestView::PollResponses {
                    offset: past_all(ids_of(stale)),
                    wait_secs: timeout_secs,
                },
                RequestView::EditText { message, text: pressed_text(prompt.text) },
                RequestView::Acknowledge { below: events[i].id + 1 },
            ],
            end: Some(conclusion(choice_of(events[i].payload, prompt.options.len()))),
        }),
        forall|j: int|
            0 <= j < events.len() && (#[trigger] events[j]).id <= events[i].id ==> leaves_out(
                RequestView::Acknowledge { below: events[i].id + 1 },
                events[j].id,
            ),
{
    let start = initial(chat, prompt, silent, timeout_secs);
    let waiting = opened(chat, prompt, silent, timeout_secs, stale, message);
    let then = seq![ReplyView::Events { events, elapsed_secs }, ReplyView::Done, ReplyView::Done];
    let all = seq![
        ReplyView::Events { events: stale, elapsed_secs: drain_secs },
        ReplyView::Published(message),
        ReplyView::Events { events, elapsed_secs },
        ReplyView::Done,
        ReplyView::Done,
    ];
    assert(all =~= seq![
        ReplyView::Events { events: stale, elapsed_secs: drain_secs },
        ReplyView::Published(message),
    ] + then);
    lemma_session_opens(chat, prompt, silent, timeout_secs, stale, drain_secs, message, then);
    lemma_fresh_press_acknowledged(waiting, events, elapsed_secs, i);
    assert(asked(start, all)[0int + 2] == asked(waiting, then)[0]);
    assert(asked(start, all)[1int + 2] == asked(waiting, then)[1]);
    assert(run(start, all).requests =~= seq![
        send_prompt(chat, prompt, silent),
        RequestView::PollResponses { offset: past_all(ids_of(stale)), wait_secs: timeout_secs },
        RequestView::EditText { message, text: pressed_text(prompt.text) },
        RequestView::Acknowledge { below: events[i].id + 1 },
    ]);
}

/// A whole session that stays quiet. The queue is cleared, the prompt is
/// published, and every reply to the long poll up to the deadline is quiet
/// (a batch without a response, empty or of other kinds only, or a
/// connection timeout). The session then asks for the prompt, polls until
/// the deadline, and asks for the one edit that marks the prompt as expired;
/// that edit is the only call after the last poll. It ends timed out and
/// asks for no acknowledgment. Each poll asks from where the events so far
/// have moved the cursor; where the replies bring no events at all, every
/// poll asks from where the drain left it.
pub proof fn lemma_session_stays_quiet(
    chat: int,
    prompt: PromptView,
    silent: bool,
    timeout_secs: nat,
    stale: Seq<EventView>,
    drain_secs: nat,
    message: PublishedMessage,
    quiet: Seq<ReplyView>,
)
    requires
        runs_out(timeout_secs, quiet),
    ensures
        ({
            let start = initial(chat, prompt, silent, timeout_secs);
            let drained = past_all(ids_of(stale));
            let all = seq![
                ReplyView::Events { events: stale, elapsed_secs: drain_secs },
                ReplyView::Published(message),
            ] + (quiet + seq![ReplyView::Done]);
            &&& times_out(start, all)
            &&& asked(start, all).len() == quiet.len() + 2
            &&& asked(start, all)[0] == send_prompt(chat, prompt, silent)
            &&& asked(start, all)[1] == (RequestView::PollResponses {
                offset: drained,
                wait_secs: timeout_secs,
            })
            &&& forall|j: int|
                2 <= j <= quiet.len() ==> polls_from(
                    #[trigger] asked(start, all)[j],
                    cursor_after(drained, quiet.take(j - 1)),
                )
            &&& asked(start, all)[quiet.len() as int + 1] == (RequestView::EditText {
                message,
                text: expired_text(prompt.text),
            })
            &&& forall|j: int|
                0 <= j < asked(start, all).len() ==> !is_acknowledge(
                    #[trigger] asked(start, all)[j],
                )
            &&& (forall|i: int| 0 <= i < quiet.len() ==> seen_in(#[trigger] quiet[i]).len() == 0)
                ==> forall|j: int|
                1 <= j <= quiet.len() ==> polls_from(#[trigger] asked(start, all)[j], drained)
        }),
{
    let start = initial(chat, prompt, silent, timeout_secs);
    let drained = past_all(ids_of(stale));
    let waiting = opened(chat, prompt, silent, timeout_secs, stale, message);
    let then = quiet + seq![ReplyView::Done];
    let all = seq![
        ReplyView::Events { events: stale, elapsed_secs: drain_secs },
        ReplyView::Published(message),
    ] + then;
    lemma_session_opens(chat, prompt, silent, timeout_secs, stale, drain_secs, message, then);
    lemma_quiet_wait_expires(waiting, quiet);
    lemma_timed_out_without_acknowledgment(start, all);
    assert forall|j: int| 2 <= j <= quiet.len() implies polls_from(
        #[trigger] asked(start, all)[j],
        cursor_after(drained, quiet.take(j - 1)),
    ) by {
        assert(asked(start, all)[(j - 2) + 2] == asked(waiting, then)[j - 2]);
    }
    assert(asked(start, all)[(quiet.len() - 1) + 2] == asked(waiting, then)[quiet.len() - 1]);
    if forall|i: int| 0 <= i < quiet.len() ==> seen_in(#[trigger] quiet[i]).len() == 0 {
        assert forall|j: int| 1 <= j <= quiet.len() implies polls_from(
            #[trigger] asked(start, all)[j],
            drained,
        ) by {
            if j >= 2 {
                let front = quiet.take(j - 1);
                assert forall|i: int| 0 <= i < front.len() implies seen_in(
                    #[trigger] front[i],
                ).len() == 0 by {
                    assert(front[i] == quiet[i]);
                }
                lemma_empty_replies_keep_cursor(drained, front);
            }
        }
    }
}

/// A whole session that is answered. The queue is cleared, the prompt is
/// published, and the control of option `k` is pressed: the session asks for
/// the prompt, for the long poll past whatever was stale, for the edit that
/// marks the prompt as pressed and for one acknowledgment, in this order, and
/// ends with `Selected(k)`.
pub proof fn lemma_session_answered(
    chat: int,
    prompt: PromptView,
    silent: bool,
    timeout_secs: nat,
    stale: Seq<EventView>,
    drain_secs: nat,
    message: PublishedMessage,
    events: Seq<EventView>,
    elapsed_secs: nat,
    i: int,
    k: nat,
)
    requires
        prompt.options.len() <= usize::MAX,
        k < prompt.options.len(),
        0 <= i < events.len(),
        first_response(events) == Some(i),
        events[i].payload == Some(keyboard(prompt.options)[k as int].payload),
    ensures
        run(
            initial(chat, prompt, silent, timeout_secs),
            seq![
                ReplyView::Events { events: stale, elapsed_secs: drain_secs },
                ReplyView::Published(message),
                ReplyView::Events { events, elapsed_secs },
                ReplyView::Done,
                ReplyView::Done,
            ],
        ) == (Run {
            requests: seq![
                send_prompt(chat, prompt, silent),
                RequestView::PollResponses {
                    offset: past_all(ids_of(stale)),
                    wait_secs: timeout_secs,
                },
                RequestView::EditText { message, text: pressed_text(prompt.text) },
                RequestView::Acknowledge {
                    below: moved_past(past_all(ids_of(stale)), events[i].id),
                },
            ],
            end: Some(Ok(SessionOutcome::Selected(k as usize))),
        }),
{
    let start = initial(chat, prompt, silent, timeout_secs);
    let drain = ReplyView::Events { events: stale, elapsed_secs: drain_secs };
    let published = ReplyView::Published(message);
    let press = ReplyView::Events { events, elapsed_secs };
    let tail = seq![press, ReplyView::Done, ReplyView::Done];
    let all = seq![drain, published, press, ReplyView::Done, ReplyView::Done];
    assert(all =~= seq![drain] + (seq![published] + tail));
    lemma_run_split(start, drain, seq![published] + tail);
    let drained = step(start, drain)->Continue_0;
    lemma_run_split(drained, published, tail);
    let waiting = step(drained, published)->Continue_0;
    lemma_press_run(waiting, events, elapsed_secs, i);
    lemma_index_round_trip(waiting, events, elapsed_secs, i, k);
    assert(run(start, all).requests =~= seq![
        send_prompt(chat, prompt, silent),
        RequestView::PollResponses { offset: past_all(ids_of(stale)), wait_secs: timeout_secs },
        RequestView::EditText { message, text: pressed_text(prompt.text) },
        RequestView::Acknowledge { below: moved_past(past_all(ids_of(stale)), events[i].id) },
    ]);
}

/// A whole session that is not answered. The queue is cleared, the prompt is
/// published, and the long poll comes back without a response when the
/// timeout has passed: the session asks for the prompt, for the long poll
/// and for the edit that marks the prompt as expired, and ends timed out. It
/// asks for no acknowledgment.
pub proof fn lemma_session_unanswered(
    chat: int,
    prompt: PromptView,
    silent: bool,
    timeout_secs: nat,
    stale: Seq<EventView>,
    drain_secs: nat,
    message: PublishedMessage,
    events: Seq<EventView>,
    elapsed_secs: nat,
)
    requires
        first_response(events) is None,
        elapsed_secs >= timeout_secs,
    ensures
        run(
            initial(chat, prompt, silent, timeout_secs),
            seq![
                ReplyView::Events { events: stale, elapsed_secs: drain_secs },
                ReplyView::Published(message),
                ReplyView::Events { events, elapsed_secs },
                ReplyView::Done,
            ],
        ) == (Run {
            requests: seq![
                send_prompt(chat, prompt, silent),
                RequestView::PollResponses {
                    offset: past_all(ids_of(stale)),
                    wait_secs: timeout_secs,
                },
                RequestView::EditText { message, text: expired_text(prompt.text) },
            ],
            end: Some(Ok(SessionOutcome::TimedOut)),
        }),
{
    let start = initial(chat, prompt, silent, timeout_secs);
    let drain = ReplyView::Events { events: stale, elapsed_secs: drain_secs };
    let published = ReplyView::Published(message);
    let quiet = ReplyView::Events { events, elapsed_secs };
    let tail = seq![quiet, ReplyView::Done];
    let all = seq![drain, published, quiet, ReplyView::Done];
    assert(all =~= seq![drain] + (seq![published] + tail));
    lemma_run_split(start, drain, seq![published] + tail);
    let drained = step(start, drain)->Continue_0;
    lemma_run_split(drained, published, tail);
    let waiting = step(drained, published)->Continue_0;
    lemma_deadline_expires(waiting, quiet);
    assert(run(start, all).requests =~= seq![
        send_prompt(chat, prompt, silent),
        RequestView::PollResponses { offset: past_all(ids_of(stale)), wait_secs: timeout_secs },
        RequestView::EditText { message, text: expired_text(prompt.text) },
    ]);
}

} // verus!
