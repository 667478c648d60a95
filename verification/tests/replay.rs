use hermes::outcome::{Operation, SessionError, SessionOutcome};
use hermes::session::{replay, Prompt, Session, Trace};
use hermes::transport::{Button, Event, EventKind, PublishedMessage, Reply, Request};

const ROOM: i64 = 4242;

const POSTED: PublishedMessage = PublishedMessage { message_id: 9, chat_id: ROOM };

fn question() -> Prompt {
    Prompt { text: String::from("Deploy?"), options: vec![String::from("Yes"), String::from("No")] }
}

fn fresh(timeout_secs: u32) -> Session {
    Session::start(ROOM, question(), false, timeout_secs).0
}

fn pressed(id: i32, payload: &str) -> Event {
    Event { id, kind: EventKind::Response, payload: Some(String::from(payload)) }
}

fn batch(events: Vec<Event>, elapsed_secs: u32) -> Reply {
    Reply::Events { events, elapsed_secs }
}

fn send_prompt() -> Request {
    Request::SendPrompt {
        chat: ROOM,
        text: String::from("Deploy?"),
        buttons: vec![
            Button { label: String::from("Yes"), payload: String::from("0") },
            Button { label: String::from("No"), payload: String::from("1") },
        ],
        silent: false,
    }
}

fn edit(text: &str) -> Request {
    Request::EditText { message: POSTED, text: String::from(text) }
}

fn offsets(requests: &[Request]) -> Vec<i64> {
    requests
        .iter()
        .filter_map(|request| match request {
            Request::PollResponses { offset, .. } => *offset,
            Request::Acknowledge { below } => Some(*below),
            _ => None,
        })
        .collect()
}

fn acknowledgments(requests: &[Request]) -> usize {
    requests.iter().filter(|request| matches!(request, Request::Acknowledge { .. })).count()
}

#[test]
fn nothing_replied_nothing_asked() {
    assert_eq!(replay(fresh(5), vec![]), Trace { requests: vec![], end: None });
}

#[test]
fn scenario_deploy_pressed_no() {
    let replies = vec![
        batch(vec![], 0),
        Reply::Published(POSTED),
        batch(vec![pressed(41, "1")], 1),
        Reply::Done,
        Reply::Done,
    ];
    assert_eq!(
        replay(fresh(5), replies),
        Trace {
            requests: vec![
                send_prompt(),
                Request::PollResponses { offset: None, wait_secs: 5 },
                edit("Deploy?\n\n(pressed)"),
                Request::Acknowledge { below: 42 },
            ],
            end: Some(Ok(SessionOutcome::Selected(1))),
        }
    );
}

#[test]
fn scenario_deploy_not_pressed() {
    let replies = vec![batch(vec![], 0), Reply::Published(POSTED), batch(vec![], 5), Reply::Done];
    assert_eq!(
        replay(fresh(5), replies),
        Trace {
            requests: vec![
                send_prompt(),
                Request::PollResponses { offset: None, wait_secs: 5 },
                edit("Deploy?\n\n(expired)"),
            ],
            end: Some(Ok(SessionOutcome::TimedOut)),
        }
    );
}

#[test]
fn a_run_that_is_cut_short_has_no_end() {
    let replies = vec![batch(vec![], 0), Reply::Published(POSTED)];
    let trace = replay(fresh(5), replies);
    assert_eq!(trace.end, None);
    assert_eq!(
        trace.requests,
        vec![send_prompt(), Request::PollResponses { offset: None, wait_secs: 5 }]
    );
}

#[test]
fn replies_after_the_end_are_not_looked_at() {
    let replies = vec![Reply::Failed, batch(vec![], 0), Reply::Published(POSTED)];
    assert_eq!(
        replay(fresh(5), replies),
        Trace { requests: vec![], end: Some(Err(SessionError::Transport(Operation::Drain))) }
    );
}

#[test]
fn stale_events_are_left_out_by_every_later_request() {
    let stale = vec![pressed(3, "0"), pressed(8, "1"), pressed(5, "0")];
    let replies = vec![
        batch(stale, 0),
        Reply::Published(POSTED),
        Reply::ConnectionTimeout { elapsed_secs: 1 },
        batch(vec![], 1),
        batch(vec![pressed(9, "0")], 1),
        Reply::Done,
        Reply::Done,
    ];
    let trace = replay(fresh(60), replies);
    assert_eq!(trace.end, Some(Ok(SessionOutcome::Selected(0))));
    assert_eq!(offsets(&trace.requests), vec![9, 9, 9, 10]);
    for offset in offsets(&trace.requests) {
        assert!(offset > 8);
    }
}

#[test]
fn offsets_never_go_down() {
    let replies = vec![
        batch(vec![pressed(10, "0")], 0),
        Reply::Published(POSTED),
        batch(vec![Event { id: 4, kind: EventKind::Other, payload: None }], 1),
        batch(vec![Event { id: 12, kind: EventKind::Other, payload: None }], 1),
        batch(vec![pressed(2, "1")], 1),
        Reply::Done,
        Reply::Done,
    ];
    let trace = replay(fresh(60), replies);
    assert_eq!(trace.end, Some(Ok(SessionOutcome::Selected(1))));
    let asked = offsets(&trace.requests);
    assert_eq!(asked, vec![11, 11, 13, 13]);
    assert!(asked.windows(2).all(|pair| pair[0] <= pair[1]));
}

#[test]
fn three_connection_timeouts_in_a_row_then_success() {
    let replies = vec![
        batch(vec![], 0),
        Reply::Published(POSTED),
        Reply::ConnectionTimeout { elapsed_secs: 1 },
        Reply::ConnectionTimeout { elapsed_secs: 1 },
        Reply::ConnectionTimeout { elapsed_secs: 1 },
        batch(vec![pressed(10, "0")], 1),
        Reply::Done,
        Reply::Done,
    ];
    assert_eq!(
        replay(fresh(5), replies),
        Trace {
            requests: vec![
                send_prompt(),
                Request::PollResponses { offset: None, wait_secs: 5 },
                Request::PollResponses { offset: None, wait_secs: 5 },
                Request::PollResponses { offset: None, wait_secs: 5 },
                Request::PollResponses { offset: None, wait_secs: 5 },
                edit("Deploy?\n\n(pressed)"),
                Request::Acknowledge { below: 11 },
            ],
            end: Some(Ok(SessionOutcome::Selected(0))),
        }
    );
}

#[test]
fn the_poll_is_retried_with_the_same_arguments_past_stale_events() {
    let replies = vec![
        batch(vec![pressed(3, "1"), pressed(6, "0")], 0),
        Reply::Published(POSTED),
        Reply::ConnectionTimeout { elapsed_secs: 10 },
        Reply::ConnectionTimeout { elapsed_secs: 25 },
        batch(vec![pressed(7, "1")], 20),
        Reply::Done,
        Reply::Done,
    ];
    let trace = replay(fresh(60), replies);
    assert_eq!(trace.end, Some(Ok(SessionOutcome::Selected(1))));
    let poll = Request::PollResponses { offset: Some(7), wait_secs: 60 };
    assert_eq!(
        trace.requests,
        vec![
            send_prompt(),
            Request::PollResponses { offset: Some(7), wait_secs: 60 },
            Request::PollResponses { offset: Some(7), wait_secs: 60 },
            poll,
            edit("Deploy?\n\n(pressed)"),
            Request::Acknowledge { below: 8 },
        ]
    );
}

#[test]
fn the_acknowledgment_is_from_the_first_response_plus_one() {
    let other = |id: i32| Event { id, kind: EventKind::Other, payload: None };
    let replies = vec![
        batch(vec![pressed(4, "0")], 0),
        Reply::Published(POSTED),
        batch(vec![other(5), other(6), pressed(7, "1"), pressed(8, "0"), other(9)], 1),
        Reply::Done,
        Reply::Done,
    ];
    let trace = replay(fresh(60), replies);
    assert_eq!(trace.end, Some(Ok(SessionOutcome::Selected(1))));
    assert_eq!(acknowledgments(&trace.requests), 1);
    assert_eq!(trace.requests.last(), Some(&Request::Acknowledge { below: 8 }));
}

#[test]
fn quiet_polls_up_to_the_deadline_time_out_without_an_acknowledgment() {
    let other = |id: i32| Event { id, kind: EventKind::Other, payload: None };
    let replies = vec![
        batch(vec![pressed(4, "0")], 0),
        Reply::Published(POSTED),
        batch(vec![], 2),
        batch(vec![other(5), other(9)], 2),
        Reply::ConnectionTimeout { elapsed_secs: 2 },
        batch(vec![other(10)], 2),
        batch(vec![], 2),
        Reply::Done,
    ];
    assert_eq!(
        replay(fresh(10), replies),
        Trace {
            requests: vec![
                send_prompt(),
                Request::PollResponses { offset: Some(5), wait_secs: 10 },
                Request::PollResponses { offset: Some(5), wait_secs: 8 },
                Request::PollResponses { offset: Some(10), wait_secs: 6 },
                Request::PollResponses { offset: Some(10), wait_secs: 6 },
                Request::PollResponses { offset: Some(11), wait_secs: 2 },
                edit("Deploy?\n\n(expired)"),
            ],
            end: Some(Ok(SessionOutcome::TimedOut)),
        }
    );
}

#[test]
fn empty_polls_up_to_the_deadline_keep_the_offset_of_the_drain() {
    let replies = vec![
        batch(vec![pressed(4, "0")], 0),
        Reply::Published(POSTED),
        batch(vec![], 3),
        batch(vec![], 3),
        batch(vec![], 3),
        batch(vec![], 3),
        Reply::Done,
    ];
    let trace = replay(fresh(10), replies);
    assert_eq!(trace.end, Some(Ok(SessionOutcome::TimedOut)));
    assert_eq!(acknowledgments(&trace.requests), 0);
    assert_eq!(offsets(&trace.requests), vec![5, 5, 5, 5]);
    assert_eq!(trace.requests.last(), Some(&edit("Deploy?\n\n(expired)")));
}

#[test]
fn connection_timeouts_that_use_up_the_time_expire_the_prompt() {
    let replies = vec![
        batch(vec![], 0),
        Reply::Published(POSTED),
        Reply::ConnectionTimeout { elapsed_secs: 2 },
        Reply::ConnectionTimeout { elapsed_secs: 2 },
        Reply::ConnectionTimeout { elapsed_secs: 2 },
        Reply::Done,
    ];
    let trace = replay(fresh(5), replies);
    assert_eq!(trace.end, Some(Ok(SessionOutcome::TimedOut)));
    assert_eq!(acknowledgments(&trace.requests), 0);
    assert_eq!(trace.requests.last(), Some(&edit("Deploy?\n\n(expired)")));
}

#[test]
fn a_run_acknowledges_at_most_once() {
    let endings = vec![
        vec![batch(vec![pressed(41, "0"), pressed(42, "1")], 1), Reply::Done, Reply::Done],
        vec![batch(vec![pressed(41, "0")], 1), Reply::Done, Reply::Failed],
        vec![batch(vec![pressed(41, "0")], 1), Reply::Failed],
        vec![batch(vec![pressed(41, "oops")], 1), Reply::Done, Reply::Done, Reply::Done],
        vec![batch(vec![], 9), Reply::Done, Reply::Done],
        vec![Reply::Failed],
    ];
    let expected = [1, 1, 0, 1, 0, 0];
    for (ending, count) in endings.into_iter().zip(expected) {
        let mut replies = vec![batch(vec![], 0), Reply::Published(POSTED)];
        replies.extend(ending);
        let trace = replay(fresh(5), replies);
        assert_eq!(acknowledgments(&trace.requests), count);
        if count == 1 {
            let last = trace.requests.len() - 1;
            assert!(matches!(trace.requests[last], Request::Acknowledge { .. }));
            assert!(matches!(trace.requests[last - 1], Request::EditText { .. }));
        }
    }
}

#[test]
fn the_prompt_is_sent_once_and_only_after_the_drain() {
    let replies = vec![
        batch(vec![pressed(7, "0")], 0),
        Reply::Published(POSTED),
        batch(vec![], 1),
        batch(vec![], 1),
        batch(vec![pressed(8, "1")], 1),
        Reply::Done,
        Reply::Done,
    ];
    let trace = replay(fresh(30), replies);
    assert_eq!(trace.requests[0], send_prompt());
    let sends = trace
        .requests
        .iter()
        .filter(|request| matches!(request, Request::SendPrompt { .. }))
        .count();
    assert_eq!(sends, 1);
    assert_eq!(trace.end, Some(Ok(SessionOutcome::Selected(1))));
}

#[test]
fn a_run_edits_its_prompt_at_most_once() {
    let endings = vec![
        vec![batch(vec![pressed(41, "0")], 1), Reply::Done, Reply::Done, Reply::Done],
        vec![batch(vec![], 9), Reply::Done, Reply::Done],
        vec![Reply::ConnectionTimeout { elapsed_secs: 9 }, Reply::Failed, Reply::Done],
        vec![Reply::Failed, Reply::Done],
    ];
    let expected = [1, 1, 1, 0];
    for (ending, count) in endings.into_iter().zip(expected) {
        let mut replies = vec![batch(vec![], 0), Reply::Published(POSTED)];
        replies.extend(ending);
        let trace = replay(fresh(5), replies);
        let edits = trace
            .requests
            .iter()
            .filter(|request| matches!(request, Request::EditText { .. }))
            .count();
        assert_eq!(edits, count);
    }
}

#[test]
fn every_outcome_shows_in_the_prompt() {
    let answered = replay(
        fresh(5),
        vec![
            batch(vec![], 0),
            Reply::Published(POSTED),
            batch(vec![pressed(41, "7")], 1),
            Reply::Done,
            Reply::Done,
        ],
    );
    assert_eq!(answered.end, Some(Err(SessionError::ProtocolViolation)));
    assert_eq!(answered.requests[2], edit("Deploy?\n\n(pressed)"));
    let unanswered = replay(
        fresh(5),
        vec![
            batch(vec![], 0),
            Reply::Published(POSTED),
            Reply::ConnectionTimeout { elapsed_secs: 5 },
            Reply::Done,
        ],
    );
    assert_eq!(unanswered.end, Some(Ok(SessionOutcome::TimedOut)));
    assert_eq!(unanswered.requests.last(), Some(&edit("Deploy?\n\n(expired)")));
}

#[test]
fn an_event_past_the_answer_stays_queued() {
    let replies = vec![
        batch(vec![], 0),
        Reply::Published(POSTED),
        batch(vec![pressed(20, "0"), pressed(21, "1")], 1),
        Reply::Done,
        Reply::Done,
    ];
    let trace = replay(fresh(5), replies);
    assert_eq!(trace.end, Some(Ok(SessionOutcome::Selected(0))));
    assert_eq!(trace.requests.last(), Some(&Request::Acknowledge { below: 21 }));
}

#[test]
fn a_session_that_is_never_answered_ends_by_its_deadline() {
    for timeout in [0u32, 1, 5, 60] {
        let mut replies = vec![batch(vec![], 1), Reply::Published(POSTED)];
        for round in 1..timeout {
            if round % 2 == 0 {
                replies.push(Reply::ConnectionTimeout { elapsed_secs: 1 });
            } else {
                replies.push(batch(vec![], 1));
            }
        }
        replies.push(batch(vec![], 1));
        replies.push(Reply::Done);
        assert!(replies.len() <= timeout as usize + 5);
        let trace = replay(fresh(timeout), replies);
        assert_eq!(trace.end, Some(Ok(SessionOutcome::TimedOut)));
        assert_eq!(acknowledgments(&trace.requests), 0);
    }
}
