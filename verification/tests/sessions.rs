use cg_bridge::gemini::{Candidate, FinishReason, GenerationResponse, ReplyPart};
use cg_bridge::responses::{OutputItem, Response, StreamEvent};
use cg_bridge::session::{Action, Session, Upstream, CONNECT_SECONDS, STALL_SECONDS};

fn session() -> Session {
    Session::start(3, "m".to_string(), "resp_x".to_string())
}

fn chunk(text: &str, finish_reason: Option<FinishReason>) -> Upstream {
    Upstream::Chunk(GenerationResponse {
        candidates: vec![Candidate {
            finish_reason,
            parts: Some(vec![ReplyPart::Text {
                text: text.to_string(),
                thought: None,
                thought_signature: None,
            }]),
        }],
        usage_metadata: None,
    })
}

fn drain(session: &mut Session) -> (Vec<StreamEvent>, Action) {
    let mut events = Vec::new();
    loop {
        match session.next_action() {
            Action::Send(event) => events.push(event),
            other => return (events, other),
        }
    }
}

fn failure(events: &[StreamEvent]) -> &Response {
    match events.last() {
        Some(StreamEvent::ResponseFailed { response, .. }) => response,
        other => panic!("no failure: {other:?}"),
    }
}

fn cause(events: &[StreamEvent]) -> &str {
    &failure(events).error.as_ref().unwrap().message
}

#[test]
fn a_session_opens_before_it_connects() {
    let mut session = session();
    assert!(matches!(session.next_action(), Action::Send(StreamEvent::ResponseCreated { .. })));
    assert!(matches!(
        session.next_action(),
        Action::Send(StreamEvent::ResponseInProgress { .. })
    ));
    assert!(matches!(session.next_action(), Action::Connect));
    assert!(matches!(session.next_action(), Action::Connect));
    assert_eq!((CONNECT_SECONDS, STALL_SECONDS), (60, 120));
}

#[test]
fn a_clean_stream_completes() {
    let mut session = session();
    drain(&mut session);
    session.on_upstream(Upstream::Connected);
    assert!(matches!(session.next_action(), Action::NextChunk));
    session.on_upstream(chunk("Hel", None));
    let (events, next) = drain(&mut session);
    assert_eq!(events.len(), 2);
    assert!(matches!(next, Action::NextChunk));
    session.on_upstream(chunk("lo", Some(FinishReason::Stop)));
    session.on_upstream(Upstream::Ended);
    let (events, next) = drain(&mut session);
    assert!(matches!(next, Action::Stop));
    assert_eq!(events.len(), 3);
    let Some(StreamEvent::ResponseCompleted { response, sequence_number }) = events.last() else {
        panic!("{events:?}")
    };
    assert_eq!(*sequence_number, 7);
    let OutputItem::Message(message) = &response.output[0] else { panic!() };
    assert_eq!(message.content, ["Hello"]);
    assert_eq!((response.created_at, response.id.as_str()), (3, "resp_x"));
}

#[test]
fn a_failed_connect_says_why() {
    let mut session = session();
    drain(&mut session);
    session.on_upstream(Upstream::ConnectFailed("refused".to_string()));
    let (events, next) = drain(&mut session);
    assert_eq!(events.len(), 1);
    assert_eq!(cause(&events), "gemini connect error: refused");
    assert!(matches!(next, Action::Stop));
}

#[test]
fn a_connect_timeout_says_so() {
    let mut session = session();
    drain(&mut session);
    session.on_upstream(Upstream::ConnectTimedOut);
    let (events, _) = drain(&mut session);
    assert_eq!(cause(&events), "gemini connect timeout 60s");
}

#[test]
fn a_broken_stream_says_why() {
    let mut session = session();
    session.on_upstream(Upstream::Connected);
    session.on_upstream(chunk("part", None));
    drain(&mut session);
    session.on_upstream(Upstream::Errored("reset".to_string()));
    let (events, next) = drain(&mut session);
    assert_eq!(events.len(), 1);
    assert_eq!(cause(&events), "gemini stream error: reset");
    assert!(failure(&events).output.is_empty());
    assert!(matches!(next, Action::Stop));
}

#[test]
fn a_stall_fails_and_leaves_the_message_open() {
    let mut session = session();
    session.on_upstream(Upstream::Connected);
    session.on_upstream(chunk("part", None));
    drain(&mut session);
    session.on_upstream(Upstream::Stalled);
    let (events, _) = drain(&mut session);
    assert_eq!(events.len(), 1);
    assert_eq!(cause(&events), "gemini stream ended without a finish reason");
}

#[test]
fn a_stall_behind_a_finish_still_fails() {
    let mut session = session();
    session.on_upstream(Upstream::Connected);
    session.on_upstream(chunk("whole", Some(FinishReason::Stop)));
    session.on_upstream(Upstream::Stalled);
    let (events, _) = drain(&mut session);
    assert_eq!(cause(&events), "gemini terminated abnormally: Stop");
}

#[test]
fn an_unspecified_finish_never_completes() {
    let mut session = session();
    session.on_upstream(Upstream::Connected);
    session.on_upstream(chunk("x", Some(FinishReason::FinishReasonUnspecified)));
    session.on_upstream(Upstream::Ended);
    let (events, _) = drain(&mut session);
    assert_eq!(cause(&events), "gemini terminated abnormally: FinishReasonUnspecified");
}

#[test]
fn what_does_not_fit_the_phase_is_passed_over() {
    let mut session = session();
    session.on_upstream(chunk("early", Some(FinishReason::Stop)));
    session.on_upstream(Upstream::Ended);
    session.on_upstream(Upstream::Stalled);
    let (events, next) = drain(&mut session);
    assert_eq!(events.len(), 2);
    assert!(matches!(next, Action::Connect));
    session.on_upstream(Upstream::Connected);
    session.on_upstream(Upstream::Connected);
    session.on_upstream(Upstream::ConnectTimedOut);
    assert!(matches!(session.next_action(), Action::NextChunk));
    session.on_upstream(Upstream::Ended);
    let (events, _) = drain(&mut session);
    assert_eq!(events.len(), 1);
    session.on_upstream(Upstream::Ended);
    session.on_upstream(chunk("late", None));
    assert!(matches!(session.next_action(), Action::Stop));
}

#[test]
fn a_closed_receiver_ends_everything() {
    let mut session = session();
    assert!(matches!(session.next_action(), Action::Send(_)));
    session.on_closed();
    assert!(matches!(session.next_action(), Action::Stop));
    session.on_upstream(Upstream::Connected);
    session.on_upstream(Upstream::Errored("late".to_string()));
    assert!(matches!(session.next_action(), Action::Stop));
}
