use perch::ingest::{handle_payload, parse_ingest_event, IngestPayload, DEFAULT_INGEST_PORT};
use perch::state_machine::{MascotState, OpenCodeEvent, StateMachine};
use std::time::Duration;

#[test]
fn ingest_event_names() {
    assert_eq!(parse_ingest_event("session.busy", None), OpenCodeEvent::SessionBusy);
    assert_eq!(parse_ingest_event("session.working", Some("x")), OpenCodeEvent::SessionBusy);
    assert_eq!(parse_ingest_event("session.streaming", None), OpenCodeEvent::SessionStreaming);
    assert_eq!(parse_ingest_event("session.idle", None), OpenCodeEvent::SessionIdle);
    assert_eq!(
        parse_ingest_event("session.error", Some("boom")),
        OpenCodeEvent::SessionError { message: Some("boom".to_string()) }
    );
    assert_eq!(parse_ingest_event("session.error", None), OpenCodeEvent::SessionError { message: None });
    assert_eq!(
        parse_ingest_event("session.error", Some("")),
        OpenCodeEvent::SessionError { message: Some(String::new()) }
    );
    assert_eq!(
        parse_ingest_event("Session.Idle", None),
        OpenCodeEvent::Unknown { event_type: "Session.Idle".to_string() }
    );
}

#[test]
fn payload_reactions() {
    let mut sm = StateMachine::with_min_duration(Duration::from_secs(0));
    let busy = IngestPayload { event: "session.busy".to_string(), data: None };
    let r = handle_payload(&mut sm, &busy).expect("busy changes the state");
    assert_eq!(r.new_state, MascotState::Working);
    assert_eq!(r.state_event.state, "Working");
    assert!(!r.notify);
    assert!(handle_payload(&mut sm, &busy).is_none());
    let idle = IngestPayload { event: "session.idle".to_string(), data: None };
    let r = handle_payload(&mut sm, &idle).expect("idle ends the work");
    assert_eq!(r.new_state, MascotState::Done);
    assert_eq!(r.state_event.state, "Done");
    assert!(r.notify);
}

#[test]
fn short_work_is_not_notified() {
    let mut sm = StateMachine::new();
    handle_payload(&mut sm, &IngestPayload { event: "session.streaming".to_string(), data: None });
    let r = handle_payload(&mut sm, &IngestPayload { event: "session.idle".to_string(), data: None })
        .expect("state changes");
    assert_eq!(r.new_state, MascotState::Idle);
    assert!(!r.notify);
}

#[test]
fn error_payload() {
    let mut sm = StateMachine::new();
    let r = handle_payload(
        &mut sm,
        &IngestPayload { event: "session.error".to_string(), data: Some("bad".to_string()) },
    )
    .expect("error changes the state");
    assert_eq!(r.new_state, MascotState::Error);
    assert_eq!(r.state_event.state, "Error");
}

#[test]
fn unknown_payload_does_nothing() {
    let mut sm = StateMachine::new();
    let r = handle_payload(&mut sm, &IngestPayload { event: "file.edited".to_string(), data: None });
    assert!(r.is_none());
    assert_eq!(sm.current_state(), MascotState::Idle);
}

#[test]
fn default_ingest_port() {
    assert_eq!(DEFAULT_INGEST_PORT, 4097);
}
