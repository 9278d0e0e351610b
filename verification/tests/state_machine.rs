use perch::state_machine::{MascotState, OpenCodeEvent, StateMachine};
use perch::state_machine::transition;
use std::time::{Duration, Instant};

#[test]
fn test_idle_to_working() {
    let mut sm = StateMachine::new();
    let result = sm.process_event(&OpenCodeEvent::SessionBusy);
    assert_eq!(result, Some(MascotState::Working));
    assert_eq!(sm.current_state(), MascotState::Working);
}

#[test]
fn test_working_to_done_after_min_duration() {
    let mut sm = StateMachine::with_min_duration(Duration::from_millis(100));
    sm.process_event(&OpenCodeEvent::SessionBusy);

    // Simulate time passing
    let deadline = Instant::now() + Duration::from_millis(150);
    while Instant::now() < deadline {
        std::hint::spin_loop();
    }

    let result = sm.process_event(&OpenCodeEvent::SessionIdle);
    assert_eq!(result, Some(MascotState::Done));
}

#[test]
fn test_working_to_idle_short_duration() {
    let mut sm = StateMachine::with_min_duration(Duration::from_secs(10));
    sm.process_event(&OpenCodeEvent::SessionBusy);

    // Immediately go idle (short work period)
    let result = sm.process_event(&OpenCodeEvent::SessionIdle);
    assert_eq!(result, Some(MascotState::Idle));
}

#[test]
fn test_error_state() {
    let mut sm = StateMachine::new();
    let result = sm.process_event(&OpenCodeEvent::SessionError {
        message: Some("test error".to_string()),
    });
    assert_eq!(result, Some(MascotState::Error));
}

#[test]
fn new_machine_starts_idle() {
    let sm = StateMachine::new();
    assert_eq!(sm.current_state(), MascotState::Idle);
}

#[test]
fn zero_minimum_always_ends_in_done() {
    let mut sm = StateMachine::with_min_duration(Duration::from_secs(0));
    assert_eq!(sm.process_event(&OpenCodeEvent::SessionStreaming), Some(MascotState::Working));
    assert_eq!(sm.process_event(&OpenCodeEvent::SessionIdle), Some(MascotState::Done));
    assert!(sm.should_notify(MascotState::Done));
}

#[test]
fn repeated_busy_reports_no_change() {
    let mut sm = StateMachine::new();
    assert_eq!(sm.process_event(&OpenCodeEvent::SessionBusy), Some(MascotState::Working));
    assert_eq!(sm.process_event(&OpenCodeEvent::SessionBusy), None);
    assert_eq!(sm.process_event(&OpenCodeEvent::SessionStreaming), None);
    assert_eq!(sm.current_state(), MascotState::Working);
}

#[test]
fn idle_while_idle_changes_nothing() {
    let mut sm = StateMachine::new();
    assert_eq!(sm.process_event(&OpenCodeEvent::SessionIdle), None);
    assert_eq!(sm.current_state(), MascotState::Idle);
}

#[test]
fn unknown_events_are_ignored() {
    let mut sm = StateMachine::new();
    sm.process_event(&OpenCodeEvent::SessionBusy);
    let r = sm.process_event(&OpenCodeEvent::Unknown { event_type: "message.updated".to_string() });
    assert_eq!(r, None);
    assert_eq!(sm.current_state(), MascotState::Working);
}

#[test]
fn error_from_every_reachable_state() {
    let mut sm = StateMachine::new();
    assert_eq!(sm.process_event(&OpenCodeEvent::SessionError { message: None }), Some(MascotState::Error));
    assert_eq!(sm.process_event(&OpenCodeEvent::SessionError { message: None }), None);
    assert_eq!(sm.process_event(&OpenCodeEvent::SessionBusy), Some(MascotState::Working));
    assert_eq!(sm.process_event(&OpenCodeEvent::SessionError { message: None }), Some(MascotState::Error));
}

#[test]
fn done_to_working_again() {
    let mut sm = StateMachine::with_min_duration(Duration::from_secs(0));
    sm.process_event(&OpenCodeEvent::SessionBusy);
    sm.process_event(&OpenCodeEvent::SessionIdle);
    assert_eq!(sm.current_state(), MascotState::Done);
    assert_eq!(sm.process_event(&OpenCodeEvent::SessionBusy), Some(MascotState::Working));
}

#[test]
fn only_done_is_notified() {
    let sm = StateMachine::new();
    assert!(sm.should_notify(MascotState::Done));
    assert!(!sm.should_notify(MascotState::Idle));
    assert!(!sm.should_notify(MascotState::Working));
    assert!(!sm.should_notify(MascotState::Error));
    assert!(!sm.should_notify(MascotState::Attention));
}

#[test]
fn state_names() {
    assert_eq!(MascotState::Idle.name(), "Idle");
    assert_eq!(MascotState::Working.to_string(), "Working");
    assert_eq!(MascotState::Done.name(), "Done");
    assert_eq!(MascotState::Attention.name(), "Attention");
    assert_eq!(MascotState::Error.name(), "Error");
}

#[test]
fn transition_table() {
    assert_eq!(transition(MascotState::Working, &OpenCodeEvent::SessionIdle, true), MascotState::Done);
    assert_eq!(transition(MascotState::Working, &OpenCodeEvent::SessionIdle, false), MascotState::Idle);
    assert_eq!(transition(MascotState::Attention, &OpenCodeEvent::SessionBusy, false), MascotState::Attention);
    assert_eq!(transition(MascotState::Done, &OpenCodeEvent::SessionStreaming, false), MascotState::Working);
    assert_eq!(transition(MascotState::Idle, &OpenCodeEvent::SessionIdle, true), MascotState::Idle);
}

#[test]
fn attention_is_never_entered() {
    let states = [MascotState::Idle, MascotState::Working, MascotState::Done, MascotState::Error];
    let events = [
        OpenCodeEvent::SessionBusy,
        OpenCodeEvent::SessionStreaming,
        OpenCodeEvent::SessionIdle,
        OpenCodeEvent::SessionError { message: None },
        OpenCodeEvent::Unknown { event_type: "x".to_string() },
    ];
    for s in states {
        for e in &events {
            for long in [false, true] {
                assert_ne!(transition(s, e, long), MascotState::Attention);
                if !(s == MascotState::Working && *e == OpenCodeEvent::SessionIdle) {
                    assert_eq!(transition(s, e, true), transition(s, e, false));
                }
            }
        }
    }
}

#[test]
fn step_decides_by_elapsed_time() {
    let mut sm = StateMachine::with_min_duration(Duration::from_secs(10));
    assert_eq!(sm.step(&OpenCodeEvent::SessionBusy, None), Some(MascotState::Working));
    assert_eq!(sm.step(&OpenCodeEvent::SessionIdle, Some(10_000_000_000)), Some(MascotState::Done));
    sm.step(&OpenCodeEvent::SessionBusy, None);
    assert_eq!(sm.step(&OpenCodeEvent::SessionIdle, Some(9_999_999_999)), Some(MascotState::Idle));
    sm.step(&OpenCodeEvent::SessionBusy, None);
    assert_eq!(sm.step(&OpenCodeEvent::SessionIdle, None), Some(MascotState::Idle));
}

#[test]
fn default_minimum_is_ten_seconds() {
    let mut a = StateMachine::new();
    let mut b = StateMachine::with_min_duration(Duration::from_secs(10));
    for elapsed in [0u128, 9_999_999_999, 10_000_000_000, 20_000_000_000] {
        a.step(&OpenCodeEvent::SessionBusy, None);
        b.step(&OpenCodeEvent::SessionBusy, None);
        assert_eq!(
            a.step(&OpenCodeEvent::SessionIdle, Some(elapsed)),
            b.step(&OpenCodeEvent::SessionIdle, Some(elapsed))
        );
    }
}

fn spin_for(d: Duration) {
    let deadline = Instant::now() + d;
    while Instant::now() < deadline {
        std::hint::spin_loop();
    }
}

#[test]
fn work_period_is_timed_from_its_start() {
    let mut sm = StateMachine::with_min_duration(Duration::from_millis(120));
    assert_eq!(sm.process_event(&OpenCodeEvent::SessionBusy), Some(MascotState::Working));
    spin_for(Duration::from_millis(90));
    assert_eq!(sm.process_event(&OpenCodeEvent::SessionStreaming), None);
    assert_eq!(sm.process_event(&OpenCodeEvent::SessionBusy), None);
    spin_for(Duration::from_millis(60));
    // 150 ms since the period began, 60 ms since the last busy event.
    assert_eq!(sm.process_event(&OpenCodeEvent::SessionIdle), Some(MascotState::Done));
}

#[test]
fn timing_start_only_when_work_ends() {
    let mut sm = StateMachine::new();
    assert!(sm.timing_start(&OpenCodeEvent::SessionIdle).is_none());
    sm.process_event(&OpenCodeEvent::SessionBusy);
    assert!(sm.timing_start(&OpenCodeEvent::SessionIdle).is_some());
    assert!(sm.timing_start(&OpenCodeEvent::SessionBusy).is_none());
    assert!(sm.timing_start(&OpenCodeEvent::SessionError { message: None }).is_none());
}
