//! What the local ingest endpoint does with a payload from the opencode plugin:
//! the payload's event name becomes an `OpenCodeEvent`, the event drives the
//! state machine, and a change of state becomes a reaction (an event for the
//! frontend, and a notification when the mascot is done).
use crate::state_machine::{
    event_kind,
    worked_long_enough,
    next_state,
    state_name,
    EventKind,
    MascotState,
    OpenCodeEvent,
    StateMachine,
};
use crate::text::same_text;
use std::time::Instant;
use vstd::prelude::*;

verus! {

/// Default port for the local ingest server.
pub const DEFAULT_INGEST_PORT: u16 = 4097;

/// The name of the event that tells the frontend about a new state.
pub const STATE_CHANGE_EVENT: &'static str = "mascot-state-change";

/// The title of the notification sent when opencode is done.
pub const NOTIFICATION_TITLE: &'static str = "Perch";

/// The body of the notification sent when opencode is done.
pub const NOTIFICATION_BODY: &'static str = "opencode finished";

/// Payload sent by the perch-bridge opencode plugin.
pub struct IngestPayload {
    /// Event type from opencode (e.g. "session.idle", "session.busy")
    pub event: String,
    /// Optional data/message associated with the event
    pub data: Option<String>,
}

/// Event payload emitted to the frontend.
pub struct StateChangeEvent {
    /// The new mascot state (e.g. "Idle", "Working", "Done", "Error")
    pub state: String,
}

/// What the application does after an event changed the mascot's state.
pub struct Reaction {
    /// The state the mascot is now in.
    pub new_state: MascotState,
    /// The event to emit to the frontend.
    pub state_event: StateChangeEvent,
    /// Whether to fire the "opencode finished" notification.
    pub notify: bool,
}

/// The kind of event that an opencode event name stands for.
pub open spec fn name_kind(event_type: Seq<char>) -> EventKind {
    if event_type == "session.busy"@ || event_type == "session.working"@ {
        EventKind::Busy
    } else if event_type == "session.streaming"@ {
        EventKind::Streaming
    } else if event_type == "session.idle"@ {
        EventKind::Idle
    } else if event_type == "session.error"@ {
        EventKind::Error
    } else {
        EventKind::Other
    }
}

/// The characters of an optional string.
pub open spec fn opt_text(o: Option<String>) -> Option<Seq<char>> {
    match o {
        Some(s) => Some(s@),
        None => None,
    }
}

/// `event` is what the name `event_type` with the message `message` stands
/// for: its kind is the name's, an error carries `message`, and an unknown
/// event carries the name.
pub open spec fn is_event_for(
    event_type: Seq<char>,
    message: Option<Seq<char>>,
    event: OpenCodeEvent,
) -> bool {
    &&& event_kind(event) == name_kind(event_type)
    &&& (event matches OpenCodeEvent::SessionError { message: m } ==> opt_text(m) == message)
    &&& (event matches OpenCodeEvent::Unknown { event_type: t } ==> t@ == event_type)
}

/// The kind that an event name stands for.
pub fn kind_of_name(event_type: &str) -> (k: EventKind)
    ensures
        k == name_kind(event_type@),
{
    if same_text(event_type, "session.busy") || same_text(event_type, "session.working") {
        EventKind::Busy
    } else if same_text(event_type, "session.streaming") {
        EventKind::Streaming
    } else if same_text(event_type, "session.idle") {
        EventKind::Idle
    } else if same_text(event_type, "session.error") {
        EventKind::Error
    } else {
        EventKind::Other
    }
}

/// Parse an ingest event payload into an OpenCodeEvent.
pub fn parse_ingest_event(event_type: &str, data: Option<&str>) -> (e: OpenCodeEvent)
    ensures
        is_event_for(
            event_type@,
            match data {
                Some(d) => Some(d@),
                None => None,
            },
            e,
        ),
{
    match kind_of_name(event_type) {
        EventKind::Busy => OpenCodeEvent::SessionBusy,
        EventKind::Streaming => OpenCodeEvent::SessionStreaming,
        EventKind::Idle => OpenCodeEvent::SessionIdle,
        EventKind::Error => OpenCodeEvent::SessionError {
            message: match data {
                Some(d) => Some(d.to_owned()),
                None => None,
            },
        },
        EventKind::Other => OpenCodeEvent::Unknown { event_type: event_type.to_owned() },
    }
}

/// Drives the state machine with `event` and says what to do about it: nothing
/// when the state did not change, else emit the new state's name and notify
/// when the mascot is done.
pub fn react_to(machine: &mut StateMachine, event: &OpenCodeEvent) -> (r: Option<Reaction>)
    ensures
        exists|now: Instant|
            final(machine).state() == #[trigger] next_state(
                old(machine).state(),
                *event,
                worked_long_enough(old(machine).started(), now, old(machine).min_duration()),
            ),
        !(old(machine).state() == MascotState::Working && event is SessionIdle)
            ==> final(machine).state() == next_state(old(machine).state(), *event, false),
        old(machine).min_duration() == 0 ==> final(machine).state() == next_state(
            old(machine).state(),
            *event,
            true,
        ),
        final(machine).min_duration() == old(machine).min_duration(),
        final(machine).started().is_some() == (final(machine).state() == MascotState::Working),
        final(machine).state() != MascotState::Attention,
        old(machine).state() == MascotState::Working && final(machine).state()
            == MascotState::Working ==> final(machine).started() == old(machine).started(),
        r is Some <==> final(machine).state() != old(machine).state(),
        r matches Some(x) ==> {
            &&& x.new_state == final(machine).state()
            &&& x.state_event.state@ == state_name(final(machine).state())
            &&& x.notify == (final(machine).state() == MascotState::Done)
        },
{
    match machine.process_event(event) {
        Some(new_state) => {
            let state_event = StateChangeEvent { state: new_state.to_string() };
            let notify = machine.should_notify(new_state);
            Some(Reaction { new_state, state_event, notify })
        },
        None => None,
    }
}

/// Handle incoming event from the perch-bridge plugin: parse the payload's
/// event, drive the state machine with it and say what to do about it.
pub fn handle_payload(machine: &mut StateMachine, payload: &IngestPayload) -> (r: Option<Reaction>)
    ensures
        exists|event: OpenCodeEvent|
            {
                &&& #[trigger] is_event_for(payload.event@, opt_text(payload.data), event)
                &&& exists|now: Instant|
                    final(machine).state() == #[trigger] next_state(
                        old(machine).state(),
                        event,
                        worked_long_enough(old(machine).started(), now, old(machine).min_duration()),
                    )
                &&& (!(old(machine).state() == MascotState::Working && event is SessionIdle)
                    ==> final(machine).state() == next_state(old(machine).state(), event, false))
                &&& (old(machine).min_duration() == 0 ==> final(machine).state() == next_state(
                    old(machine).state(),
                    event,
                    true,
                ))
            },
        final(machine).min_duration() == old(machine).min_duration(),
        final(machine).started().is_some() == (final(machine).state() == MascotState::Working),
        final(machine).state() != MascotState::Attention,
        old(machine).state() == MascotState::Working && final(machine).state()
            == MascotState::Working ==> final(machine).started() == old(machine).started(),
        r is Some <==> final(machine).state() != old(machine).state(),
        r matches Some(x) ==> {
            &&& x.new_state == final(machine).state()
            &&& x.state_event.state@ == state_name(final(machine).state())
            &&& x.notify == (final(machine).state() == MascotState::Done)
        },
{
    let data: Option<&str> = match &payload.data {
        Some(d) => Some(d.as_str()),
        None => None,
    };
    let event = parse_ingest_event(payload.event.as_str(), data);
    react_to(machine, &event)
}

/// Only the five session events are recognised: any other event name (such as
/// `message.updated`) is read as an unknown event that carries the name, with
/// whatever data comes with it, and such an event never moves the mascot.
pub proof fn law_other_names_are_unknown(
    event_type: Seq<char>,
    message: Option<Seq<char>>,
    event: OpenCodeEvent,
    state: MascotState,
    worked_long_enough: bool,
)
    requires
        event_type != "session.busy"@,
        event_type != "session.working"@,
        event_type != "session.streaming"@,
        event_type != "session.idle"@,
        event_type != "session.error"@,
        is_event_for(event_type, message, event),
    ensures
        name_kind(event_type) == EventKind::Other,
        event matches OpenCodeEvent::Unknown { event_type: t } && t@ == event_type,
        next_state(state, event, worked_long_enough) == state,
{
}

/// The five session events and what they stand for: `session.busy` and
/// `session.working` start work, `session.streaming` keeps it going,
/// `session.idle` ends it, and `session.error` reports an error.
pub proof fn law_session_names(message: Option<Seq<char>>, event: OpenCodeEvent)
    ensures
        is_event_for("session.busy"@, message, event) ==> event is SessionBusy,
        is_event_for("session.working"@, message, event) ==> event is SessionBusy,
        is_event_for("session.streaming"@, message, event) ==> event is SessionStreaming,
        is_event_for("session.idle"@, message, event) ==> event is SessionIdle,
        is_event_for("session.error"@, message, event) ==> (event matches OpenCodeEvent::SessionError {
            message: m,
        } && opt_text(m) == message),
{
    reveal_strlit("session.busy");
    reveal_strlit("session.working");
    reveal_strlit("session.streaming");
    reveal_strlit("session.idle");
    reveal_strlit("session.error");
    assert("session.idle"@[8] != "session.busy"@[8]);
    assert("session.streaming"@.len() != "session.busy"@.len());
    assert("session.streaming"@.len() != "session.working"@.len());
    assert("session.idle"@.len() != "session.working"@.len());
}

} // verus!
