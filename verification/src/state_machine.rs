//! The mascot state machine: opencode session events move the mascot between
//! idle, working, done and error, and a finished work period counts as "done"
//! (and earns a notification) only when it lasted at least a minimum duration.
use std::time::{Duration, Instant};
use vstd::prelude::*;

verus! {

#[verifier::external_type_specification]
#[verifier::external_body]
pub struct ExInstant(Instant);

/// Events parsed from opencode's event stream.
#[derive(Debug, Clone, PartialEq, Eq)]
pub enum OpenCodeEvent {
    /// Session started working (busy/streaming)
    SessionBusy,
    /// Session is streaming data
    SessionStreaming,
    /// Session went idle (finished working)
    SessionIdle,
    /// Session encountered an error
    SessionError { message: Option<String> },
    /// Unknown event type
    Unknown { event_type: String },
}

/// Mascot states for the companion.
#[derive(Debug, Clone, Copy, PartialEq, Eq, Structural)]
pub enum MascotState {
    /// Idle - waiting for opencode to start working
    Idle,
    /// Working - opencode is actively processing
    Working,
    /// Done - opencode just finished a task
    Done,
    /// Attention - needs user attention (e.g., error occurred)
    Attention,
    /// Error - something went wrong
    Error,
}

/// The name under which a state is shown and reported.
pub open spec fn state_name(s: MascotState) -> Seq<char> {
    match s {
        MascotState::Idle => "Idle"@,
        MascotState::Working => "Working"@,
        MascotState::Done => "Done"@,
        MascotState::Attention => "Attention"@,
        MascotState::Error => "Error"@,
    }
}

impl MascotState {
    /// The state's name, as it is shown to the user.
    pub fn name(&self) -> (r: &'static str)
        ensures
            r@ == state_name(*self),
    {
        match self {
            MascotState::Idle => "Idle",
            MascotState::Working => "Working",
            MascotState::Done => "Done",
            MascotState::Attention => "Attention",
            MascotState::Error => "Error",
        }
    }

    /// The state's name as an owned string.
    pub fn to_string(&self) -> (r: String)
        ensures
            r@ == state_name(*self),
    {
        self.name().to_owned()
    }
}

/// The kinds of event that the state machine tells apart.
#[derive(Debug, Clone, Copy, PartialEq, Eq, Structural)]
pub enum EventKind {
    Busy,
    Streaming,
    Idle,
    Error,
    Other,
}

/// The kind of an event.
pub open spec fn event_kind(event: OpenCodeEvent) -> EventKind {
    match event {
        OpenCodeEvent::SessionBusy => EventKind::Busy,
        OpenCodeEvent::SessionStreaming => EventKind::Streaming,
        OpenCodeEvent::SessionIdle => EventKind::Idle,
        OpenCodeEvent::SessionError { .. } => EventKind::Error,
        OpenCodeEvent::Unknown { .. } => EventKind::Other,
    }
}

/// The state that an event of kind `kind` leads to from `state`, where
/// `worked_long_enough` tells whether the current work period has lasted the
/// minimum duration.
pub open spec fn next_state_on(
    state: MascotState,
    kind: EventKind,
    worked_long_enough: bool,
) -> MascotState {
    match kind {
        EventKind::Busy | EventKind::Streaming => {
            if state == MascotState::Idle || state == MascotState::Done || state
                == MascotState::Error {
                MascotState::Working
            } else {
                state
            }
        },
        EventKind::Idle => {
            if state == MascotState::Working {
                if worked_long_enough {
                    MascotState::Done
                } else {
                    MascotState::Idle
                }
            } else {
                state
            }
        },
        EventKind::Error => MascotState::Error,
        EventKind::Other => state,
    }
}

/// The state that `event` leads to from `state`.
pub open spec fn next_state(
    state: MascotState,
    event: OpenCodeEvent,
    worked_long_enough: bool,
) -> MascotState {
    next_state_on(state, event_kind(event), worked_long_enough)
}

/// Computes `next_state`.
pub fn transition(state: MascotState, event: &OpenCodeEvent, worked_long_enough: bool) -> (r:
    MascotState)
    ensures
        r == next_state(state, *event, worked_long_enough),
{
    match event {
        OpenCodeEvent::SessionBusy | OpenCodeEvent::SessionStreaming => {
            if state == MascotState::Idle || state == MascotState::Done || state
                == MascotState::Error {
                MascotState::Working
            } else {
                state
            }
        },
        OpenCodeEvent::SessionIdle => {
            if state == MascotState::Working {
                if worked_long_enough {
                    MascotState::Done
                } else {
                    MascotState::Idle
                }
            } else {
                state
            }
        },
        OpenCodeEvent::SessionError { .. } => MascotState::Error,
        OpenCodeEvent::Unknown { .. } => state,
    }
}

/// The length of `d` in nanoseconds, as `Duration::as_nanos` gives it.
pub uninterp spec fn duration_nanos(d: Duration) -> u128;

/// Calls `Duration::as_nanos`; the result is named `duration_nanos(d)`.
#[verifier::external_body]
fn duration_as_nanos(d: Duration) -> (n: u128)
    ensures
        n == duration_nanos(d),
{
    d.as_nanos()
}

/// Calls `Instant::now`. The result is a reading of the monotonic clock, so
/// nothing is stated of it.
#[verifier::external_body]
fn instant_now() -> Instant {
    Instant::now()
}

/// The time from `earlier` to `later`, as `Instant::saturating_duration_since`
/// gives it (zero when `later` is the earlier one).
pub uninterp spec fn instant_gap(later: Instant, earlier: Instant) -> Duration;

/// Calls `Instant::saturating_duration_since`; the result is named
/// `instant_gap(later, earlier)`.
#[verifier::external_body]
fn duration_between(later: &Instant, earlier: &Instant) -> (d: Duration)
    ensures
        d == instant_gap(*later, *earlier),
{
    later.saturating_duration_since(*earlier)
}

/// `Duration::from_secs(secs)` lasts `secs` seconds, that is
/// `secs * 1_000_000_000` nanoseconds as `Duration::as_nanos` counts them.
pub assume_specification[ Duration::from_secs ](secs: u64) -> (d: Duration)
    ensures
        duration_nanos(d) == secs as int * 1_000_000_000,
;

/// Whether a work period of `elapsed_nanos` lasted the minimum `min_nanos`.
pub open spec fn lasted(elapsed_nanos: u128, min_nanos: u128) -> bool {
    elapsed_nanos >= min_nanos
}

/// Whether a work period that started at `started` has lasted the minimum
/// `min_nanos` when the clock reads `now` (never, when no period runs).
pub open spec fn worked_long_enough(started: Option<Instant>, now: Instant, min_nanos: u128) -> bool {
    match started {
        Some(start) => lasted(duration_nanos(instant_gap(now, start)), min_nanos),
        None => false,
    }
}

/// The default minimum working duration before a notification: ten seconds.
pub const DEFAULT_MIN_WORKING_NANOS: u128 = 10_000_000_000;

/// State machine that tracks mascot state based on opencode events.
pub struct StateMachine {
    current_state: MascotState,
    /// When the current working period started
    working_started: Option<Instant>,
    /// Minimum working duration before triggering notification, in nanoseconds
    min_working_nanos: u128,
}

impl StateMachine {
    /// The current state.
    pub closed spec fn state(&self) -> MascotState {
        self.current_state
    }

    /// When the current work period started, if one is running.
    pub closed spec fn started(&self) -> Option<Instant> {
        self.working_started
    }

    /// The minimum duration, in nanoseconds, of a work period that ends as `Done`.
    pub closed spec fn min_duration(&self) -> u128 {
        self.min_working_nanos
    }

    /// A work period is timed exactly while the mascot is working, and the
    /// mascot is never in `Attention`, which no event leads into.
    #[verifier::type_invariant]
    pub closed spec fn timer_runs_while_working(&self) -> bool {
        &&& self.working_started.is_some() == (self.current_state == MascotState::Working)
        &&& self.current_state != MascotState::Attention
    }

    /// Create a new state machine with default 10-second minimum working duration.
    pub fn new() -> (sm: Self)
        ensures
            sm.state() == MascotState::Idle,
            sm.started().is_none(),
            sm.min_duration() == DEFAULT_MIN_WORKING_NANOS,
    {
        Self::with_min_duration(Duration::from_secs(10))
    }

    /// Create a state machine with custom minimum working duration.
    pub fn with_min_duration(min_duration: Duration) -> (sm: Self)
        ensures
            sm.state() == MascotState::Idle,
            sm.started().is_none(),
            sm.min_duration() == duration_nanos(min_duration),
    {
        Self {
            current_state: MascotState::Idle,
            working_started: None,
            min_working_nanos: duration_as_nanos(min_duration),
        }
    }

    /// Process an event given how long the current work period has lasted
    /// (`elapsed_nanos`, `None` when that is not known): a working mascot that
    /// goes idle is done exactly when the period lasted the minimum duration.
    /// Returns the new state if it changed.
    pub fn step(&mut self, event: &OpenCodeEvent, elapsed_nanos: Option<u128>) -> (changed:
        Option<MascotState>)
        ensures
            final(self).state() == next_state(
                old(self).state(),
                *event,
                elapsed_nanos matches Some(e) && e >= old(self).min_duration(),
            ),
            final(self).min_duration() == old(self).min_duration(),
            final(self).started().is_some() == (final(self).state() == MascotState::Working),
            final(self).state() != MascotState::Attention,
            old(self).state() == MascotState::Working && final(self).state()
                == MascotState::Working ==> final(self).started() == old(self).started(),
            changed == (if final(self).state() != old(self).state() {
                Some(final(self).state())
            } else {
                None
            }),
    {
        proof {
            use_type_invariant(&*self);
        }
        let old_state = self.current_state;
        let worked_long_enough = match elapsed_nanos {
            Some(e) => e >= self.min_working_nanos,
            None => false,
        };
        let new_state = transition(old_state, event, worked_long_enough);
        let timer = if new_state == MascotState::Working {
            if old_state == MascotState::Working {
                self.working_started
            } else {
                Some(instant_now())
            }
        } else {
            None
        };
        let min = self.min_working_nanos;
        *self = StateMachine { current_state: new_state, working_started: timer, min_working_nanos: min };
        if new_state != old_state {
            Some(new_state)
        } else {
            None
        }
    }

    /// The start of the work period that `event` ends: the running period's
    /// start when a working mascot goes idle, and none otherwise.
    pub fn timing_start(&self, event: &OpenCodeEvent) -> (r: Option<Instant>)
        ensures
            r == (if self.state() == MascotState::Working && event is SessionIdle {
                self.started()
            } else {
                None
            }),
    {
        if self.current_state == MascotState::Working && matches!(event, OpenCodeEvent::SessionIdle) {
            self.working_started
        } else {
            None
        }
    }

    /// Process an event and return the new state.
    /// Returns Some(MascotState) if state changed, None otherwise.
    ///
    /// When a working mascot goes idle, the clock is read, and the work period
    /// counts from its start (`started()`, set when the mascot began working)
    /// to that reading: the outcome is that of `step` with this duration.
    pub fn process_event(&mut self, event: &OpenCodeEvent) -> (changed: Option<MascotState>)
        ensures
            exists|now: Instant|
                final(self).state() == #[trigger] next_state(
                    old(self).state(),
                    *event,
                    worked_long_enough(old(self).started(), now, old(self).min_duration()),
                ),
            !(old(self).state() == MascotState::Working && event is SessionIdle)
                ==> final(self).state() == next_state(old(self).state(), *event, false),
            old(self).min_duration() == 0 ==> final(self).state() == next_state(
                old(self).state(),
                *event,
                true,
            ),
            final(self).min_duration() == old(self).min_duration(),
            final(self).started().is_some() == (final(self).state() == MascotState::Working),
            final(self).state() != MascotState::Attention,
            old(self).state() == MascotState::Working && final(self).state()
                == MascotState::Working ==> final(self).started() == old(self).started(),
            changed == (if final(self).state() != old(self).state() {
                Some(final(self).state())
            } else {
                None
            }),
    {
        proof {
            use_type_invariant(&*self);
        }
        let ghost old_state = self.current_state;
        let ghost old_started = self.working_started;
        let ghost min = self.min_working_nanos;
        let start = self.timing_start(event);
        let ghost mut reading: Instant = vstd::pervasive::arbitrary();
        let elapsed_nanos = match start {
            Some(s) => {
                let now = instant_now();
                proof {
                    reading = now;
                }
                Some(duration_as_nanos(duration_between(&now, &s)))
            },
            None => None,
        };
        let r = self.step(event, elapsed_nanos);
        proof {
            assert(self.state() == next_state(
                old_state,
                *event,
                worked_long_enough(old_started, reading, min),
            ));
        }
        r
    }

    /// What the type invariant says, in terms of the machine's state.
    pub proof fn lemma_timer_matches_state(sm: StateMachine)
        requires
            sm.timer_runs_while_working(),
        ensures
            sm.started().is_some() == (sm.state() == MascotState::Working),
            sm.state() != MascotState::Attention,
    {
    }

    /// Get the current state.
    pub fn current_state(&self) -> (s: MascotState)
        ensures
            s == self.state(),
    {
        self.current_state
    }

    /// Check if we should fire a notification for the current state transition.
    pub fn should_notify(&self, new_state: MascotState) -> (r: bool)
        ensures
            r == (new_state == MascotState::Done),
    {
        new_state == MascotState::Done
    }
}

/// An error event moves the mascot to `Error` from every state.
pub proof fn law_error_from_any_state(
    state: MascotState,
    message: Option<String>,
    worked_long_enough: bool,
)
    ensures
        next_state(state, OpenCodeEvent::SessionError { message }, worked_long_enough)
            == MascotState::Error,
{
}

/// `session.busy` and `session.streaming` act alike: from `Idle`, `Done` or
/// `Error` they start a work period, and a working mascot keeps working.
pub proof fn law_busy_starts_work(state: MascotState, worked_long_enough: bool)
    ensures
        next_state(state, OpenCodeEvent::SessionBusy, worked_long_enough) == next_state(
            state,
            OpenCodeEvent::SessionStreaming,
            worked_long_enough,
        ),
        state == MascotState::Idle || state == MascotState::Done || state == MascotState::Error
            || state == MascotState::Working ==> next_state(
            state,
            OpenCodeEvent::SessionBusy,
            worked_long_enough,
        ) == MascotState::Working,
{
}

/// Going idle after working gives `Done` when the work lasted the minimum
/// duration and `Idle` otherwise; going idle while not working changes nothing.
pub proof fn law_idle_ends_work(state: MascotState, worked_long_enough: bool)
    ensures
        next_state(MascotState::Working, OpenCodeEvent::SessionIdle, worked_long_enough) == (if worked_long_enough {
            MascotState::Done
        } else {
            MascotState::Idle
        }),
        state != MascotState::Working ==> next_state(
            state,
            OpenCodeEvent::SessionIdle,
            worked_long_enough,
        ) == state,
{
}

/// An unknown event never changes the state.
pub proof fn law_unknown_is_ignored(
    state: MascotState,
    event_type: String,
    worked_long_enough: bool,
)
    ensures
        next_state(state, OpenCodeEvent::Unknown { event_type }, worked_long_enough) == state,
{
}

/// The mascot becomes `Done` (the state that is notified) only when a work
/// period that lasted the minimum duration ends with `session.idle`.
pub proof fn law_done_only_after_long_work(
    state: MascotState,
    event: OpenCodeEvent,
    worked_long_enough: bool,
)
    requires
        state != MascotState::Done,
        next_state(state, event, worked_long_enough) == MascotState::Done,
    ensures
        state == MascotState::Working,
        event is SessionIdle,
        worked_long_enough,
{
}

/// No event leads into `Attention`: it is only ever left, never entered.
pub proof fn law_attention_never_entered(
    state: MascotState,
    event: OpenCodeEvent,
    worked_long_enough: bool,
)
    requires
        next_state(state, event, worked_long_enough) == MascotState::Attention,
    ensures
        state == MascotState::Attention,
{
}

/// The length of the work period matters only when a working mascot goes idle.
pub proof fn law_duration_matters_only_when_work_ends(state: MascotState, event: OpenCodeEvent)
    requires
        !(state == MascotState::Working && event is SessionIdle),
    ensures
        next_state(state, event, true) == next_state(state, event, false),
{
}

/// Receiving the same event again right after it changes nothing, so the
/// second `process_event` reports no change.
pub proof fn law_repeated_event_changes_nothing(
    state: MascotState,
    event: OpenCodeEvent,
    first_long_enough: bool,
    second_long_enough: bool,
)
    ensures
        next_state(next_state(state, event, first_long_enough), event, second_long_enough)
            == next_state(state, event, first_long_enough),
{
}

/// The state that the events `events` lead to from `state`, one after the
/// other, where `long[i]` tells whether the work period had lasted the minimum
/// duration when event `i` came (one answer for each event).
pub open spec fn run_events(state: MascotState, events: Seq<OpenCodeEvent>, long: Seq<bool>) -> MascotState
    decreases events.len(),
{
    if events.len() == 0 {
        state
    } else {
        next_state(
            run_events(state, events.drop_last(), long.drop_last()),
            events.last(),
            long.last(),
        )
    }
}

/// Whatever events come, and however long each work period lasts, a mascot
/// that is not in `Attention` never gets there: not at the end of the run, and
/// not after any event of it.
pub proof fn law_event_runs_never_reach_attention(
    state: MascotState,
    events: Seq<OpenCodeEvent>,
    long: Seq<bool>,
)
    requires
        state != MascotState::Attention,
        long.len() == events.len(),
    ensures
        run_events(state, events, long) != MascotState::Attention,
        forall|n: int|
            0 <= n <= events.len() ==> #[trigger] run_events(
                state,
                events.take(n),
                long.take(n),
            ) != MascotState::Attention,
    decreases events.len(),
{
    if events.len() > 0 {
        law_event_runs_never_reach_attention(state, events.drop_last(), long.drop_last());
        assert forall|n: int| 0 <= n <= events.len() implies #[trigger] run_events(
            state,
            events.take(n),
            long.take(n),
        ) != MascotState::Attention by {
            if n < events.len() {
                assert(events.take(n) =~= events.drop_last().take(n));
                assert(long.take(n) =~= long.drop_last().take(n));
            } else {
                assert(events.take(n) =~= events);
                assert(long.take(n) =~= long);
            }
        }
    } else {
        assert forall|n: int| 0 <= n <= events.len() implies #[trigger] run_events(
            state,
            events.take(n),
            long.take(n),
        ) != MascotState::Attention by {
            assert(events.take(n) =~= events);
        }
    }
}

} // verus!
