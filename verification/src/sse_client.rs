//! The server-sent-events side: a decoder that turns the bytes of opencode's
//! event stream into (event type, data) messages, and a session that feeds
//! those messages to the state machine and says how to react to each change.
use crate::ingest::{is_event_for, name_kind, react_to, Reaction};
use crate::state_machine::{worked_long_enough, next_state, next_state_on, state_name, MascotState, OpenCodeEvent, StateMachine};
use crate::text::{chars_of, has_prefix, string_of, trim, trim_bounds};
use std::time::Instant;
use vstd::prelude::*;
use vstd::utf8::{decode_utf8, encode_utf8, valid_utf8};

verus! {

/// Parse an SSE event into an OpenCodeEvent; an empty data field carries no
/// error message.
pub fn parse_sse_event(event_type: &str, data: &str) -> (e: OpenCodeEvent)
    ensures
        is_event_for(
            event_type@,
            if data@.len() == 0 {
                None
            } else {
                Some(data@)
            },
            e,
        ),
{
    match crate::ingest::kind_of_name(event_type) {
        crate::state_machine::EventKind::Busy => OpenCodeEvent::SessionBusy,
        crate::state_machine::EventKind::Streaming => OpenCodeEvent::SessionStreaming,
        crate::state_machine::EventKind::Idle => OpenCodeEvent::SessionIdle,
        crate::state_machine::EventKind::Error => {
            let message = if data.is_empty() {
                None
            } else {
                Some(data.to_owned())
            };
            OpenCodeEvent::SessionError { message }
        },
        crate::state_machine::EventKind::Other => OpenCodeEvent::Unknown {
            event_type: event_type.to_owned(),
        },
    }
}

/// How long to wait, in seconds, before connecting to the stream again: at
/// once after the stream closed cleanly, five seconds after an error.
pub fn reconnect_delay_secs(closed_cleanly: bool) -> (secs: u64)
    ensures
        secs == (if closed_cleanly {
            0u64
        } else {
            5u64
        }),
{
    if closed_cleanly {
        0
    } else {
        5
    }
}

/// A dispatched event of the stream.
pub struct SseMessage {
    /// The value of the event's `event:` field.
    pub event_type: String,
    /// The values of the event's `data:` fields, joined by newlines.
    pub data: String,
}

/// A message as characters: (event type, data).
pub open spec fn message_view(m: SseMessage) -> (Seq<char>, Seq<char>) {
    (m.event_type@, m.data@)
}

/// What the decoder holds between chunks: the unfinished line, and the event
/// type and data gathered for the event under way.
pub struct SseFields {
    pub line: Seq<char>,
    pub event_type: Seq<char>,
    pub data: Seq<char>,
}

/// Nothing gathered yet.
pub open spec fn empty_fields() -> SseFields {
    SseFields { line: seq![], event_type: seq![], data: seq![] }
}

/// The name of the field that sets the event type.
pub open spec fn event_field() -> Seq<char> {
    seq!['e', 'v', 'e', 'n', 't', ':']
}

/// The name of the field that adds a line of data.
pub open spec fn data_field() -> Seq<char> {
    seq!['d', 'a', 't', 'a', ':']
}

/// The effect of one complete line `raw` (without its newline) on `f`, and the
/// messages it dispatches. The line is trimmed first. A blank line ends the
/// event: it is dispatched if it has a type, and the type and data are
/// cleared. `event:` sets the type, `data:` adds a line to the data, and any
/// other line (`id:`, `retry:`, comments) is ignored.
pub open spec fn apply_line(f: SseFields, raw: Seq<char>) -> (SseFields, Seq<(Seq<char>, Seq<char>)>) {
    let t = trim(raw);
    if t.len() == 0 {
        (
            empty_fields(),
            if f.event_type.len() > 0 {
                seq![(f.event_type, f.data)]
            } else {
                seq![]
            },
        )
    } else if event_field().is_prefix_of(t) {
        (SseFields { line: seq![], event_type: trim(t.skip(6)), data: f.data }, seq![])
    } else if data_field().is_prefix_of(t) {
        let d = trim(t.skip(5));
        (
            SseFields {
                line: seq![],
                event_type: f.event_type,
                data: if f.data.len() == 0 {
                    d
                } else {
                    f.data + seq!['\n'] + d
                },
            },
            seq![],
        )
    } else {
        (SseFields { line: seq![], event_type: f.event_type, data: f.data }, seq![])
    }
}

/// The effect of one character of the stream.
pub open spec fn feed_char(f: SseFields, c: char) -> (SseFields, Seq<(Seq<char>, Seq<char>)>) {
    if c == '\n' {
        apply_line(f, f.line)
    } else {
        (SseFields { line: f.line.push(c), event_type: f.event_type, data: f.data }, seq![])
    }
}

/// The effect of the text `s` of the stream, and the messages it dispatches.
pub open spec fn feed(f: SseFields, s: Seq<char>) -> (SseFields, Seq<(Seq<char>, Seq<char>)>)
    decreases s.len(),
{
    if s.len() == 0 {
        (f, seq![])
    } else {
        let (f1, m1) = feed(f, s.drop_last());
        let (f2, m2) = feed_char(f1, s.last());
        (f2, m1 + m2)
    }
}

/// The text that `String::from_utf8_lossy` makes of `bytes`.
pub uninterp spec fn utf8_lossy(bytes: Seq<u8>) -> Seq<char>;

/// Calls `String::from_utf8_lossy`: the result is named `utf8_lossy(bytes)`,
/// and for valid UTF-8 it is the text that the bytes encode (the function
/// returns the input as it is in that case).
#[verifier::external_body]
fn decode_lossy(bytes: &[u8]) -> (s: String)
    ensures
        s@ == utf8_lossy(bytes@),
        valid_utf8(bytes@) ==> s@ == decode_utf8(bytes@),
{
    String::from_utf8_lossy(bytes).into_owned()
}

/// Appends `src[lo..hi]` to `dst`.
fn extend_from_range(dst: &mut Vec<char>, src: &[char], lo: usize, hi: usize)
    requires
        lo <= hi <= src@.len(),
    ensures
        final(dst)@ == old(dst)@ + src@.subrange(lo as int, hi as int),
{
    let mut i = lo;
    while i < hi
        invariant
            lo <= i <= hi <= src@.len(),
            dst@ == old(dst)@ + src@.subrange(lo as int, i as int),
        decreases hi - i,
    {
        dst.push(src[i]);
        i = i + 1;
        assert(dst@ =~= old(dst)@ + src@.subrange(lo as int, i as int));
    }
}

/// Decodes opencode's server-sent-events stream.
pub struct SseDecoder {
    line: Vec<char>,
    event_type: Vec<char>,
    data: Vec<char>,
}

impl SseDecoder {
    /// What the decoder holds.
    pub closed spec fn fields(&self) -> SseFields {
        SseFields { line: self.line@, event_type: self.event_type@, data: self.data@ }
    }

    /// A decoder at the start of a stream.
    pub fn new() -> (d: Self)
        ensures
            d.fields() == empty_fields(),
    {
        SseDecoder { line: Vec::new(), event_type: Vec::new(), data: Vec::new() }
    }

    /// Handles the complete line held in `self.line`.
    fn finish_line(&mut self) -> (m: Option<SseMessage>)
        ensures
            final(self).fields() == apply_line(old(self).fields(), old(self).fields().line).0,
            (match m {
                Some(msg) => seq![message_view(msg)],
                None => seq![],
            }) == apply_line(old(self).fields(), old(self).fields().line).1,
    {
        let ghost f = self.fields();
        let (a, b) = trim_bounds(self.line.as_slice(), 0, self.line.len());
        assert(self.line@.subrange(0, self.line@.len() as int) =~= self.line@);
        let ghost t = trim(f.line);
        assert(t == self.line@.subrange(a as int, b as int));
        let event_prefix = vec!['e', 'v', 'e', 'n', 't', ':'];
        let data_prefix = vec!['d', 'a', 't', 'a', ':'];
        assert(event_prefix@ =~= event_field());
        assert(data_prefix@ =~= data_field());
        if a == b {
            let m = if self.event_type.len() > 0 {
                let event_type = string_of(self.event_type.as_slice(), 0, self.event_type.len());
                let data = string_of(self.data.as_slice(), 0, self.data.len());
                assert(self.event_type@.subrange(0, self.event_type@.len() as int) =~= self.event_type@);
                assert(self.data@.subrange(0, self.data@.len() as int) =~= self.data@);
                Some(SseMessage { event_type, data })
            } else {
                None
            };
            self.line = Vec::new();
            self.event_type = Vec::new();
            self.data = Vec::new();
            assert(self.fields() =~= empty_fields());
            m
        } else if has_prefix(self.line.as_slice(), a, b, event_prefix.as_slice()) {
            let (x, y) = trim_bounds(self.line.as_slice(), a + 6, b);
            assert(t.skip(6) =~= self.line@.subrange(a + 6, b as int));
            let mut event_type = Vec::new();
            extend_from_range(&mut event_type, self.line.as_slice(), x, y);
            assert(event_type@ =~= trim(t.skip(6)));
            self.event_type = event_type;
            self.line = Vec::new();
            None
        } else if has_prefix(self.line.as_slice(), a, b, data_prefix.as_slice()) {
            let (x, y) = trim_bounds(self.line.as_slice(), a + 5, b);
            assert(t.skip(5) =~= self.line@.subrange(a + 5, b as int));
            if self.data.len() > 0 {
                self.data.push('\n');
            }
            let mut line: Vec<char> = Vec::new();
            std::mem::swap(&mut line, &mut self.line);
            extend_from_range(&mut self.data, line.as_slice(), x, y);
            assert(self.data@ =~= (if f.data.len() == 0 {
                trim(t.skip(5))
            } else {
                f.data + seq!['\n'] + trim(t.skip(5))
            }));
            None
        } else {
            self.line = Vec::new();
            None
        }
    }

    /// Feeds the text `text` of the stream to the decoder and returns the
    /// events that it completes, in order.
    pub fn feed_text(&mut self, text: &str) -> (out: Vec<SseMessage>)
        ensures
            final(self).fields() == feed(old(self).fields(), text@).0,
            out@.map_values(|m: SseMessage| message_view(m)) == feed(old(self).fields(), text@).1,
    {
        let chars = chars_of(text);
        self.feed_chars(chars.as_slice())
    }

    /// Feeds the characters `chars` of the stream to the decoder.
    fn feed_chars(&mut self, chars: &[char]) -> (out: Vec<SseMessage>)
        ensures
            final(self).fields() == feed(old(self).fields(), chars@).0,
            out@.map_values(|m: SseMessage| message_view(m)) == feed(old(self).fields(), chars@).1,
    {
        let mut out: Vec<SseMessage> = Vec::new();
        let mut i: usize = 0;
        assert(chars@.take(0) =~= Seq::<char>::empty());
        while i < chars.len()
            invariant
                i <= chars@.len(),
                self.fields() == feed(old(self).fields(), chars@.take(i as int)).0,
                out@.map_values(|m: SseMessage| message_view(m)) == feed(
                    old(self).fields(),
                    chars@.take(i as int),
                ).1,
            decreases chars.len() - i,
        {
            let c = chars[i];
            let ghost before = out@.map_values(|m: SseMessage| message_view(m));
            assert(chars@.take(i + 1).drop_last() =~= chars@.take(i as int));
            if c == '\n' {
                match self.finish_line() {
                    Some(m) => {
                        out.push(m);
                        assert(out@.map_values(|m: SseMessage| message_view(m)) =~= before
                            + seq![message_view(m)]);
                    },
                    None => {
                        assert(before + seq![] =~= before);
                    },
                }
            } else {
                self.line.push(c);
                assert(before + seq![] =~= before);
            }
            i = i + 1;
        }
        assert(chars@.take(chars@.len() as int) =~= chars@);
        out
    }

    /// Feeds a chunk of bytes of the stream, decoded as `String::from_utf8_lossy`
    /// decodes it, and returns the events that it completes, in order.
    pub fn feed_bytes(&mut self, chunk: &[u8]) -> (out: Vec<SseMessage>)
        ensures
            final(self).fields() == feed(old(self).fields(), utf8_lossy(chunk@)).0,
            out@.map_values(|m: SseMessage| message_view(m)) == feed(
                old(self).fields(),
                utf8_lossy(chunk@),
            ).1,
            valid_utf8(chunk@) ==> utf8_lossy(chunk@) == decode_utf8(chunk@),
    {
        let text = decode_lossy(chunk);
        let chars = chars_of(text.as_str());
        self.feed_chars(chars.as_slice())
    }
}

/// What the messages `msgs` do to a machine in state `state` whose work period
/// (if any) started at `started`, when message `i` finds the clock reading
/// `nows[i]` and a work period that it starts begins at `starts[i]`: the
/// final state, the start of the work period then running, and each new state
/// in the order of the changes.
pub open spec fn run_messages(
    state: MascotState,
    started: Option<Instant>,
    msgs: Seq<(Seq<char>, Seq<char>)>,
    starts: Seq<Instant>,
    nows: Seq<Instant>,
    min: u128,
) -> (MascotState, Option<Instant>, Seq<MascotState>)
    decreases msgs.len(),
{
    if msgs.len() == 0 {
        (state, started, seq![])
    } else {
        let (s1, t1, changes) = run_messages(
            state,
            started,
            msgs.drop_last(),
            starts.drop_last(),
            nows.drop_last(),
            min,
        );
        let s2 = next_state_on(
            s1,
            name_kind(msgs.last().0),
            worked_long_enough(t1, nows.last(), min),
        );
        let t2 = if s2 == MascotState::Working {
            if s1 == MascotState::Working {
                t1
            } else {
                Some(starts.last())
            }
        } else {
            None
        };
        (
            s2,
            t2,
            if s2 != s1 {
                changes.push(s2)
            } else {
                changes
            },
        )
    }
}

/// Handles one chunk of opencode's event stream: decodes it, drives the state
/// machine with each event it completes, and returns the reactions to the
/// changes of state, in order.
pub fn handle_chunk(decoder: &mut SseDecoder, machine: &mut StateMachine, chunk: &[u8]) -> (out:
    Vec<Reaction>)
    ensures
        final(decoder).fields() == feed(old(decoder).fields(), utf8_lossy(chunk@)).0,
        valid_utf8(chunk@) ==> utf8_lossy(chunk@) == decode_utf8(chunk@),
        exists|starts: Seq<Instant>, nows: Seq<Instant>|
            #[trigger] run_messages(
                old(machine).state(),
                old(machine).started(),
                feed(old(decoder).fields(), utf8_lossy(chunk@)).1,
                starts,
                nows,
                old(machine).min_duration(),
            ) == (final(machine).state(), final(machine).started(), out@.map_values(
                |r: Reaction| r.new_state,
            )),
        forall|i: int|
            0 <= i < out@.len() ==> {
                &&& (#[trigger] out@[i]).notify == (out@[i].new_state == MascotState::Done)
                &&& out@[i].state_event.state@ == state_name(out@[i].new_state)
            },
        final(machine).min_duration() == old(machine).min_duration(),
        final(machine).started().is_some() == (final(machine).state() == MascotState::Working),
        final(machine).state() != MascotState::Attention,
{
    proof {
        use_type_invariant(&*machine);
        StateMachine::lemma_timer_matches_state(*machine);
    }
    let msgs = decoder.feed_bytes(chunk);
    let ghost mview = msgs@.map_values(|m: SseMessage| message_view(m));
    let ghost start = machine.state();
    let ghost start_timer = machine.started();
    let ghost min = machine.min_duration();
    let mut out: Vec<Reaction> = Vec::new();
    let ghost mut starts: Seq<Instant> = seq![];
    let ghost mut nows: Seq<Instant> = seq![];
    let mut j: usize = 0;
    assert(mview.take(0) =~= Seq::<(Seq<char>, Seq<char>)>::empty());
    while j < msgs.len()
        invariant
            j <= msgs@.len(),
            mview == msgs@.map_values(|m: SseMessage| message_view(m)),
            starts.len() == j,
            nows.len() == j,
            min == old(machine).min_duration(),
            run_messages(start, start_timer, mview.take(j as int), starts, nows, min) == (
                machine.state(),
                machine.started(),
                out@.map_values(|r: Reaction| r.new_state),
            ),
            forall|i: int|
                0 <= i < out@.len() ==> {
                    &&& (#[trigger] out@[i]).notify == (out@[i].new_state == MascotState::Done)
                    &&& out@[i].state_event.state@ == state_name(out@[i].new_state)
                },
            machine.min_duration() == old(machine).min_duration(),
            machine.started().is_some() == (machine.state() == MascotState::Working),
            machine.state() != MascotState::Attention,
        decreases msgs.len() - j,
    {
        let msg = &msgs[j];
        let event = parse_sse_event(msg.event_type.as_str(), msg.data.as_str());
        let ghost prev = machine.state();
        let ghost prev_timer = machine.started();
        let ghost before = out@.map_values(|r: Reaction| r.new_state);
        let r = react_to(machine, &event);
        let ghost now = choose|now: Instant|
            machine.state() == #[trigger] next_state(
                prev,
                event,
                worked_long_enough(prev_timer, now, min),
            );
        let ghost new_start: Instant = match machine.started() {
            Some(t) => t,
            None => vstd::pervasive::arbitrary(),
        };
        proof {
            let old_starts = starts;
            let old_nows = nows;
            starts = starts.push(new_start);
            nows = nows.push(now);
            assert(mview.take(j + 1).drop_last() =~= mview.take(j as int));
            assert(starts.drop_last() =~= old_starts);
            assert(nows.drop_last() =~= old_nows);
            assert(mview.take(j + 1).last() == message_view(msgs@[j as int]));
            assert(machine.state() == next_state_on(
                prev,
                name_kind(msg.event_type@),
                worked_long_enough(prev_timer, now, min),
            ));
        }
        match r {
            Some(x) => {
                out.push(x);
                assert(out@.map_values(|r: Reaction| r.new_state) =~= before.push(machine.state()));
            },
            None => {
                assert(out@.map_values(|r: Reaction| r.new_state) =~= before);
            },
        }
        j = j + 1;
    }
    assert(mview.take(msgs@.len() as int) =~= mview);
    out
}

/// How the stream is cut into chunks does not matter: feeding `a` and then `b`
/// leaves the decoder as feeding `a + b` does, and dispatches the same
/// messages in the same order.
pub proof fn law_chunking_does_not_matter(f: SseFields, a: Seq<char>, b: Seq<char>)
    ensures
        feed(f, a + b).0 == feed(feed(f, a).0, b).0,
        feed(f, a + b).1 == feed(f, a).1 + feed(feed(f, a).0, b).1,
    decreases b.len(),
{
    if b.len() == 0 {
        assert(a + b =~= a);
        assert(feed(f, a).1 + feed(feed(f, a).0, b).1 =~= feed(f, a).1);
    } else {
        law_chunking_does_not_matter(f, a, b.drop_last());
        assert((a + b).drop_last() =~= a + b.drop_last());
        assert((a + b).last() == b.last());
        let mid = feed(f, a);
        let (f1, m1) = feed(mid.0, b.drop_last());
        let (f2, m2) = feed_char(f1, b.last());
        assert(mid.1 + m1 + m2 =~= mid.1 + (m1 + m2));
    }
}

/// The stream and the ingest endpoint read an event name alike; an empty data
/// field on the stream counts as no message at the ingest endpoint.
pub proof fn law_stream_and_ingest_agree(
    event_type: Seq<char>,
    data: Seq<char>,
    from_stream: OpenCodeEvent,
    from_ingest: OpenCodeEvent,
)
    requires
        is_event_for(
            event_type,
            if data.len() == 0 {
                None
            } else {
                Some(data)
            },
            from_stream,
        ),
        is_event_for(
            event_type,
            if data.len() == 0 {
                None
            } else {
                Some(data)
            },
            from_ingest,
        ),
    ensures
        crate::state_machine::event_kind(from_stream) == crate::state_machine::event_kind(
            from_ingest,
        ),
        forall|state: MascotState, long: bool|
            next_state(state, from_stream, long) == next_state(state, from_ingest, long),
        from_stream matches OpenCodeEvent::SessionError { message: m } ==> from_ingest matches OpenCodeEvent::SessionError { message: n } && crate::ingest::opt_text(m) == crate::ingest::opt_text(n),
{
}

/// Encoding two texts one after the other gives the encoding of their concatenation.
proof fn lemma_encode_concat(x: Seq<char>, y: Seq<char>)
    ensures
        encode_utf8(x + y) == encode_utf8(x) + encode_utf8(y),
    decreases x.len(),
{
    if x.len() == 0 {
        assert(x + y =~= y);
        assert(encode_utf8(x) + encode_utf8(y) =~= encode_utf8(y));
    } else {
        lemma_encode_concat(x.drop_first(), y);
        assert((x + y).drop_first() =~= x.drop_first() + y);
        assert((x + y)[0] == x[0]);
        let e = vstd::utf8::encode_scalar(x[0] as u32);
        assert(e + (encode_utf8(x.drop_first()) + encode_utf8(y)) =~= (e + encode_utf8(
            x.drop_first(),
        )) + encode_utf8(y));
    }
}

/// Where the stream's bytes are cut does not matter either, as long as each
/// chunk is valid UTF-8 (ASCII chunks always are): the bytes `a + b` decode to
/// the text of `a` followed by that of `b`, so feeding the chunks one after the
/// other leaves the decoder as feeding them at once, with the same messages.
pub proof fn law_byte_chunking_does_not_matter(f: SseFields, a: Seq<u8>, b: Seq<u8>)
    requires
        valid_utf8(a),
        valid_utf8(b),
    ensures
        valid_utf8(a + b),
        decode_utf8(a + b) == decode_utf8(a) + decode_utf8(b),
        feed(f, decode_utf8(a + b)).0 == feed(feed(f, decode_utf8(a)).0, decode_utf8(b)).0,
        feed(f, decode_utf8(a + b)).1 == feed(f, decode_utf8(a)).1 + feed(
            feed(f, decode_utf8(a)).0,
            decode_utf8(b),
        ).1,
{
    broadcast use vstd::utf8::group_utf8_lib;

    let x = decode_utf8(a);
    let y = decode_utf8(b);
    lemma_encode_concat(x, y);
    assert(encode_utf8(x) == a);
    assert(encode_utf8(y) == b);
    assert(encode_utf8(x + y) == a + b);
    assert(decode_utf8(encode_utf8(x + y)) == x + y);
    law_chunking_does_not_matter(f, x, y);
}

/// Handling the messages of two chunks one after the other drives the machine
/// as handling all of them at once: the changes of the second run follow those
/// of the first.
pub proof fn law_runs_compose(
    state: MascotState,
    started: Option<Instant>,
    m1: Seq<(Seq<char>, Seq<char>)>,
    s1: Seq<Instant>,
    n1: Seq<Instant>,
    m2: Seq<(Seq<char>, Seq<char>)>,
    s2: Seq<Instant>,
    n2: Seq<Instant>,
    min: u128,
)
    requires
        s1.len() == m1.len(),
        n1.len() == m1.len(),
        s2.len() == m2.len(),
        n2.len() == m2.len(),
    ensures
        ({
            let first = run_messages(state, started, m1, s1, n1, min);
            let second = run_messages(first.0, first.1, m2, s2, n2, min);
            let whole = run_messages(state, started, m1 + m2, s1 + s2, n1 + n2, min);
            &&& whole.0 == second.0
            &&& whole.1 == second.1
            &&& whole.2 == first.2 + second.2
        }),
    decreases m2.len(),
{
    let first = run_messages(state, started, m1, s1, n1, min);
    if m2.len() == 0 {
        assert(m1 + m2 =~= m1);
        assert(s1 + s2 =~= s1);
        assert(n1 + n2 =~= n1);
        assert(first.2 + seq![] =~= first.2);
    } else {
        law_runs_compose(state, started, m1, s1, n1, m2.drop_last(), s2.drop_last(), n2.drop_last(), min);
        assert((m1 + m2).drop_last() =~= m1 + m2.drop_last());
        assert((s1 + s2).drop_last() =~= s1 + s2.drop_last());
        assert((n1 + n2).drop_last() =~= n1 + n2.drop_last());
        assert((m1 + m2).last() == m2.last());
        assert((s1 + s2).last() == s2.last());
        assert((n1 + n2).last() == n2.last());
        let mid = run_messages(first.0, first.1, m2.drop_last(), s2.drop_last(), n2.drop_last(), min);
        let st = next_state_on(mid.0, name_kind(m2.last().0), worked_long_enough(mid.1, n2.last(), min));
        assert((first.2 + mid.2).push(st) =~= first.2 + mid.2.push(st));
    }
}

/// Starting anywhere but `Attention`, no run of messages ever leads into
/// `Attention`, nor reports it as a new state.
pub proof fn law_runs_never_reach_attention(
    state: MascotState,
    started: Option<Instant>,
    msgs: Seq<(Seq<char>, Seq<char>)>,
    starts: Seq<Instant>,
    nows: Seq<Instant>,
    min: u128,
)
    requires
        state != MascotState::Attention,
    ensures
        run_messages(state, started, msgs, starts, nows, min).0 != MascotState::Attention,
        forall|i: int|
            0 <= i < run_messages(state, started, msgs, starts, nows, min).2.len()
                ==> #[trigger] run_messages(state, started, msgs, starts, nows, min).2[i]
                != MascotState::Attention,
    decreases msgs.len(),
{
    if msgs.len() > 0 {
        law_runs_never_reach_attention(
            state,
            started,
            msgs.drop_last(),
            starts.drop_last(),
            nows.drop_last(),
            min,
        );
    }
}

/// Handling the stream does not depend on where its bytes are cut into
/// chunks, as long as each chunk is valid UTF-8 (ASCII chunks always are):
/// handling `a` and then `b` dispatches the messages of `a + b`, and for the
/// same clock readings drives the machine through the same states and reports
/// the same changes as handling `a + b` at once.
pub proof fn law_stream_handling_ignores_byte_chunking(
    f: SseFields,
    a: Seq<u8>,
    b: Seq<u8>,
    state: MascotState,
    started: Option<Instant>,
    starts: Seq<Instant>,
    nows: Seq<Instant>,
    min: u128,
)
    requires
        valid_utf8(a),
        valid_utf8(b),
        starts.len() == feed(f, decode_utf8(a + b)).1.len(),
        nows.len() == feed(f, decode_utf8(a + b)).1.len(),
    ensures
        ({
            let (fa, ma) = feed(f, decode_utf8(a));
            let (fb, mb) = feed(fa, decode_utf8(b));
            let k = ma.len() as int;
            let first = run_messages(state, started, ma, starts.take(k), nows.take(k), min);
            let second = run_messages(
                first.0,
                first.1,
                mb,
                starts.skip(k),
                nows.skip(k),
                min,
            );
            let whole = run_messages(
                state,
                started,
                feed(f, decode_utf8(a + b)).1,
                starts,
                nows,
                min,
            );
            &&& feed(f, decode_utf8(a + b)).0 == fb
            &&& feed(f, decode_utf8(a + b)).1 == ma + mb
            &&& whole.0 == second.0
            &&& whole.1 == second.1
            &&& whole.2 == first.2 + second.2
        }),
{
    law_byte_chunking_does_not_matter(f, a, b);
    let (fa, ma) = feed(f, decode_utf8(a));
    let (fb, mb) = feed(fa, decode_utf8(b));
    let k = ma.len() as int;
    assert(starts.take(k) + starts.skip(k) =~= starts);
    assert(nows.take(k) + nows.skip(k) =~= nows);
    law_runs_compose(
        state,
        started,
        ma,
        starts.take(k),
        nows.take(k),
        mb,
        starts.skip(k),
        nows.skip(k),
        min,
    );
}

/// A blank line (nothing but whitespace) ends the event under way: whatever
/// the decoder held, afterwards it holds no partial line, no event type and no
/// data, so nothing of this event reaches the next one. The event is
/// dispatched with exactly the type and data gathered for it, if it has a type.
pub proof fn law_blank_line_ends_event(f: SseFields)
    requires
        trim(f.line).len() == 0,
    ensures
        feed_char(f, '\n').0.line.len() == 0,
        feed_char(f, '\n').0.event_type.len() == 0,
        feed_char(f, '\n').0.data.len() == 0,
        feed_char(f, '\n').1 == (if f.event_type.len() > 0 {
            seq![(f.event_type, f.data)]
        } else {
            Seq::<(Seq<char>, Seq<char>)>::empty()
        }),
{
}

/// Text that ends with an empty line leaves the decoder empty, whatever it
/// held before and whatever the text says: the next event starts from
/// nothing, so its data holds only its own `data:` lines.
pub proof fn law_event_end_leaves_decoder_empty(f: SseFields, s: Seq<char>)
    ensures
        feed(f, s + seq!['\n', '\n']).0.line.len() == 0,
        feed(f, s + seq!['\n', '\n']).0.event_type.len() == 0,
        feed(f, s + seq!['\n', '\n']).0.data.len() == 0,
{
    let t = s + seq!['\n', '\n'];
    let u = s + seq!['\n'];
    assert(t.drop_last() =~= u);
    assert(u.drop_last() =~= s);
    let g = feed(f, s).0;
    let h = feed_char(g, '\n').0;
    assert(feed(f, u).0 == h);
    assert(h.line.len() == 0);
    assert(trim(h.line).len() == 0);
    law_blank_line_ends_event(h);
}

/// Each message of the stream reports its own change of state: after one more
/// message, the changes reported are those before it and, when the message
/// moved the mascot to a new state (whichever state that is), that new state.
pub proof fn law_every_change_is_reported(
    state: MascotState,
    started: Option<Instant>,
    msgs: Seq<(Seq<char>, Seq<char>)>,
    msg: (Seq<char>, Seq<char>),
    starts: Seq<Instant>,
    start: Instant,
    nows: Seq<Instant>,
    now: Instant,
    min: u128,
)
    ensures
        ({
            let before = run_messages(state, started, msgs, starts, nows, min);
            let after = run_messages(
                state,
                started,
                msgs.push(msg),
                starts.push(start),
                nows.push(now),
                min,
            );
            after.2 == before.2 + (if after.0 != before.0 {
                seq![after.0]
            } else {
                Seq::<MascotState>::empty()
            })
        }),
{
    let before = run_messages(state, started, msgs, starts, nows, min);
    let after = run_messages(state, started, msgs.push(msg), starts.push(start), nows.push(now), min);
    assert(msgs.push(msg).drop_last() =~= msgs);
    assert(starts.push(start).drop_last() =~= starts);
    assert(nows.push(now).drop_last() =~= nows);
    if after.0 != before.0 {
        assert(before.2.push(after.0) =~= before.2 + seq![after.0]);
    } else {
        assert(before.2 + Seq::<MascotState>::empty() =~= before.2);
    }
}

/// The changes reported for a run of messages are the mascot's successive
/// states: each differs from the one before it (the first from the starting
/// state), and the last is the state the run ends in; when nothing is
/// reported, the run ends where it started.
pub proof fn law_reported_changes_follow_the_state(
    state: MascotState,
    started: Option<Instant>,
    msgs: Seq<(Seq<char>, Seq<char>)>,
    starts: Seq<Instant>,
    nows: Seq<Instant>,
    min: u128,
)
    ensures
        ({
            let r = run_messages(state, started, msgs, starts, nows, min);
            &&& r.2.len() == 0 ==> r.0 == state
            &&& r.2.len() > 0 ==> r.2.last() == r.0 && r.2[0] != state
            &&& forall|i: int| 0 < i < r.2.len() ==> #[trigger] r.2[i] != r.2[i - 1]
        }),
    decreases msgs.len(),
{
    if msgs.len() > 0 {
        law_reported_changes_follow_the_state(
            state,
            started,
            msgs.drop_last(),
            starts.drop_last(),
            nows.drop_last(),
            min,
        );
        let p = run_messages(state, started, msgs.drop_last(), starts.drop_last(), nows.drop_last(), min);
        let r = run_messages(state, started, msgs, starts, nows, min);
        if r.0 != p.0 {
            assert(r.2 == p.2.push(r.0));
            assert forall|i: int| 0 < i < r.2.len() implies #[trigger] r.2[i] != r.2[i - 1] by {
                if i < p.2.len() {
                    assert(r.2[i] == p.2[i]);
                    assert(r.2[i - 1] == p.2[i - 1]);
                }
            }
            if p.2.len() > 0 {
                assert(r.2[0] == p.2[0]);
            }
        }
    }
}

} // verus!
