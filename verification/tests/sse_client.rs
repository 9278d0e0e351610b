use perch::ingest::parse_ingest_event;
use perch::sse_client::{handle_chunk, parse_sse_event, SseDecoder};
use perch::state_machine::{MascotState, OpenCodeEvent, StateMachine};
use std::time::Duration;

fn pairs(d: &mut SseDecoder, text: &str) -> Vec<(String, String)> {
    d.feed_text(text).into_iter().map(|m| (m.event_type, m.data)).collect()
}

#[test]
fn sse_event_names() {
    assert_eq!(parse_sse_event("session.busy", ""), OpenCodeEvent::SessionBusy);
    assert_eq!(parse_sse_event("session.working", ""), OpenCodeEvent::SessionBusy);
    assert_eq!(parse_sse_event("session.streaming", "x"), OpenCodeEvent::SessionStreaming);
    assert_eq!(parse_sse_event("session.idle", ""), OpenCodeEvent::SessionIdle);
    assert_eq!(parse_sse_event("session.error", ""), OpenCodeEvent::SessionError { message: None });
    assert_eq!(
        parse_sse_event("session.error", "oops"),
        OpenCodeEvent::SessionError { message: Some("oops".to_string()) }
    );
    assert_eq!(
        parse_sse_event("server.connected", "{}"),
        OpenCodeEvent::Unknown { event_type: "server.connected".to_string() }
    );
}

#[test]
fn one_complete_event() {
    let mut d = SseDecoder::new();
    assert_eq!(
        pairs(&mut d, "event: session.idle\ndata: {}\n\n"),
        vec![("session.idle".to_string(), "{}".to_string())]
    );
}

#[test]
fn data_lines_are_joined() {
    let mut d = SseDecoder::new();
    assert_eq!(
        pairs(&mut d, "event:x\ndata: a\ndata:b  \ndata:\n\n"),
        vec![("x".to_string(), "a\nb\n".to_string())]
    );
}

#[test]
fn empty_first_data_line_adds_no_newline() {
    let mut d = SseDecoder::new();
    assert_eq!(
        pairs(&mut d, "event: e\ndata:\ndata: z\n\n"),
        vec![("e".to_string(), "z".to_string())]
    );
}

#[test]
fn events_without_type_are_dropped() {
    let mut d = SseDecoder::new();
    assert!(pairs(&mut d, "data: lonely\n\n").is_empty());
    assert!(pairs(&mut d, "event:\ndata: x\n\n").is_empty());
    // the data of the dropped event does not leak into the next one
    assert_eq!(pairs(&mut d, "event: t\n\n"), vec![("t".to_string(), String::new())]);
}

#[test]
fn other_fields_are_ignored_and_lines_trimmed() {
    let mut d = SseDecoder::new();
    assert_eq!(
        pairs(&mut d, "  id: 7\r\nretry: 10\r\n event: session.busy \r\n: comment\r\n\r\n"),
        vec![("session.busy".to_string(), String::new())]
    );
}

#[test]
fn chunk_boundaries_do_not_matter() {
    let text = "event: session.busy\ndata: 1\n\nevent: session.idle\ndata: 2\n\n";
    let mut whole = SseDecoder::new();
    let expected = pairs(&mut whole, text);
    assert_eq!(expected.len(), 2);
    for cut in 0..text.len() {
        let mut d = SseDecoder::new();
        let mut got = pairs(&mut d, &text[..cut]);
        got.extend(pairs(&mut d, &text[cut..]));
        assert_eq!(got, expected, "cut at {}", cut);
    }
}

#[test]
fn unfinished_event_is_kept_for_the_next_chunk() {
    let mut d = SseDecoder::new();
    assert!(pairs(&mut d, "event: session.id").is_empty());
    assert!(pairs(&mut d, "le\n").is_empty());
    assert_eq!(pairs(&mut d, "\n"), vec![("session.idle".to_string(), String::new())]);
}

#[test]
fn bytes_are_decoded_lossily() {
    let mut d = SseDecoder::new();
    let msgs = d.feed_bytes(b"event: bad\xff\ndata: \xe2\x82\xac\n\n");
    assert_eq!(msgs.len(), 1);
    assert_eq!(msgs[0].event_type, "bad\u{fffd}");
    assert_eq!(msgs[0].data, "\u{20ac}");
}

#[test]
fn chunks_drive_the_machine() {
    let mut d = SseDecoder::new();
    let mut sm = StateMachine::with_min_duration(Duration::from_secs(0));
    let reactions = handle_chunk(
        &mut d,
        &mut sm,
        b"event: session.busy\n\nevent: session.streaming\n\nevent: session.idle\n\nevent: session.error\ndata: x\n\n",
    );
    let states: Vec<MascotState> = reactions.iter().map(|r| r.new_state).collect();
    assert_eq!(states, vec![MascotState::Working, MascotState::Done, MascotState::Error]);
    let notified: Vec<bool> = reactions.iter().map(|r| r.notify).collect();
    assert_eq!(notified, vec![false, true, false]);
    assert_eq!(reactions[1].state_event.state, "Done");
    assert_eq!(sm.current_state(), MascotState::Error);
}

#[test]
fn chunk_without_complete_event_does_nothing() {
    let mut d = SseDecoder::new();
    let mut sm = StateMachine::new();
    assert!(handle_chunk(&mut d, &mut sm, b"event: session.busy\n").is_empty());
    assert_eq!(sm.current_state(), MascotState::Idle);
    let r = handle_chunk(&mut d, &mut sm, b"\n");
    assert_eq!(r.len(), 1);
    assert_eq!(r[0].new_state, MascotState::Working);
}

#[test]
fn stream_and_ingest_read_names_alike() {
    let names = ["session.busy", "session.working", "session.streaming", "session.idle", "session.error", "other"];
    for name in names {
        for data in ["", "msg"] {
            let ingest_data = if data.is_empty() { None } else { Some(data) };
            assert_eq!(parse_sse_event(name, data), parse_ingest_event(name, ingest_data), "{} {:?}", name, data);
        }
    }
}

#[test]
fn reconnect_delays() {
    assert_eq!(perch::sse_client::reconnect_delay_secs(true), 0);
    assert_eq!(perch::sse_client::reconnect_delay_secs(false), 5);
}

#[test]
fn byte_chunks_split_anywhere_in_ascii() {
    let text: &[u8] = b"event: session.busy\n\nevent: session.idle\ndata: x\n\n";
    let mut whole = SseDecoder::new();
    let expected: Vec<(String, String)> =
        whole.feed_bytes(text).into_iter().map(|m| (m.event_type, m.data)).collect();
    for cut in 0..text.len() {
        let mut d = SseDecoder::new();
        let mut got: Vec<(String, String)> =
            d.feed_bytes(&text[..cut]).into_iter().map(|m| (m.event_type, m.data)).collect();
        got.extend(d.feed_bytes(&text[cut..]).into_iter().map(|m| (m.event_type, m.data)));
        assert_eq!(got, expected);
    }
}
