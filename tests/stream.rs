use trace_timeline::event_stream::{Error, EventStream, Input, Output, Progress};
use trace_timeline::frame::FrameDecoder;
use trace_timeline::grid::{EventChunk, EventType, Grid, TaskAction};

const WIRE: &str = "{\"timestamp\":{\"offset\":{\"nanos\":5}},\"events\":[{\"type\":\"task\",\"name\":\"ISR1\",\"action\":\"entered\"}]}\n{\"timestamp\":{\"offset\":{\"nanos\":15}},\"events\":[{\"type\":\"task\",\"name\":\"ISR1\",\"action\":\"exited\"}]}\n";

/// Reads one record of the wire format by hand.
fn parse_record(line: &str) -> Result<EventChunk, String> {
    let v: serde_json::Value = serde_json::from_str(line).map_err(|e| e.to_string())?;
    let nanos = v["timestamp"]["offset"]["nanos"].as_u64().ok_or("no timestamp")?;
    let secs = v["timestamp"]["offset"]["secs"].as_u64().unwrap_or(0);
    let mut events = Vec::new();
    for e in v["events"].as_array().ok_or("no events")? {
        let ev = match e["type"].as_str() {
            Some("task") => {
                let action = match e["action"].as_str() {
                    Some("entered") => TaskAction::Entered,
                    Some("exited") => TaskAction::Exited,
                    _ => TaskAction::Returned,
                };
                EventType::Task { name: e["name"].as_str().unwrap_or("").to_string(), action }
            }
            Some("overflow") => EventType::Overflow,
            _ => EventType::Invalid(e.to_string()),
        };
        events.push(ev);
    }
    Ok(EventChunk { timestamp_ns: secs * 1_000_000_000 + nanos, events })
}

/// Runs a session on the given reads, then a clean close, and returns the records it hands
/// out for decoding.
fn records_of(reads: Vec<Vec<u8>>) -> Vec<String> {
    let mut s = EventStream::new();
    s.step(Input::Setup(Ok(())));
    s.step(Input::Accepted(Ok("peer".to_string())));
    let mut out = Vec::new();
    for bytes in reads {
        match s.step(Input::Read(bytes)) {
            Output::Decode(line) => out.push(line),
            Output::Emit(Progress::Idle) => {}
            _ => panic!("unexpected output"),
        }
    }
    loop {
        match s.step(Input::Closed) {
            Output::Decode(line) => out.push(line),
            Output::Finished => return out,
            _ => panic!("unexpected output"),
        }
    }
}

#[test]
fn framing_ignores_chunk_boundaries() {
    let bytes = WIRE.as_bytes();
    let a = records_of(vec![bytes.to_vec()]);
    for size in [1usize, 2, 3, 7, 64] {
        let b = records_of(bytes.chunks(size).map(|c| c.to_vec()).collect());
        assert_eq!(a, b);
    }
    assert_eq!(a.len(), 2);
    assert!(a[0].starts_with('{') && a[0].ends_with('}'));
}

#[test]
fn close_hands_out_buffered_lines() {
    assert_eq!(
        records_of(vec![b"a\nb\nc".to_vec()]),
        vec!["a".to_string(), "b".to_string()]
    );
}

#[test]
fn one_record_per_chunk() {
    let mut d = FrameDecoder::new();
    assert_eq!(d.push(b"ab\ncd\nef"), Some("ab".to_string()));
    assert_eq!(d.push(b""), Some("cd".to_string()));
    assert_eq!(d.push(b""), None);
    assert_eq!(d.push(b"\n"), Some("ef".to_string()));
}

#[test]
fn empty_line_is_a_record() {
    let mut d = FrameDecoder::new();
    assert_eq!(d.push(b"\n"), Some(String::new()));
    assert!(parse_record("").is_err());
}

#[test]
fn ill_formed_bytes_become_replacement_chars() {
    let mut d = FrameDecoder::new();
    assert_eq!(d.push(&[b'a', 0xff, b'b', b'\n']), Some("a\u{fffd}b".to_string()));
}

#[test]
fn end_to_end_one_closed_span() {
    let mut s = EventStream::new();
    let mut g = Grid::new();
    assert!(matches!(s.step(Input::Setup(Ok(()))), Output::Emit(Progress::Initialized)));
    match s.step(Input::Accepted(Ok("peer".to_string()))) {
        Output::Emit(Progress::Connected(p)) => assert_eq!(p, "peer"),
        _ => panic!("not connected"),
    }
    let mut input = Input::Read(WIRE.as_bytes().to_vec());
    loop {
        match s.step(input) {
            Output::Decode(line) => g.add_chunk(parse_record(&line).expect("record parses")),
            Output::Emit(Progress::Idle) => {}
            Output::Finished => break,
            _ => panic!("unexpected output"),
        }
        input = Input::Closed;
    }
    assert!(matches!(s.step(Input::Read(vec![1])), Output::Finished));
    assert_eq!(g.span_count(), 1);
    let span = g.span(0);
    assert_eq!(span.start_ns, 5);
    assert_eq!(span.end_ns, Some(15));
    assert_eq!(span.name, "ISR1");
    assert_eq!(span.channel, 0);
    assert_eq!(g.open_count(), 0);
}

#[test]
fn setup_failure_ends_session() {
    let mut s = EventStream::new();
    match s.step(Input::Setup(Err(Error::TempDir("denied".to_string())))) {
        Output::Emit(Progress::Error(Error::TempDir(m))) => assert_eq!(m, "denied"),
        _ => panic!("expected a setup error"),
    }
    assert!(matches!(s.step(Input::Setup(Ok(()))), Output::Finished));
}

#[test]
fn accept_failure_ends_session() {
    let mut s = EventStream::new();
    s.step(Input::Setup(Ok(())));
    match s.step(Input::Accepted(Err("refused".to_string()))) {
        Output::Emit(Progress::Error(Error::Io(m))) => assert_eq!(m, "refused"),
        _ => panic!("expected an io error"),
    }
    assert!(matches!(s.step(Input::Closed), Output::Finished));
}

#[test]
fn read_failure_ends_session() {
    let mut s = EventStream::new();
    s.step(Input::Setup(Ok(())));
    s.step(Input::Accepted(Ok("p".to_string())));
    match s.step(Input::ReadFailed("reset".to_string())) {
        Output::Emit(Progress::Error(Error::Io(m))) => assert_eq!(m, "reset"),
        _ => panic!("expected an io error"),
    }
}

#[test]
fn decode_failure_carries_reason_and_text() {
    let mut s = EventStream::new();
    s.step(Input::Setup(Ok(())));
    s.step(Input::Accepted(Ok("p".to_string())));
    let line = match s.step(Input::Read(b"not json\n".to_vec())) {
        Output::Decode(l) => l,
        _ => panic!("expected a record"),
    };
    assert_eq!(line, "not json");
    let reason = parse_record(&line).err().expect("does not parse");
    match s.step(Input::DecodeFailed(reason.clone(), line.clone())) {
        Output::Emit(Progress::Error(Error::Serialize(r, t))) => {
            assert_eq!(r, reason);
            assert_eq!(t, "not json");
        }
        _ => panic!("expected a decode error"),
    }
    assert!(matches!(s.step(Input::Read(b"x\n".to_vec())), Output::Finished));
}

#[test]
fn partial_read_reports_idle() {
    let mut s = EventStream::new();
    s.step(Input::Setup(Ok(())));
    s.step(Input::Accepted(Ok("p".to_string())));
    assert!(matches!(s.step(Input::Read(b"{\"ti".to_vec())), Output::Emit(Progress::Idle)));
    assert!(matches!(s.step(Input::Closed), Output::Finished));
}

#[test]
fn out_of_order_input_is_ignored() {
    let mut s = EventStream::new();
    assert!(matches!(s.step(Input::Closed), Output::Emit(Progress::Idle)));
    assert!(matches!(s.step(Input::Setup(Ok(()))), Output::Emit(Progress::Initialized)));
}

#[test]
fn text_and_ascii_bytes_frame_alike() {
    let mut a = FrameDecoder::new();
    let mut b = FrameDecoder::new();
    let chars: Vec<char> = "x\u{e9}\ny".chars().collect();
    assert_eq!(a.push_text(&chars), Some("x\u{e9}".to_string()));
    assert_eq!(b.push("x\u{e9}\ny".as_bytes()), Some("x\u{e9}".to_string()));
    assert_eq!(a.push_text(&['\n']), Some("y".to_string()));
    assert_eq!(b.push(b"\n"), Some("y".to_string()));
}
