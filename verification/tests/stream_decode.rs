use libopenai::decoder::decode_frame;
use libopenai::decoder::DecodedEvent;
use libopenai::stream::decode_chunks;
use libopenai::stream::EventStream;
use libopenai::stream::StreamStep;

#[test]
fn three_chunks_yield_two_payloads_then_end() {
    let chunks: Vec<Vec<u8>> = vec![
        b"data: {\"id\":1}\n\n".to_vec(),
        b"data: {\"id\":2}\n\nda".to_vec(),
        b"ta: [DONE]\n\n".to_vec(),
    ];
    let events = decode_chunks(&chunks);
    assert_eq!(events.len(), 3);
    assert_eq!(events[0], DecodedEvent::Payload(b"{\"id\":1}".to_vec()));
    assert_eq!(events[1], DecodedEvent::Payload(b"{\"id\":2}".to_vec()));
    assert_eq!(events[2], DecodedEvent::End);
}

#[test]
fn three_chunks_driven_by_hand() {
    let mut es = EventStream::new();
    assert_eq!(es.next_event(), StreamStep::NeedInput);
    es.feed(b"data: {\"id\":1}\n\n".to_vec());
    assert_eq!(
        es.next_event(),
        StreamStep::Event(DecodedEvent::Payload(b"{\"id\":1}".to_vec()))
    );
    assert_eq!(es.next_event(), StreamStep::NeedInput);
    es.feed(b"data: {\"id\":2}\n\nda".to_vec());
    assert_eq!(
        es.next_event(),
        StreamStep::Event(DecodedEvent::Payload(b"{\"id\":2}".to_vec()))
    );
    // the sentinel record is split across the chunk boundary
    assert_eq!(es.next_event(), StreamStep::NeedInput);
    es.feed(b"ta: [DONE]\n\n".to_vec());
    assert_eq!(es.next_event(), StreamStep::Event(DecodedEvent::End));
    assert!(es.is_finished());
}

#[test]
fn error_object_yields_protocol_error_and_ends() {
    let chunks = vec![b"{\"error\":{\"message\":\"rate limited\"}}\n\n".to_vec()];
    let events = decode_chunks(&chunks);
    assert_eq!(events.len(), 1);
    match &events[0] {
        DecodedEvent::ProtocolError(e) => {
            assert_eq!(e.message, "rate limited");
            assert_eq!(e.kind, "");
        }
        other => panic!("expected a protocol error, got {:?}", other),
    }
}

#[test]
fn error_shape_takes_precedence_over_payload() {
    // this frame is a well-formed JSON object either way; the error shape
    // must win and the message and kind must come through
    let ev = decode_frame(b"{\"error\":{\"message\":\"boom\",\"type\":\"server\"}}");
    match ev {
        DecodedEvent::ProtocolError(e) => {
            assert_eq!(e.message, "boom");
            assert_eq!(e.kind, "server");
        }
        other => panic!("expected a protocol error, got {:?}", other),
    }
}

#[test]
fn decode_frame_recognises_each_shape() {
    assert_eq!(
        decode_frame(b"data: {\"x\":1}"),
        DecodedEvent::Payload(b"{\"x\":1}".to_vec())
    );
    assert_eq!(decode_frame(b"data: [DONE]"), DecodedEvent::End);
    assert_eq!(decode_frame(b"data:[DONE]"), DecodedEvent::End);
    assert_eq!(decode_frame(b"data: [DONE] trailing"), DecodedEvent::End);
    assert_eq!(decode_frame(b"noise without prefix"), DecodedEvent::Malformed);
    assert_eq!(decode_frame(b"dat"), DecodedEvent::Malformed);
}

#[test]
fn reassembly_is_independent_of_chunk_boundaries() {
    let whole: Vec<u8> = b"data: {\"a\":1}\n\ndata: {\"a\":2}\n\ndata: [DONE]\n\n".to_vec();
    let as_one = decode_chunks(&vec![whole.clone()]);

    let mut byte_by_byte: Vec<Vec<u8>> = Vec::new();
    for b in whole.iter() {
        byte_by_byte.push(vec![*b]);
    }
    assert_eq!(decode_chunks(&byte_by_byte), as_one);

    // split exactly inside the blank-line delimiter
    let split_at = whole.iter().position(|&b| b == b'\n').unwrap() + 1;
    let two = vec![whole[..split_at].to_vec(), whole[split_at..].to_vec()];
    assert_eq!(decode_chunks(&two), as_one);
}

#[test]
fn payload_order_follows_record_order() {
    let mut text = String::new();
    for i in 1..=5 {
        text.push_str(&format!("data: {{\"seq\":{}}}\n\n", i));
    }
    let events = decode_chunks(&vec![text.into_bytes()]);
    assert_eq!(events.len(), 5);
    for i in 1..=5 {
        let expected = format!("{{\"seq\":{}}}", i).into_bytes();
        assert_eq!(events[i - 1], DecodedEvent::Payload(expected));
    }
}

#[test]
fn terminal_sentinel_stops_the_stream() {
    let mut es = EventStream::new();
    assert_eq!(es.next_event(), StreamStep::NeedInput);
    es.feed(b"data: [DONE]\n\ndata: {\"late\":1}\n\n".to_vec());
    assert_eq!(es.next_event(), StreamStep::Event(DecodedEvent::End));
    assert!(es.is_finished());
    // no further event and never another request for input
    assert_eq!(es.next_event(), StreamStep::Finished);
    assert_eq!(es.next_event(), StreamStep::Finished);
}

#[test]
fn whitespace_only_frames_are_skipped() {
    let chunks = vec![b"\n\n  \n\ndata: {\"k\":7}\n\n".to_vec()];
    let events = decode_chunks(&chunks);
    assert_eq!(events, vec![DecodedEvent::Payload(b"{\"k\":7}".to_vec())]);
}

#[test]
fn unterminated_final_record_is_flushed_once() {
    let mut es = EventStream::new();
    assert_eq!(es.next_event(), StreamStep::NeedInput);
    es.feed(b"data: {\"x\":9}".to_vec());
    assert_eq!(es.next_event(), StreamStep::NeedInput);
    es.close();
    assert_eq!(
        es.next_event(),
        StreamStep::Event(DecodedEvent::Payload(b"{\"x\":9}".to_vec()))
    );
    assert_eq!(es.next_event(), StreamStep::Finished);
}

#[test]
fn empty_input_finishes_without_events() {
    let events = decode_chunks(&Vec::new());
    assert!(events.is_empty());

    let mut es = EventStream::new();
    es.close();
    assert_eq!(es.next_event(), StreamStep::Finished);
}

#[test]
fn malformed_frame_is_reported_not_swallowed() {
    let chunks = vec![b"garbage record\n\n".to_vec()];
    let events = decode_chunks(&chunks);
    assert_eq!(events, vec![DecodedEvent::Malformed]);
}

#[test]
fn many_small_chunks_large_record() {
    // one large record arriving in many fragments must come out whole
    let mut body = String::from("data: {\"text\":\"");
    for _ in 0..200 {
        body.push_str("abcdefghij");
    }
    body.push_str("\"}");
    let whole = format!("{}\n\ndata: [DONE]\n\n", body).into_bytes();
    let mut pieces: Vec<Vec<u8>> = Vec::new();
    for part in whole.chunks(3) {
        pieces.push(part.to_vec());
    }
    let events = decode_chunks(&pieces);
    assert_eq!(events.len(), 2);
    let expected = body.as_bytes()[b"data: ".len()..].to_vec();
    assert_eq!(events[0], DecodedEvent::Payload(expected));
    assert_eq!(events[1], DecodedEvent::End);
}
