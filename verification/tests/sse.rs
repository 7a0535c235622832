use tunnix::sse::{
    decode_payload, event, event_data, event_with, SseEvent, SseReader, KEEPALIVE, KEEPALIVE_SECS,
};
use tunnix::tunnel::SSE_READ_TIMEOUT_SECS;

fn payloads(events: &[SseEvent]) -> Vec<Vec<String>> {
    events.iter().map(|e| e.payloads.clone()).collect()
}

#[test]
fn events_carry_base64() {
    assert_eq!(event(b"hello"), "data: aGVsbG8=\n\n");
    assert_eq!(event(b""), "data: \n\n");
    assert_eq!(event_with("x"), "data: x\n\n");
    assert_eq!(decode_payload("aGVsbG8="), Some(b"hello".to_vec()));
    assert_eq!(decode_payload("not base64!"), None);
    assert_eq!(decode_payload("aGVsbG8"), None);
}

#[test]
fn a_stream_is_read_back() {
    let messages: Vec<Vec<u8>> = vec![vec![], vec![0], (0..=255).collect()];
    let mut stream = String::new();
    for m in &messages {
        stream.push_str(KEEPALIVE);
        stream.push_str(&event(m));
    }
    let mut reader = SseReader::new();
    let mut read = Vec::new();
    let mut comments: usize = 0;
    for e in reader.feed(stream.as_bytes()) {
        let data = event_data(&e);
        if data.is_empty() {
            comments += 1;
        }
        read.extend(data);
    }
    assert_eq!(read, messages);
    assert_eq!(comments, 3);
}

#[test]
fn cuts_do_not_matter() {
    let mut stream = String::new();
    for m in [&b"one"[..], b"two", b"three"] {
        stream.push_str(&event(m));
        stream.push_str(KEEPALIVE);
    }
    let whole = payloads(&SseReader::new().feed(stream.as_bytes()));
    for size in 1..stream.len() {
        let mut reader = SseReader::new();
        let mut read = Vec::new();
        for chunk in stream.as_bytes().chunks(size) {
            read.extend(payloads(&reader.feed(chunk)));
        }
        assert_eq!(read, whole);
    }
}

#[test]
fn an_event_is_complete_at_an_empty_line() {
    let mut reader = SseReader::new();
    assert!(reader.feed_text("data: a\n").is_empty());
    assert_eq!(payloads(&reader.feed_text("\ndata: b")), vec![vec!["a"]]);
    assert_eq!(payloads(&reader.feed_text("\n\n\n\n")), vec![vec!["b"], vec![]]);
}

#[test]
fn only_data_lines_count() {
    let mut reader = SseReader::new();
    let events = reader.feed_text("id: 7\ndata:  x \r\ndata:y\ndata: z\n: comment\n\n");
    assert_eq!(payloads(&events), vec![vec!["x", "z"]]);
}

#[test]
fn payloads_that_are_no_base64_are_left_out() {
    let e = SseEvent { payloads: vec!["!".to_string(), "AQ==".to_string(), "?".to_string()] };
    assert_eq!(event_data(&e), vec![vec![1u8]]);
}

#[test]
fn bytes_that_are_no_text_do_not_stop_the_stream() {
    let mut reader = SseReader::new();
    assert!(reader.feed(&[0xff, b'\n']).is_empty());
    let events = reader.feed(b"\ndata: AQ==\n\n");
    assert_eq!(payloads(&events), vec![vec![], vec!["AQ==".to_string()]]);
}

#[test]
fn two_comments_fit_into_the_read_timeout() {
    assert_eq!(SSE_READ_TIMEOUT_SECS, 2 * KEEPALIVE_SECS);
}
