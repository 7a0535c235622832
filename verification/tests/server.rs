use tokio::sync::mpsc;
use tunnix::crypto::Crypto;
use tunnix::delivery::{
    Attempt, Delivery, Farewell, SseWatchdog, DISPATCH_STALL_MS, SEND_ATTEMPTS, SEND_PAUSE_MS,
    SEND_TIMEOUT_MS, SSE_DEAD_GRACE,
};
use tunnix::envelope::{open, seal, EnvelopeError};
use tunnix::protocol::Message;
use tunnix::server::{
    ack, bad_request_response, body_error_response, done_response, encrypted_response,
    exec_command, failure, failure_of, handle_send, health_response, not_found_response,
    ok_response, open_outcome, pong_response, read_message, receive, root_file, root_response, route,
    service_unavailable_response, stream_greeting, stream_headers, target_of,
    unknown_session_response, Action, Method, OpenStep, Route,
};
use tunnix::session::{Session, Sessions};
use tunnix::tcp_relay::{
    ReadAction, SinkEvent, TargetEvent, TargetReader, TargetWriter, WriteAction,
};
use tunnix::uri::Uri;

type Stream = mpsc::Sender<Vec<u8>>;
type TestSession = Session<&'static str, u32, (), Stream>;

/// Tries to put a message on the stream of the session until it is there, or the attempts
/// are used up. `between` runs between two attempts.
fn send_to_client(
    session: &mut TestSession,
    crypto: &Crypto,
    message: &Message,
    attempts: u32,
    mut between: impl FnMut(&mut TestSession, u32),
) -> bool {
    let sealed = seal(crypto, message).unwrap();
    let mut delivery = Delivery::new(attempts);
    let mut tries: u32 = 0;
    while delivery.may_try() {
        tries += 1;
        let sent = session.sse().try_send(sealed.clone()).is_ok();
        match delivery.tried(sent) {
            Attempt::Delivered => return true,
            Attempt::Retry => between(session, tries),
            Attempt::GiveUp => return false,
        }
    }
    false
}

/// The client is gone once the watchdog says so; at most a minute of ticks.
fn client_vanished(session: &TestSession) -> bool {
    let mut watchdog = SseWatchdog::new();
    for _ in 0..60 {
        if watchdog.tick(Some(session.sse().is_closed())) {
            return true;
        }
    }
    false
}

#[test]
fn terminal_close_survives_full_sse_queue() {
    const CONN_ID: u32 = 42;

    // Capacity-1 SSE channel, pre-filled so the queue is full and undrained.
    let (sse_tx, mut sse_rx) = mpsc::channel::<Vec<u8>>(1);
    sse_tx.try_send(b"already queued".to_vec()).unwrap();
    let crypto = Crypto::new("test-password").unwrap();
    let mut session: TestSession = Session::new(sse_tx);

    // Target that closes at once: the read half heads for the terminal Close.
    let mut reader = TargetReader::new(CONN_ID);
    let message = match reader.on_event(TargetEvent::Eof) {
        ReadAction::Send { message, attempts: SEND_ATTEMPTS, release: false } => message,
        other => panic!("{:?}", other),
    };

    // Stays full for several attempts, then drains.
    let delivered = send_to_client(&mut session, &crypto, &message, SEND_ATTEMPTS, |_, tries| {
        if tries == 3 {
            assert_eq!(sse_rx.try_recv().unwrap(), b"already queued".to_vec());
        }
    });
    assert!(delivered, "terminal Close was dropped instead of retried");

    let queued = sse_rx.try_recv().expect("SSE channel closed before the Close arrived");
    match open(&crypto, &queued).unwrap() {
        Message::Close { conn_id } => assert_eq!(conn_id, CONN_ID),
        other => panic!("expected Close, got {:?}", other),
    }
}

#[test]
fn write_side_gives_up_when_the_client_vanishes() {
    const CONN_ID: u32 = 44;

    // Client is gone: its SSE receiver is dropped, so sse_tx is closed.
    let (sse_tx, sse_rx) = mpsc::channel::<Vec<u8>>(16);
    drop(sse_rx);
    let crypto = Crypto::new("test-password").unwrap();
    let mut session: TestSession = Session::new(sse_tx);
    session.register_tcp(CONN_ID, "writer", 0);

    let mut reader = TargetReader::new(CONN_ID);
    let mut writer = TargetWriter::new(CONN_ID);
    let sent = match reader.on_event(TargetEvent::Eof) {
        ReadAction::Send { message, attempts, .. } => {
            send_to_client(&mut session, &crypto, &message, attempts, |_, _| {})
        }
        other => panic!("{:?}", other),
    };
    assert!(!sent);
    match reader.on_event(TargetEvent::Sent(false)) {
        ReadAction::End { release: true } => session.release_writer(CONN_ID),
        other => panic!("{:?}", other),
    }
    assert!(matches!(writer.on_event(SinkEvent::ReadEnded), WriteAction::Wait));
    // The writer is gone, so the half that waits for it sees the end.
    assert!(session.writer(CONN_ID).is_none());
    assert!(matches!(writer.on_event(SinkEvent::Closed), WriteAction::End));

    session.forget_tcp(CONN_ID);
    assert!(
        session.writer(CONN_ID).is_none(),
        "writer should have been cleaned up after teardown"
    );
}

#[test]
fn write_side_watchdog_starts_after_the_read_task_keeps_the_writer() {
    const CONN_ID: u32 = 46;

    let (sse_tx, mut sse_rx) = mpsc::channel::<Vec<u8>>(16);
    let crypto = Crypto::new("test-password").unwrap();
    let mut session: TestSession = Session::new(sse_tx);
    session.register_tcp(CONN_ID, "writer", 0);

    let mut reader = TargetReader::new(CONN_ID);
    let mut writer = TargetWriter::new(CONN_ID);
    let sent = match reader.on_event(TargetEvent::Eof) {
        ReadAction::Send { message, attempts, .. } => {
            send_to_client(&mut session, &crypto, &message, attempts, |_, _| {})
        }
        other => panic!("{:?}", other),
    };
    assert!(sent);
    assert!(matches!(
        reader.on_event(TargetEvent::Sent(true)),
        ReadAction::End { release: false }
    ));

    let queued = sse_rx.try_recv().expect("terminal Close never arrived");
    match open(&crypto, &queued).unwrap() {
        Message::Close { conn_id } => assert_eq!(conn_id, CONN_ID),
        other => panic!("expected Close, got {:?}", other),
    }
    assert!(
        session.writer(CONN_ID).is_some(),
        "the writer should outlive target-output EOF so an upload can finish"
    );

    // As long as the read side runs the watchdog is off.
    assert!(!writer.watches());
    assert!(matches!(writer.on_event(SinkEvent::SseDead), WriteAction::Wait));
    assert!(matches!(writer.on_event(SinkEvent::ReadEnded), WriteAction::Wait));
    assert!(writer.watches());

    // Now the client vanishes.
    assert!(!client_vanished(&session));
    drop(sse_rx);
    assert!(client_vanished(&session));
    assert!(
        matches!(writer.on_event(SinkEvent::SseDead), WriteAction::End),
        "write side parked: its watchdog never started after the read task ended"
    );
    session.forget_tcp(CONN_ID);
    assert!(
        session.writer(CONN_ID).is_none(),
        "writer should have been cleaned up after teardown"
    );
}

#[test]
fn read_side_gives_up_when_the_client_vanishes() {
    const CONN_ID: u32 = 45;

    let (sse_tx, sse_rx) = mpsc::channel::<Vec<u8>>(16);
    drop(sse_rx);
    let mut session: TestSession = Session::new(sse_tx);
    session.register_tcp(CONN_ID, "writer", 0);

    let mut reader = TargetReader::new(CONN_ID);
    assert!(client_vanished(&session));
    match reader.on_event(TargetEvent::SseDead) {
        ReadAction::Send {
            message: Message::Error { conn_id: Some(CONN_ID), message },
            attempts: 1,
            release: true,
        } => {
            assert_eq!(message, "client unreachable; target relay abandoned");
            session.release_writer(CONN_ID);
        }
        other => panic!("relay never finished: the read side blocked on an idle target: {:?}", other),
    }
    assert!(matches!(
        reader.on_event(TargetEvent::Sent(false)),
        ReadAction::End { release: false }
    ));
    assert!(
        session.writer(CONN_ID).is_none(),
        "writer should have been cleaned up after teardown"
    );
}

#[test]
fn terminal_close_follows_replaced_sse_channel() {
    const CONN_ID: u32 = 43;

    // The "old" stream: full and undrained, as a stalled client leaves it.
    let (old_tx, _old_rx) = mpsc::channel::<Vec<u8>>(1);
    old_tx.try_send(b"stale".to_vec()).unwrap();
    let crypto = Crypto::new("test-password").unwrap();
    let mut session: TestSession = Session::new(old_tx);

    // Client reconnects: a fresh channel while the relay is still trying to
    // deliver its Close to the old one.
    let (new_tx, mut new_rx) = mpsc::channel::<Vec<u8>>(16);
    let close = Message::Close { conn_id: CONN_ID };
    let mut fresh = Some(new_tx);
    let delivered = send_to_client(&mut session, &crypto, &close, SEND_ATTEMPTS, |s, tries| {
        if tries == 2 {
            s.attach(fresh.take().unwrap());
        }
    });
    assert!(delivered, "terminal Close never reached the reconnected stream");

    let queued = new_rx.try_recv().expect("SSE channel closed before the Close arrived");
    match open(&crypto, &queued).unwrap() {
        Message::Close { conn_id } => assert_eq!(conn_id, CONN_ID),
        other => panic!("expected Close, got {:?}", other),
    }
}

#[test]
fn the_sse_watchdog_never_strands_the_session_lock() {
    // Someone else holds the session on every tick: nothing fires, and the
    // session is never waited for.
    let mut watchdog = SseWatchdog::new();
    for _ in 0..5 {
        assert!(!watchdog.tick(None), "the stream is live; this must not fire");
    }
    // A contended session delays the watchdog and does not defeat it.
    for _ in 0..SSE_DEAD_GRACE - 1 {
        assert!(!watchdog.tick(Some(true)));
        assert!(!watchdog.tick(None));
    }
    assert!(watchdog.tick(Some(true)));
}

#[test]
fn an_abort_releases_a_target_that_is_still_sending() {
    const CONN_ID: u32 = 47;

    let (sse_tx, mut sse_rx) = mpsc::channel::<Vec<u8>>(16);
    let crypto = Crypto::new("test-password").unwrap();
    let mut session: TestSession = Session::new(sse_tx);
    session.register_tcp(CONN_ID, "writer", 99);

    // The response is flowing when the abort lands.
    let mut reader = TargetReader::new(CONN_ID);
    let chunk = vec![7u8; 65536];
    for _ in 0..3 {
        match reader.on_event(TargetEvent::Chunk(chunk.clone())) {
            ReadAction::Send { message, attempts, release: false } => {
                assert!(send_to_client(&mut session, &crypto, &message, attempts, |_, _| {}));
                sse_rx.try_recv().unwrap();
            }
            other => panic!("relay ended before the abort: {:?}", other),
        }
        assert!(matches!(reader.on_event(TargetEvent::Sent(true)), ReadAction::Wait));
    }

    let abort = Message::Abort { conn_id: CONN_ID };
    match handle_send(&mut session, abort, false, false) {
        Action::Stop { signal } => {
            assert_eq!(signal, Some(99), "abort signal was registered");
        }
        other => panic!("{:?}", other),
    }
    assert!(session.writer(CONN_ID).is_none());
    assert!(
        matches!(reader.on_event(TargetEvent::Aborted), ReadAction::End { release: true }),
        "relay kept pulling the target after the client aborted"
    );
    session.forget_tcp(CONN_ID);
    // The signal is gone: a second abort fires nothing.
    let again = Message::Abort { conn_id: CONN_ID };
    assert!(
        matches!(handle_send(&mut session, again, false, false), Action::Stop { signal: None }),
        "abort signal should be cleaned up"
    );
}

// Delivery.

#[test]
fn a_delivery_gives_up_after_its_attempts() {
    let (sse_tx, sse_rx) = mpsc::channel::<Vec<u8>>(1);
    drop(sse_rx);
    let crypto = Crypto::new("p").unwrap();
    let mut session: TestSession = Session::new(sse_tx);
    let mut pauses: u32 = 0;
    assert!(!send_to_client(&mut session, &crypto, &Message::Reset, 50, |_, _| pauses += 1));
    assert_eq!(pauses, 49);
    pauses = 0;
    assert!(!send_to_client(&mut session, &crypto, &Message::Reset, 1, |_, _| pauses += 1));
    assert_eq!(pauses, 0);
    assert!(!Delivery::new(0).may_try());
}

#[test]
fn the_delivery_budget_outlasts_a_stalled_consumer() {
    let attempts = SEND_ATTEMPTS as u64;
    let budget = attempts * SEND_TIMEOUT_MS + (attempts - 1) * SEND_PAUSE_MS;
    assert_eq!(budget, 29_900);
    assert!(budget > 5 * DISPATCH_STALL_MS);
}

#[test]
fn a_reconnect_resets_the_watchdog() {
    let mut watchdog = SseWatchdog::new();
    for _ in 0..5 {
        assert!(!watchdog.tick(Some(true)));
    }
    assert!(!watchdog.tick(Some(false)));
    for _ in 0..5 {
        assert!(!watchdog.tick(Some(true)));
    }
    assert!(watchdog.tick(Some(true)));
}

#[test]
fn last_messages_stop_at_the_first_loss() {
    let two = || vec![Message::ExitStatus { conn_id: 1, code: 0 }, Message::Close { conn_id: 1 }];
    let mut arrives = Farewell::new(two());
    assert!(matches!(arrives.current(), Some(Message::ExitStatus { .. })));
    assert!(arrives.sent(true));
    assert!(matches!(arrives.current(), Some(Message::Close { .. })));
    assert!(!arrives.sent(true));
    assert!(arrives.current().is_none());

    let mut lost = Farewell::new(two());
    assert!(!lost.sent(false));
    assert!(matches!(lost.current(), Some(Message::ExitStatus { .. })));
    assert!(Farewell::new(vec![]).current().is_none());
}

// Targets.

#[test]
fn a_target_that_fails_is_reported_as_such() {
    let mut reader = TargetReader::new(1);
    match reader.on_event(TargetEvent::Failed("reset by peer".to_string())) {
        ReadAction::Send {
            message: Message::Error { conn_id: Some(1), message },
            attempts: SEND_ATTEMPTS,
            release: true,
        } => assert_eq!(message, "target read failed: reset by peer"),
        other => panic!("{:?}", other),
    }
    assert!(matches!(
        reader.on_event(TargetEvent::Sent(true)),
        ReadAction::End { release: false }
    ));
    assert!(matches!(reader.on_event(TargetEvent::Eof), ReadAction::Wait));
}

#[test]
fn a_chunk_that_is_lost_abandons_the_target() {
    let mut reader = TargetReader::new(1);
    assert!(matches!(
        reader.on_event(TargetEvent::Chunk(vec![1])),
        ReadAction::Send { message: Message::Data { conn_id: 1, .. }, release: false, .. }
    ));
    assert!(matches!(
        reader.on_event(TargetEvent::Sent(false)),
        ReadAction::Send { message: Message::Error { .. }, attempts: 1, release: true }
    ));
}

#[test]
fn a_write_that_fails_is_reported() {
    let mut writer = TargetWriter::new(2);
    assert!(matches!(writer.on_event(SinkEvent::Data(vec![])), WriteAction::Wait));
    match writer.on_event(SinkEvent::Data(vec![1, 2])) {
        WriteAction::Write(data) => assert_eq!(data, vec![1, 2]),
        other => panic!("{:?}", other),
    }
    assert!(matches!(writer.on_event(SinkEvent::Written), WriteAction::Wait));
    assert!(matches!(writer.on_event(SinkEvent::Data(vec![3])), WriteAction::Write(_)));
    match writer.on_event(SinkEvent::WriteFailed("broken pipe".to_string())) {
        WriteAction::Report(Message::Error { conn_id: Some(2), message }) => {
            assert_eq!(message, "target write failed: broken pipe")
        }
        other => panic!("{:?}", other),
    }
    assert!(matches!(writer.on_event(SinkEvent::Sent(true)), WriteAction::End));
    assert!(matches!(writer.on_event(SinkEvent::Closed), WriteAction::End));
}

// Responses.

fn header(r: &[(String, String)], i: usize) -> (&str, &str) {
    (r[i].0.as_str(), r[i].1.as_str())
}

#[test]
fn plain_responses() {
    for (reply, status, body) in [
        (ok_response("hi"), 200, "hi"),
        (service_unavailable_response("later"), 503, "later"),
        (unknown_session_response(), 503, "unknown session"),
        (not_found_response(), 200, "not found"),
        (bad_request_response(), 200, "bad request"),
        (done_response(), 200, ""),
        (health_response("ok"), 200, "ok\n"),
        (body_error_response(EnvelopeError::Undecryptable), 200, "decrypt error"),
        (body_error_response(EnvelopeError::Unreadable), 200, "deserialize error"),
    ] {
        assert_eq!(reply.status, status);
        assert!(reply.headers.is_empty());
        assert_eq!(reply.body, body.as_bytes());
    }
}

#[test]
fn a_body_is_a_message_or_is_refused() {
    let ours = Crypto::new("secret").unwrap();
    let theirs = Crypto::new("another").unwrap();
    let body = seal(&ours, &Message::Close { conn_id: 9 }).unwrap();
    assert!(matches!(read_message(&ours, &body), Ok(Message::Close { conn_id: 9 })));

    let foreign = seal(&theirs, &Message::Ping).unwrap();
    let no_message = ours.encrypt(&[0xff; 8]).unwrap();
    for (body, answer) in [
        (&foreign[..], "decrypt error"),
        (&body[..20], "decrypt error"),
        (&[][..], "decrypt error"),
        (&no_message[..], "deserialize error"),
    ] {
        let reply = read_message(&ours, body).unwrap_err();
        assert_eq!(reply.status, 200);
        assert_eq!(reply.body, answer.as_bytes());
    }
}

#[test]
fn the_session_is_looked_up_before_the_body_is_opened() {
    let key = Crypto::new("secret").unwrap();
    let id = "0123456789abcdef";
    let mut sessions: Sessions<u8> = Sessions::new();
    let ping = seal(&key, &Message::Ping).unwrap();
    for body in [&[][..], &ping[..]] {
        let reply = receive(&sessions, id, &key, body).unwrap_err();
        assert_eq!((reply.status, &reply.body[..]), (503, &b"unknown session"[..]));
        assert!(sessions.get(id).is_none());
    }
    sessions.open("another", 6);
    sessions.open(id, 7);
    assert!(matches!(receive(&sessions, id, &key, &ping), Ok((7, Message::Ping))));
    let reply = receive(&sessions, id, &key, b"").unwrap_err();
    assert_eq!((reply.status, &reply.body[..]), (200, &b"decrypt error"[..]));
}

#[test]
fn the_root_redirects_or_shows_a_file_or_is_healthy() {
    let to = Uri::parse("https://example.com/docs?x").ok();
    let html = Some("/srv/index.html".to_string());
    assert_eq!(root_file(&to, &html), None);
    assert_eq!(root_file(&None, &html), Some("/srv/index.html"));
    assert_eq!(root_file(&None, &None), None);

    let redirect = root_response(&to, Some("<p>".to_string()), "ok");
    assert_eq!(redirect.status, 301);
    assert_eq!(header(&redirect.headers, 0), ("Location", "https://example.com/docs?x"));
    assert!(redirect.body.is_empty());
    let page = root_response(&None, Some("<p>\u{e9}".to_string()), "ok");
    assert_eq!(page.status, 200);
    assert_eq!(header(&page.headers, 0), ("Content-Type", "text/html; charset=utf-8"));
    assert_eq!(page.body, "<p>\u{e9}".as_bytes());
    let healthy = root_response(&None, None, "fine");
    assert_eq!(healthy.body, b"fine\n");
}

#[test]
fn streams_are_not_cached() {
    let headers = stream_headers();
    assert_eq!(header(&headers, 0), ("Content-Type", "text/event-stream"));
    assert_eq!(header(&headers, 1), ("Cache-Control", "no-cache"));
    assert_eq!(header(&headers, 2), ("Connection", "keep-alive"));
    assert_eq!(header(&headers, 3), ("X-Accel-Buffering", "no"));
    assert_eq!(headers.len(), 4);
}

#[test]
fn sealed_responses() {
    let crypto = Crypto::new("r").unwrap();
    let reply = encrypted_response(&crypto, &ack(3));
    assert_eq!(reply.status, 200);
    assert_eq!(header(&reply.headers, 0), ("Content-Type", "application/octet-stream"));
    assert!(matches!(
        open(&crypto, &reply.body).unwrap(),
        Message::Data { conn_id: 3, data } if data.is_empty()
    ));
    let pong = pong_response(&crypto);
    assert!(pong.headers.is_empty());
    assert!(matches!(open(&crypto, &pong.body).unwrap(), Message::Pong));
}

// Routing.

fn prefix(p: &str) -> Option<Uri> {
    Uri::parse(p).ok()
}

#[test]
fn routes_without_a_prefix() {
    let r = |m: Method, p: &str| route(&None, m, p);
    assert_eq!(r(Method::Get, "/"), Route::Root);
    assert_eq!(r(Method::Get, ""), Route::Root);
    assert_eq!(r(Method::Get, "/health"), Route::Health);
    assert_eq!(r(Method::Get, "/stream/ab12"), Route::Stream("ab12".to_string()));
    assert_eq!(r(Method::Post, "/send/ab12"), Route::Send("ab12".to_string()));
    assert_eq!(r(Method::Post, "/stream/ab12"), Route::NotFound);
    assert_eq!(r(Method::Get, "/send/ab12"), Route::NotFound);
    assert_eq!(r(Method::Post, "/health"), Route::NotFound);
    assert_eq!(r(Method::Other, "/"), Route::NotFound);
    assert_eq!(r(Method::Get, "/nope"), Route::NotFound);
    // Repeated fronts are all stripped.
    assert_eq!(r(Method::Get, "/stream//stream/x"), Route::Stream("x".to_string()));
}

#[test]
fn routes_below_a_prefix() {
    let p = prefix("/tunnix");
    let r = |m: Method, path: &str| route(&p, m, path);
    assert_eq!(r(Method::Get, "/tunnix"), Route::Root);
    assert_eq!(r(Method::Get, "/tunnix/"), Route::Root);
    assert_eq!(r(Method::Get, "/tunnix/health"), Route::Health);
    assert_eq!(r(Method::Get, "/tunnix/stream/1"), Route::Stream("1".to_string()));
    assert_eq!(r(Method::Post, "/tunnix/send/1"), Route::Send("1".to_string()));
    assert_eq!(r(Method::Get, "/stream/1"), Route::NotFound);
    assert_eq!(r(Method::Post, "/send/1"), Route::NotFound);
    // Probes do not know the prefix.
    assert_eq!(r(Method::Get, "/health"), Route::Health);
    assert_eq!(r(Method::Get, "/"), Route::Root);
}

// Messages.

fn session_with(conn_id: u32) -> TestSession {
    let (tx, _rx) = mpsc::channel(1);
    let mut session: TestSession = Session::new(tx);
    session.register_tcp(conn_id, "writer", 5);
    session
}

#[test]
fn messages_ask_for_actions() {
    let mut s = session_with(1);
    let connect = Message::Connect { conn_id: 2, host: "h".to_string(), port: 80 };
    assert!(matches!(
        handle_send(&mut s, connect, false, false),
        Action::Connect { conn_id: 2, port: 80, .. }
    ));
    let data = Message::Data { conn_id: 1, data: vec![9] };
    assert!(matches!(
        handle_send(&mut s, data, false, false),
        Action::Deliver { conn_id: 1, data } if data == vec![9]
    ));
    assert!(matches!(handle_send(&mut s, Message::Ping, false, false), Action::Pong));
    assert!(matches!(handle_send(&mut s, Message::Pong, false, false), Action::Done));
    let resize = Message::Resize { conn_id: 1, cols: 2, rows: 3 };
    assert!(matches!(
        handle_send(&mut s, resize, false, false),
        Action::Resize { conn_id: 1, cols: 2, rows: 3 }
    ));
    assert_eq!(s.writer(1), Some(&"writer"));
}

#[test]
fn a_close_ends_one_direction_only() {
    let mut s = session_with(1);
    s.register_tcp(2, "other", 6);
    assert!(matches!(
        handle_send(&mut s, Message::Close { conn_id: 1 }, false, false),
        Action::Done
    ));
    assert!(s.writer(1).is_none());
    assert_eq!(s.writer(2), Some(&"other"));
    // The signal that stops the connection is still there.
    assert_eq!(s.take_abort(1), Some(5));
    assert_eq!(s.take_abort(1), None);
}

#[test]
fn test_transfer_denied_when_disabled() {
    let mut s = session_with(1);
    let push = |_: ()| Message::Push { conn_id: 3, path: "/tmp".to_string() };
    let pull = |_: ()| Message::Pull { conn_id: 3, paths: vec!["/a".to_string()], level: 3 };
    for message in [push(()), pull(())] {
        match handle_send(&mut s, message, true, false) {
            Action::Answer(Message::Error { conn_id: Some(3), message }) => {
                assert_eq!(message, "file transfer is disabled on this server")
            }
            other => panic!("transfers should fail when they are disabled: {:?}", other),
        }
    }
    assert!(matches!(handle_send(&mut s, push(()), false, true), Action::Push { conn_id: 3, .. }));
    assert!(matches!(
        handle_send(&mut s, pull(()), false, true),
        Action::Pull { conn_id: 3, level: 3, .. }
    ));
}

#[test]
fn commands_are_denied_when_disabled() {
    let mut s = session_with(1);
    let exec = || Message::Exec { conn_id: 3, cmd: None, cols: 80, rows: 24, term: String::new() };
    match handle_send(&mut s, exec(), false, true) {
        Action::Answer(Message::Error { conn_id: Some(3), message }) => {
            assert_eq!(message, "remote exec is disabled on this server")
        }
        other => panic!("{:?}", other),
    }
    assert!(matches!(
        handle_send(&mut s, exec(), true, false),
        Action::Exec { conn_id: 3, cmd: None, cols: 80, rows: 24, .. }
    ));
}

#[test]
fn exactly_what_was_opened_is_registered() {
    let key = Crypto::new("secret").unwrap();
    let mut s = session_with(1);
    let refused = s.opened(2, Err((OpenStep::Connect, "refused".to_string())));
    let reply = encrypted_response(&key, &refused);
    assert_eq!(reply.status, 200);
    assert!(matches!(
        open(&key, &reply.body),
        Ok(Message::Error { conn_id: Some(2), message }) if message == "Connect failed: refused"
    ));
    assert_eq!(s.writer(2), None);
    assert_eq!(s.take_abort(2), None);

    let answer = s.opened(2, Ok(("target", 6)));
    let reply = encrypted_response(&key, &answer);
    assert!(matches!(
        open(&key, &reply.body),
        Ok(Message::Data { conn_id: 2, data }) if data.is_empty()
    ));
    assert_eq!((s.writer(1), s.writer(2)), (Some(&"writer"), Some(&"target")));
    assert_eq!(s.take_abort(2), Some(6));

    let failed = s.started(3, Err((OpenStep::Spawn, "no shell".to_string())));
    assert!(matches!(
        failed,
        Message::Error { conn_id: Some(3), message } if message == "spawn failed: no shell"
    ));
    assert_eq!((s.writer(3), s.resizer(3)), (None, None));
    assert!(matches!(
        s.started(3, Ok(("shell", ()))),
        Message::Data { conn_id: 3, data } if data.is_empty()
    ));
    assert_eq!((s.writer(3), s.resizer(3)), (Some(&"shell"), Some(&())));
    assert_eq!(s.take_abort(3), None);
}

#[test]
fn what_the_client_is_told() {
    assert!(matches!(failure(1, "x"), Message::Error { conn_id: Some(1), message } if message == "x"));
    assert!(matches!(
        failure_of(1, "a: ", "b"),
        Message::Error { conn_id: Some(1), message } if message == "a: b"
    ));
    assert!(matches!(open_outcome(4, None), Message::Data { conn_id: 4, data } if data.is_empty()));
    for (step, text) in [
        (OpenStep::Connect, "Connect failed: refused"),
        (OpenStep::OpenPty, "openpty failed: refused"),
        (OpenStep::Spawn, "spawn failed: refused"),
        (OpenStep::PtyWriter, "pty writer failed: refused"),
    ] {
        let told = open_outcome(4, Some((step, "refused".to_string())));
        assert!(matches!(told, Message::Error { conn_id: Some(4), message } if message == text));
    }
    assert_eq!(target_of("example.com", 443), "example.com:443");
    assert!(matches!(stream_greeting(true), Some(Message::Reset)));
    assert!(stream_greeting(false).is_none());
}

#[test]
fn commands_run_in_a_shell() {
    let c = exec_command(Some("ls | wc".to_string()), "/bin/zsh", "vt100");
    assert_eq!((c.program.as_str(), c.term.as_str()), ("/bin/sh", "vt100"));
    assert_eq!(c.args, ["-c", "ls | wc"]);
    let shell = exec_command(None, "/bin/zsh", "");
    assert_eq!((shell.program.as_str(), shell.term.as_str()), ("/bin/zsh", "xterm-256color"));
    assert!(shell.args.is_empty());
    assert_eq!(exec_command(None, "", "").program, "/bin/sh");
}

// Sessions.

#[test]
fn sessions_are_opened_once() {
    let mut sessions: Sessions<u8> = Sessions::new();
    assert!(sessions.get("a").is_none());
    assert!(sessions.open("a", 1));
    assert!(!sessions.open("a", 2));
    assert!(sessions.open("b", 3));
    assert_eq!(sessions.get("a"), Some(&1));
    assert_eq!(sessions.get("b"), Some(&3));
    assert!(sessions.get("c").is_none());
}

#[test]
fn sessions_hold_terminals_and_archives_too() {
    let mut s: Session<u8, u8, u8, u8> = Session::new(0);
    s.register_pty(1, 10, 20);
    s.register_push(2, 30);
    assert_eq!((s.writer(1), s.resizer(1)), (Some(&10), Some(&20)));
    assert_eq!((s.writer(2), s.resizer(2)), (Some(&30), None));
    assert_eq!(s.take_abort(2), None);
    s.forget_pty(1);
    assert_eq!((s.writer(1), s.resizer(1)), (None, None));
    s.attach(9);
    assert_eq!(s.sse(), &9);
}
