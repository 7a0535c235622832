use tokio::sync::mpsc;
use tunnix::crypto::Crypto;
use tunnix::envelope::{seal, EnvelopeError};
use tunnix::protocol::Message;
use tunnix::tunnel::{
    after_post, answer_of, connect_error, give_up_message, health_matches,
    health_url, new_session_id, post_result, read_reply, refusal_of, send_url, session_id_of,
    session_replaced, stream_url, Answer, AttemptEnd, Dispatch, DispatchStep, PostStep, Reconnect,
    ReconnectStep, Reserve, StreamAttempt, Tunnel, TunnelEvent, CONN_CHANNEL_CAPACITY,
};
use tunnix::uri::Uri;

type Sender = mpsc::Sender<TunnelEvent>;

/// A tunnel with its key, and what takes the place of the network: an event goes into the
/// queue of its connection at once or finds it full.
struct Client {
    crypto: Crypto,
    tunnel: Tunnel<Sender>,
    handed_off: Vec<(Sender, TunnelEvent)>,
}

impl Client {
    fn new(password: &str) -> Client {
        Client {
            crypto: Crypto::new(password).unwrap(),
            tunnel: Tunnel::new("test-session".to_string()),
            handed_off: Vec::new(),
        }
    }

    fn register_connection(&mut self, conn_id: u32) -> mpsc::Receiver<TunnelEvent> {
        let (tx, rx) = mpsc::channel(CONN_CHANNEL_CAPACITY);
        self.tunnel.register_connection(conn_id, tx);
        rx
    }

    fn frame(&self, msg: &Message) -> Vec<u8> {
        seal(&self.crypto, msg).unwrap()
    }

    fn handle_sse_message(&mut self, frame: &[u8]) {
        let dispatch = match self.tunnel.handle_sse_message(&self.crypto, frame) {
            Ok(d) => d,
            Err(_) => return,
        };
        if let Dispatch::Deliver { conn_id, event } = dispatch {
            let tx = match self.tunnel.channel(conn_id) {
                Some(tx) => tx.clone(),
                None => return,
            };
            let reserve = match tx.try_reserve() {
                Ok(_) => Reserve::Ready,
                Err(mpsc::error::TrySendError::Full(_)) => Reserve::Stalled,
                Err(mpsc::error::TrySendError::Closed(_)) => Reserve::Gone,
            };
            match self.tunnel.dispatch_event(conn_id, &event, reserve) {
                DispatchStep::Send => tx.try_send(event).unwrap(),
                DispatchStep::Ignore | DispatchStep::Drop => {}
                DispatchStep::HandOff => self.handed_off.push((tx, event)),
            }
        }
    }
}

#[test]
fn data_is_dispatched_to_the_registered_conn() {
    let mut client = Client::new("pw");
    let mut rx = client.register_connection(1);

    let frame = client.frame(&Message::Data { conn_id: 1, data: b"hello".to_vec() });
    client.handle_sse_message(&frame);

    match rx.try_recv() {
        Ok(TunnelEvent::Data(d)) => assert_eq!(d, b"hello"),
        other => panic!("expected Data event, got {:?}", other),
    }
}

#[test]
fn close_delivers_a_close_event() {
    let mut client = Client::new("pw");
    let mut rx = client.register_connection(7);

    let frame = client.frame(&Message::Close { conn_id: 7 });
    client.handle_sse_message(&frame);

    assert!(matches!(rx.try_recv(), Ok(TunnelEvent::Close)));
}

#[test]
fn exit_status_delivers_an_exit_event() {
    let mut client = Client::new("pw");
    let mut rx = client.register_connection(3);

    let frame = client.frame(&Message::ExitStatus { conn_id: 3, code: 42 });
    client.handle_sse_message(&frame);

    assert!(matches!(rx.try_recv(), Ok(TunnelEvent::Exit(42))));
}

#[test]
fn reset_clears_channels_and_closes_every_receiver() {
    let mut client = Client::new("pw");
    let mut rx1 = client.register_connection(1);
    let mut rx2 = client.register_connection(2);
    assert_eq!(client.tunnel.connections(), 2);

    let frame = client.frame(&Message::Reset);
    client.handle_sse_message(&frame);

    // The map is emptied...
    assert_eq!(client.tunnel.connections(), 0);
    // ...and each dropped sender closes its receiver.
    assert!(matches!(rx1.try_recv(), Err(mpsc::error::TryRecvError::Disconnected)));
    assert!(matches!(rx2.try_recv(), Err(mpsc::error::TryRecvError::Disconnected)));
}

#[test]
fn data_for_an_unknown_conn_is_a_silent_no_op() {
    let mut client = Client::new("pw");
    // No registration for conn 99: must not panic and must not register one.
    let frame = client.frame(&Message::Data { conn_id: 99, data: vec![1, 2, 3] });
    client.handle_sse_message(&frame);
    assert_eq!(client.tunnel.connections(), 0);
}

#[test]
fn undecryptable_frame_is_dropped_without_dispatch() {
    let mut client = Client::new("right-pw");
    let mut rx = client.register_connection(1);

    // Frame encrypted under a different key fails to decrypt and is ignored.
    let wrong = Crypto::new("wrong-pw").unwrap();
    let bytes = Message::Data { conn_id: 1, data: b"x".to_vec() }.to_bytes().unwrap();
    let frame = wrong.encrypt(&bytes).unwrap();
    client.handle_sse_message(&frame);

    assert!(rx.try_recv().is_err(), "nothing should have been delivered");
    let err = client.tunnel.handle_sse_message(&client.crypto, &frame).unwrap_err();
    assert_eq!(err, EnvelopeError::Undecryptable);
    let garbage = client.crypto.encrypt(&[77]).unwrap();
    let err = client.tunnel.handle_sse_message(&client.crypto, &garbage).unwrap_err();
    assert_eq!(err, EnvelopeError::Unreadable);
}

#[test]
fn a_stalled_consumer_cannot_wedge_the_dispatch_loop() {
    let mut client = Client::new("pw");
    // Held but never drained: this is the stalled local app.
    let _stalled = client.register_connection(1);
    let mut healthy = client.register_connection(2);

    // Fill the stalled connection's channel to capacity.
    let stalled_frame = client.frame(&Message::Data { conn_id: 1, data: vec![0u8; 8] });
    for _ in 0..CONN_CHANNEL_CAPACITY {
        client.handle_sse_message(&stalled_frame);
    }
    assert!(client.tunnel.channel(1).is_some());

    // The next send has nowhere to go. It must give up rather than park.
    client.handle_sse_message(&stalled_frame);

    // A wedged connection gets dropped, not carried forever.
    assert!(client.tunnel.channel(1).is_none(), "stalled connection should have been torn down");

    // The whole point: other connections still get served.
    let healthy_frame = client.frame(&Message::Data { conn_id: 2, data: b"fine".to_vec() });
    client.handle_sse_message(&healthy_frame);
    match healthy.try_recv() {
        Ok(TunnelEvent::Data(d)) => assert_eq!(d, b"fine"),
        other => panic!("expected Data on the healthy conn, got {:?}", other),
    }
}

#[test]
fn a_stalled_close_is_handed_off_rather_than_dropped() {
    let mut client = Client::new("pw");
    let mut rx = client.register_connection(1);

    // Fill the queue: the app has stopped reading mid-response.
    let data = client.frame(&Message::Data { conn_id: 1, data: vec![7u8; 8] });
    for _ in 0..CONN_CHANNEL_CAPACITY {
        client.handle_sse_message(&data);
    }

    // The Close has nowhere to go. Dispatch must neither park on it nor
    // drop the connection because of it.
    let close = client.frame(&Message::Close { conn_id: 1 });
    client.handle_sse_message(&close);
    assert!(
        client.tunnel.channel(1).is_some(),
        "a stalled Close should not tear the connection down"
    );
    assert_eq!(client.handed_off.len(), 1);

    // The app resumes reading: it gets its whole response, then the Close.
    for _ in 0..CONN_CHANNEL_CAPACITY {
        assert!(matches!(rx.try_recv(), Ok(TunnelEvent::Data(_))));
    }
    let (tx, event) = client.handed_off.pop().unwrap();
    tx.try_send(event).unwrap();
    client.tunnel.handed_off(1, true);
    assert!(client.tunnel.channel(1).is_some());
    assert!(
        matches!(rx.try_recv(), Ok(TunnelEvent::Close)),
        "the handed-off Close never arrived"
    );
}

#[test]
fn a_close_that_is_never_taken_costs_its_connection() {
    let mut t: Tunnel<u8> = Tunnel::new("s".to_string());
    t.register_connection(1, 10);
    t.register_connection(2, 20);
    t.handed_off(1, false);
    assert_eq!(t.channel(1), None);
    assert_eq!(t.channel(2), Some(&20));
}

#[test]
fn a_consumer_that_is_gone_is_ignored() {
    let mut client = Client::new("pw");
    drop(client.register_connection(1));
    let data = client.frame(&Message::Data { conn_id: 1, data: vec![7] });
    client.handle_sse_message(&data);
    assert_eq!(client.tunnel.connections(), 1);
}

#[test]
fn only_a_stall_drops_a_connection() {
    let mut t: Tunnel<u8> = Tunnel::new("s".to_string());
    t.register_connection(1, 10);
    t.register_connection(2, 20);
    let exit = TunnelEvent::Exit(0);
    assert_eq!(t.dispatch_event(1, &exit, Reserve::Ready), DispatchStep::Send);
    assert_eq!(t.dispatch_event(1, &TunnelEvent::Close, Reserve::Gone), DispatchStep::Ignore);
    assert_eq!(t.dispatch_event(1, &TunnelEvent::Close, Reserve::Stalled), DispatchStep::HandOff);
    assert_eq!(t.channel(1), Some(&10));
    assert_eq!(t.dispatch_event(1, &exit, Reserve::Stalled), DispatchStep::Drop);
    assert_eq!(t.channel(1), None);
    assert_eq!(t.channel(2), Some(&20));
}

#[test]
fn errors_go_to_the_connection_that_they_name() {
    let mut t: Tunnel<u8> = Tunnel::new("s".to_string());
    t.register_connection(4, 40);
    let named = Message::Error { conn_id: Some(4), message: "why".to_string() };
    match t.on_message(named) {
        Dispatch::Deliver { conn_id: 4, event: TunnelEvent::Error(m) } => assert_eq!(m, "why"),
        other => panic!("{:?}", other),
    }
    let unnamed = Message::Error { conn_id: None, message: "why".to_string() };
    assert!(matches!(t.on_message(unnamed), Dispatch::Nothing));
    assert!(matches!(t.on_message(Message::Pong), Dispatch::Nothing));
    assert!(matches!(t.on_message(Message::Abort { conn_id: 4 }), Dispatch::Nothing));
    assert!(matches!(t.on_message(Message::Reset), Dispatch::Reset { dropped: 1 }));
    assert!(t.channel(4).is_none());
}

#[test]
fn a_new_session_drops_all_connections() {
    let mut t: Tunnel<u8> = Tunnel::new("a".to_string());
    t.register_connection(1, 10);
    assert_eq!(t.channel(1), Some(&10));
    t.rotate("b".to_string());
    assert_eq!(t.session_id(), "b");
    assert_eq!(t.connections(), 0);
}

#[test]
fn session_ids_have_sixteen_digits() {
    assert_eq!(session_id_of(0), "0000000000000000");
    assert_eq!(session_id_of(0x0123_4567_89ab_cdef), "0123456789abcdef");
    let id = new_session_id();
    assert_eq!(id.len(), 16);
    assert!(id.chars().all(|c| c.is_ascii_hexdigit() && !c.is_ascii_uppercase()));
    assert_ne!(id, new_session_id());
    assert!(session_replaced("a", "b"));
    assert!(!session_replaced("a", "a"));
}

#[test]
fn addresses_of_a_session() {
    for base in ["https://h/tunnix", "https://h/tunnix/"] {
        let base = Uri::parse(base).unwrap();
        assert_eq!(stream_url(&base, "ab"), "https://h/tunnix/stream/ab");
        assert_eq!(send_url(&base, "ab"), "https://h/tunnix/send/ab");
        assert_eq!(health_url(&base), "https://h/tunnix/health");
    }
    let root = Uri::parse("http://h:80").unwrap();
    assert_eq!(stream_url(&root, "x"), "http://h:80/stream/x");
}

#[test]
fn the_health_text_may_have_white_space_around_it() {
    assert!(health_matches("ok\n", "ok"));
    assert!(health_matches(" ok ", "\tok\u{3000}"));
    assert!(!health_matches("okay", "ok"));
    assert!(!health_matches("", "ok"));
}

#[test]
fn the_first_stream_is_ready_with_its_first_message() {
    let mut first = StreamAttempt::new(false);
    assert!(!first.has_data());
    assert!(!first.on_event(false));
    assert!(first.has_data());
    assert!(!first.on_event(false));
    assert!(first.on_event(true));
    assert!(!first.on_event(true));
}

#[test]
fn a_later_stream_is_ready_with_anything() {
    let mut later = StreamAttempt::new(true);
    assert!(later.on_event(false));
    assert!(!later.on_event(true));
}

#[test]
fn test_client_exits_after_max_reconnect_attempts() {
    // reconnect_interval = 1, max_reconnect_attempts = 2
    let mut reconnect = Reconnect::new(1, Some(2));
    // The server goes away under a stream that had data.
    assert_eq!(reconnect.attempt_ended(AttemptEnd::Ended, true), ReconnectStep::After(1));
    assert_eq!(reconnect.attempt_ended(AttemptEnd::Failed, false), ReconnectStep::After(1));
    assert_eq!(reconnect.attempt_ended(AttemptEnd::Failed, false), ReconnectStep::GiveUp(2));
    let log = give_up_message(2);
    assert!(log.contains("giving up"));
    assert!(log.contains("2 consecutive attempt(s)"));
}

#[test]
fn test_healthy_reconnect_resets_the_budget() {
    // reconnect_interval = 1, max_reconnect_attempts = 3
    let mut reconnect = Reconnect::new(1, Some(3));
    // Bounce the server on the same port more times than the budget allows.
    for _bounce in 1..=4 {
        assert_eq!(reconnect.attempt_ended(AttemptEnd::Ended, true), ReconnectStep::After(1));
        assert_eq!(reconnect.attempt_ended(AttemptEnd::Failed, false), ReconnectStep::After(1));
    }
    assert_eq!(reconnect.attempt_ended(AttemptEnd::Failed, true), ReconnectStep::After(1));

    // Same client, server now gone for good: the budget still applies.
    assert_eq!(reconnect.attempt_ended(AttemptEnd::Failed, false), ReconnectStep::After(1));
    assert_eq!(reconnect.attempt_ended(AttemptEnd::Failed, false), ReconnectStep::After(1));
    assert_eq!(reconnect.attempt_ended(AttemptEnd::Failed, false), ReconnectStep::GiveUp(3));
    assert!(give_up_message(3).contains("3 consecutive attempt(s)"));
}

#[test]
fn without_a_budget_there_is_no_giving_up() {
    let mut reconnect = Reconnect::new(5, None);
    for _ in 0..100 {
        assert_eq!(reconnect.attempt_ended(AttemptEnd::Failed, false), ReconnectStep::After(5));
    }
    assert_eq!(reconnect.attempt_ended(AttemptEnd::Forced, true), ReconnectStep::Now);
    assert_eq!(reconnect.attempt_ended(AttemptEnd::Ended, false), ReconnectStep::After(1));
}

#[test]
fn a_message_is_handed_in_twice_at_most() {
    assert_eq!(after_post(false, true), PostStep::Done);
    assert_eq!(after_post(false, false), PostStep::ReconnectAndRetry);
    assert_eq!(after_post(true, true), PostStep::Done);
    assert_eq!(after_post(true, false), PostStep::Fail);
}

#[test]
fn replies_are_read_by_their_status() {
    assert_eq!(post_result(200, vec![]), Ok(None));
    assert_eq!(post_result(299, vec![1]), Ok(Some(vec![1])));
    assert_eq!(post_result(503, b"unknown session".to_vec()), Err(b"unknown session".to_vec()));
    assert_eq!(post_result(301, vec![]), Err(vec![]));

    let crypto = Crypto::new("k").unwrap();
    let sealed = seal(&crypto, &Message::Pong).unwrap();
    assert!(matches!(read_reply(&crypto, Some(sealed)), Ok(Some(Message::Pong))));
    assert!(matches!(read_reply(&crypto, Some(vec![])), Ok(None)));
    assert!(matches!(read_reply(&crypto, None), Ok(None)));
    let err = read_reply(&crypto, Some(b"decrypt error".to_vec())).unwrap_err();
    assert_eq!(err, EnvelopeError::Undecryptable);
}

#[test]
fn answers_to_a_request_for_a_connection() {
    let said = |a: Answer| connect_error(&a, "h", 80, "Pong");
    let ack = Message::Data { conn_id: 1, data: vec![] };
    assert_eq!(said(answer_of(Ok(Some(ack)))), None);
    let refused = Message::Error { conn_id: Some(1), message: "no route".to_string() };
    assert_eq!(
        said(answer_of(Ok(Some(refused)))).unwrap(),
        "server could not connect to h:80: no route"
    );
    let data = Message::Data { conn_id: 1, data: vec![1] };
    assert!(matches!(answer_of(Ok(Some(data))), Answer::Unexpected));
    assert_eq!(
        said(answer_of(Ok(Some(Message::Pong)))).unwrap(),
        "unexpected CONNECT response for h:80: Pong"
    );
    assert_eq!(said(answer_of(Ok(None))).unwrap(), "empty CONNECT response for h:80");
    assert_eq!(
        said(answer_of(Err("timeout".to_string()))).unwrap(),
        "CONNECT request for h:80 failed: timeout"
    );
}

#[test]
fn only_an_error_refuses_a_command() {
    let refused = Message::Error { conn_id: Some(1), message: "disabled".to_string() };
    assert_eq!(refusal_of(Some(refused)), Some("disabled".to_string()));
    assert_eq!(refusal_of(Some(Message::Data { conn_id: 1, data: vec![] })), None);
    assert_eq!(refusal_of(None), None);
}
