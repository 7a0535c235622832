use tunnix::exec::{
    client_term, terminal_size, ExecAction, ExecError, ExecEvent, ExecSession,
};
use tunnix::protocol::Message;
use tunnix::pty_relay::{
    after_read, after_write, pty_chunk, IoNext, IoOutcome, PendingWrite, PtyAction, PtyEvent,
    PtyRelay,
};
use tunnix::tunnel::TunnelEvent;

#[test]
fn the_first_terminal_that_has_a_size_counts() {
    assert_eq!(terminal_size(&[(0, 0), (100, 0), (120, 40)]), (120, 40));
    assert_eq!(terminal_size(&[(80, 25), (120, 40)]), (80, 25));
    assert_eq!(terminal_size(&[]), (80, 24));
    assert_eq!(client_term(Some("vt100".to_string())), "vt100");
    assert_eq!(client_term(None), "xterm-256color");
}

#[test]
fn a_command_from_start_to_end() {
    let mut s = ExecSession::new(7);
    assert!(matches!(
        s.request(Some("ls".to_string()), 80, 24, "t".to_string()),
        Message::Exec { conn_id: 7, cmd: Some(_), cols: 80, rows: 24, .. }
    ));
    match s.on_event(ExecEvent::Input(b"abc".to_vec())) {
        ExecAction::SendInput(Message::Data { conn_id: 7, data }) => assert_eq!(data, b"abc"),
        other => panic!("{:?}", other),
    }
    assert!(matches!(
        s.on_event(ExecEvent::Resized { cols: 1, rows: 2 }),
        ExecAction::Send(Message::Resize { conn_id: 7, cols: 1, rows: 2 })
    ));
    // The line is open: it is ended before the end of input.
    match s.on_event(ExecEvent::InputEof) {
        ExecAction::Send(Message::Data { data, .. }) => assert_eq!(data, [b'\n', 4]),
        other => panic!("{:?}", other),
    }
    assert!(!s.input_open());
    assert!(matches!(s.on_event(ExecEvent::InputEof), ExecAction::Wait));
    assert!(matches!(
        s.on_event(ExecEvent::Event(TunnelEvent::Data(b"out".to_vec()))),
        ExecAction::Write(d) if d == b"out"
    ));
    assert!(matches!(s.on_event(ExecEvent::Written(true)), ExecAction::Wait));
    assert!(matches!(s.on_event(ExecEvent::Event(TunnelEvent::Exit(3))), ExecAction::Wait));
    assert!(matches!(
        s.on_event(ExecEvent::Event(TunnelEvent::Close)),
        ExecAction::End { result: Ok(3), flush: true }
    ));
    assert!(matches!(s.goodbye(), Message::Close { conn_id: 7 }));
    assert!(matches!(s.on_event(ExecEvent::Dropped), ExecAction::Wait));
}

#[test]
fn the_end_of_input_needs_no_line_end_on_an_empty_line() {
    let mut s = ExecSession::new(1);
    match s.on_event(ExecEvent::InputEof) {
        ExecAction::Send(Message::Data { data, .. }) => assert_eq!(data, [4]),
        other => panic!("{:?}", other),
    }
    let mut s = ExecSession::new(1);
    assert!(matches!(s.on_event(ExecEvent::Input(b"x\n".to_vec())), ExecAction::SendInput(_)));
    match s.on_event(ExecEvent::InputEof) {
        ExecAction::Send(Message::Data { data, .. }) => assert_eq!(data, [4]),
        other => panic!("{:?}", other),
    }
    let mut s = ExecSession::new(1);
    assert!(matches!(s.on_event(ExecEvent::InputFailed), ExecAction::Wait));
    assert!(!s.input_open());
}

#[test]
fn without_an_exit_code_there_is_no_success() {
    for event in [ExecEvent::Dropped, ExecEvent::Event(TunnelEvent::Close), ExecEvent::Written(false)] {
        let mut s = ExecSession::new(1);
        match s.on_event(event) {
            ExecAction::End { result: Err(e), flush: true } => assert_eq!(
                e.message(),
                "connection closed before the remote command reported an exit status"
            ),
            other => panic!("{:?}", other),
        }
    }
    let mut s = ExecSession::new(1);
    match s.on_event(ExecEvent::Event(TunnelEvent::Error("gone".to_string()))) {
        ExecAction::End { result: Err(e), flush: false } => assert_eq!(e.message(), "remote error: gone"),
        other => panic!("{:?}", other),
    }
    let mut s = ExecSession::new(1);
    match s.on_event(ExecEvent::SenderClosed) {
        ExecAction::End { result: Err(e), .. } => {
            assert!(matches!(e, ExecError::SenderClosed));
            assert_eq!(e.message(), "sender channel closed");
        }
        other => panic!("{:?}", other),
    }
}

// The server's end.

#[test]
fn a_terminal_reports_its_exit_code_and_closes() {
    let mut p = PtyRelay::new(5);
    assert!(matches!(
        p.on_event(PtyEvent::Resized { cols: 9, rows: 8 }),
        PtyAction::Resize { cols: 9, rows: 8 }
    ));
    assert!(matches!(p.on_event(PtyEvent::ChildExited(42)), PtyAction::Drain));
    assert_eq!(p.code(), 42);
    assert!(matches!(
        p.on_event(PtyEvent::Drained),
        PtyAction::Finish { message: Message::ExitStatus { conn_id: 5, code: 42 }, attempts: 50 }
    ));
    assert!(matches!(
        p.on_event(PtyEvent::Sent(true)),
        PtyAction::Send { message: Message::Close { conn_id: 5 }, attempts: 50 }
    ));
    assert!(matches!(p.on_event(PtyEvent::Sent(true)), PtyAction::End));
    assert!(matches!(p.on_event(PtyEvent::Sent(true)), PtyAction::Wait));
}

#[test]
fn a_client_that_left_has_its_command_killed() {
    for gone in [PtyEvent::WriterEnded, PtyEvent::SseDead] {
        let mut p = PtyRelay::new(5);
        assert!(!p.client_gone());
        assert!(matches!(p.on_event(gone), PtyAction::Kill));
        assert!(p.client_gone());
        assert!(matches!(p.on_event(PtyEvent::ChildExited(-1)), PtyAction::Drain));
        assert!(matches!(
            p.on_event(PtyEvent::DrainTimedOut),
            PtyAction::Finish { message: Message::ExitStatus { code: -1, .. }, attempts: 1 }
        ));
        // The exit code did not arrive, so there is no second message.
        assert!(matches!(p.on_event(PtyEvent::Sent(false)), PtyAction::End));
    }
}

#[test]
fn a_terminal_that_cannot_be_set_up_is_reported() {
    let mut p = PtyRelay::new(5);
    match p.on_event(PtyEvent::SetupFailed("no fd".to_string())) {
        PtyAction::Fail { message: Message::Error { conn_id: Some(5), message }, attempts: 50 } => {
            assert_eq!(message, "PTY setup failed: no fd")
        }
        other => panic!("{:?}", other),
    }
    assert!(matches!(p.on_event(PtyEvent::Sent(false)), PtyAction::End));
}

#[test]
fn reads_and_writes_go_on_or_stop() {
    assert_eq!(after_read(IoOutcome::Bytes(3)), IoNext::Took(3));
    assert_eq!(after_read(IoOutcome::Bytes(0)), IoNext::Stop);
    assert_eq!(after_read(IoOutcome::Interrupted), IoNext::Again);
    assert_eq!(after_read(IoOutcome::WouldBlock), IoNext::Again);
    assert_eq!(after_read(IoOutcome::Failed), IoNext::Stop);
    assert_eq!(after_write(IoOutcome::Bytes(0)), IoNext::Took(0));
    assert_eq!(after_write(IoOutcome::Failed), IoNext::Stop);
    assert_eq!(after_write(IoOutcome::WouldBlock), IoNext::Again);
}

#[test]
fn pending_bytes_are_written_in_pieces() {
    let mut w = PendingWrite::new(vec![1, 2, 3]);
    assert_eq!(w.rest(), &[1, 2, 3]);
    w.took(2);
    assert_eq!(w.rest(), &[3]);
    w.took(1);
    assert!(w.rest().is_empty());
    assert!(matches!(pty_chunk(2, vec![7]), Message::Data { conn_id: 2, data } if data == [7]));
}
