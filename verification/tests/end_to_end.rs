//! A client and a server with nothing between them but bytes: what the client hands in is a
//! sealed body, what the server sends is the text of a stream, cut anywhere.

use std::collections::VecDeque;
use tunnix::crypto::Crypto;
use tunnix::delivery::SEND_ATTEMPTS;
use tunnix::envelope::seal;
use tunnix::protocol::Message;
use tunnix::relay::{
    Download, DownloadAction, DownloadEvent, Upload, UploadAction, UploadEvent,
};
use tunnix::server::{
    handle_send, read_message, route, stream_greeting, Action, Method, Route,
};
use tunnix::session::Session;
use tunnix::sse::{event, event_data, SseReader, KEEPALIVE};
use tunnix::tcp_relay::{
    ReadAction, SinkEvent, TargetEvent, TargetReader, TargetWriter, WriteAction,
};
use tunnix::tunnel::{
    new_session_id, send_url, stream_url, Dispatch, StreamAttempt, Tunnel, TunnelEvent,
};
use tunnix::uri::Uri;

const CONN_ID: u32 = 11;
const RESPONSE_LEN: usize = 256 * 1024;
const UPLOAD_LEN: usize = 16 * 1024 * 1024;

struct World {
    client_key: Crypto,
    server_key: Crypto,
    // The application.
    got: Vec<u8>,
    clean_eof: bool,
    reset: bool,
    // The client.
    upload: Upload,
    download: Download,
    tunnel: Tunnel<()>,
    reader: SseReader,
    // The network.
    stream: VecDeque<u8>,
    cut: usize,
    // The server.
    session: Session<(), (), (), ()>,
    target_reader: TargetReader,
    target_writer: TargetWriter,
    // The target.
    target_got: Vec<u8>,
    target_eof: bool,
}

impl World {
    fn new(cut: usize) -> World {
        let mut session = Session::new(());
        session.register_tcp(CONN_ID, (), ());
        let mut tunnel = Tunnel::new(new_session_id());
        tunnel.register_connection(CONN_ID, ());
        World {
            client_key: Crypto::new("shared").unwrap(),
            server_key: Crypto::new("shared").unwrap(),
            got: Vec::new(),
            clean_eof: false,
            reset: false,
            upload: Upload::new(CONN_ID),
            download: Download::new(),
            tunnel,
            reader: SseReader::new(),
            stream: VecDeque::new(),
            cut,
            session,
            target_reader: TargetReader::new(CONN_ID),
            target_writer: TargetWriter::new(CONN_ID),
            target_got: Vec::new(),
            target_eof: false,
        }
    }

    // From the application to the target.

    fn app_sends(&mut self, data: &[u8]) {
        let action = self.upload.on_event(UploadEvent::Chunk(data.to_vec()));
        match action {
            UploadAction::Send(m) => self.post(&m),
            other => panic!("{:?}", other),
        }
        assert!(matches!(self.upload.on_event(UploadEvent::Sent(true)), UploadAction::Wait));
    }

    fn app_finishes(&mut self) {
        match self.upload.on_event(UploadEvent::Eof) {
            UploadAction::Finish { message, report, .. } => {
                if let Some(m) = message {
                    self.post(&m);
                }
                self.down(DownloadEvent::UploadEnded(report));
            }
            other => panic!("{:?}", other),
        }
    }

    fn post(&mut self, message: &Message) {
        let body = seal(&self.client_key, message).unwrap();
        let message = read_message(&self.server_key, &body).unwrap();
        match handle_send(&mut self.session, message, false, false) {
            Action::Deliver { conn_id, data } => {
                if self.session.writer(conn_id).is_some() {
                    match self.target_writer.on_event(SinkEvent::Data(data)) {
                        WriteAction::Write(data) => {
                            self.target_got.extend_from_slice(&data);
                            self.target_writer.on_event(SinkEvent::Written);
                        }
                        WriteAction::Wait => {}
                        other => panic!("{:?}", other),
                    }
                }
            }
            Action::Done | Action::Stop { .. } => {
                if self.session.writer(CONN_ID).is_none() {
                    assert!(matches!(
                        self.target_writer.on_event(SinkEvent::Closed),
                        WriteAction::End
                    ));
                    self.target_eof = true;
                }
            }
            other => panic!("{:?}", other),
        }
    }

    // From the target to the application.

    fn target_event(&mut self, e: TargetEvent) {
        match self.target_reader.on_event(e) {
            ReadAction::Send { message, attempts, release } => {
                assert_eq!(attempts, SEND_ATTEMPTS);
                if release {
                    self.session.release_writer(CONN_ID);
                }
                let sealed = seal(&self.server_key, &message).unwrap();
                self.stream.extend(KEEPALIVE.as_bytes());
                self.stream.extend(event(&sealed).as_bytes());
                self.target_event(TargetEvent::Sent(true));
            }
            ReadAction::Wait | ReadAction::End { .. } => {}
        }
    }

    fn deliver(&mut self) {
        while !self.stream.is_empty() {
            let n = self.cut.min(self.stream.len());
            let chunk: Vec<u8> = self.stream.drain(..n).collect();
            for e in self.reader.feed(&chunk) {
                for data in event_data(&e) {
                    match self.tunnel.handle_sse_message(&self.client_key, &data).unwrap() {
                        Dispatch::Deliver { conn_id, event } => {
                            assert_eq!(conn_id, CONN_ID);
                            self.down(DownloadEvent::Event(event));
                        }
                        other => panic!("{:?}", other),
                    }
                }
            }
        }
    }

    fn down(&mut self, e: DownloadEvent) {
        match self.download.on_event(e) {
            DownloadAction::Wait => {}
            DownloadAction::Write(data) => {
                self.got.extend_from_slice(&data);
                self.down(DownloadEvent::Written(true));
            }
            DownloadAction::Shutdown | DownloadAction::ShutdownAndEnd => self.clean_eof = true,
            DownloadAction::End { abort, .. } => self.reset = abort,
        }
    }
}

fn pattern(len: usize) -> Vec<u8> {
    (0..len).map(|i| (i % 251) as u8).collect()
}

#[test]
fn a_response_arrives_however_the_stream_is_cut() {
    let response = pattern(RESPONSE_LEN);
    for cut in [977, 65536, 1 << 20] {
        let mut w = World::new(cut);
        w.app_sends(b"ping");
        w.app_finishes();
        assert_eq!(w.target_got, b"ping");
        assert!(w.target_eof);
        for chunk in response.chunks(32768) {
            w.target_event(TargetEvent::Chunk(chunk.to_vec()));
        }
        w.deliver();
        assert!(!w.clean_eof);
        w.target_event(TargetEvent::Eof);
        w.deliver();
        assert!(w.clean_eof && !w.reset);
        assert!(w.got == response, "response payload corrupted");
    }
}

#[test]
fn test_upload_survives_target_output_eof() {
    let mut w = World::new(4096);
    w.target_event(TargetEvent::Chunk(b"hi".to_vec()));
    w.target_event(TargetEvent::Eof);
    w.deliver();
    assert_eq!(w.got, b"hi", "unexpected greeting from target");
    assert!(w.clean_eof);

    // Response direction is done. The upload direction must still work.
    let payload = pattern(UPLOAD_LEN);
    for chunk in payload.chunks(32768) {
        w.app_sends(chunk);
    }
    w.app_finishes();
    assert_eq!(
        w.target_got.len(),
        UPLOAD_LEN,
        "upload truncated after target output EOF: target got {} of {} bytes",
        w.target_got.len(),
        UPLOAD_LEN
    );
    assert!(w.target_got == payload);
    assert!(w.target_eof && !w.reset);
}

#[test]
fn test_target_failure_is_not_a_clean_eof() {
    let mut w = World::new(100);
    w.app_sends(b"go");
    w.target_event(TargetEvent::Chunk(pattern(1000)));
    w.target_event(TargetEvent::Failed("connection reset by peer".to_string()));
    w.deliver();
    assert!(
        w.reset && !w.clean_eof,
        "truncated response was reported as a clean EOF after {} byte(s)",
        w.got.len()
    );
    assert_eq!(w.got, pattern(1000));
}

#[test]
fn client_and_server_meet_below_a_prefix() {
    let id = new_session_id();
    for (base, prefix) in [
        ("https://h/tunnix", Some("/tunnix")),
        ("http://h:8080", None),
        ("http://h:8080/", None),
    ] {
        let base = Uri::parse(base).unwrap();
        let prefix = prefix.map(|p| Uri::parse(p).unwrap());
        let stream = Uri::parse(&stream_url(&base, &id)).unwrap();
        let send = Uri::parse(&send_url(&base, &id)).unwrap();
        assert_eq!(stream.authority, base.authority);
        assert_eq!(route(&prefix, Method::Get, &stream.path), Route::Stream(id.clone()));
        assert_eq!(route(&prefix, Method::Post, &send.path), Route::Send(id.clone()));
    }
}

#[test]
fn a_new_session_is_ready_with_its_reset() {
    let key = Crypto::new("k").unwrap();
    let mut tunnel: Tunnel<u8> = Tunnel::new("s".to_string());
    tunnel.register_connection(1, 0);
    let mut text = KEEPALIVE.to_string();
    text.push_str(&event(&seal(&key, &stream_greeting(true).unwrap()).unwrap()));
    text.push_str(&event(&seal(&key, &Message::Close { conn_id: 1 }).unwrap()));
    let mut attempt = StreamAttempt::new(false);
    let mut ready = Vec::new();
    let mut dispatched = Vec::new();
    for e in SseReader::new().feed(text.as_bytes()) {
        let data = event_data(&e);
        for d in &data {
            dispatched.push(tunnel.handle_sse_message(&key, d).unwrap());
        }
        ready.push(attempt.on_event(!data.is_empty()));
    }
    assert_eq!(ready, [false, true, false]);
    assert!(matches!(dispatched[0], Dispatch::Reset { dropped: 1 }));
    assert!(matches!(
        dispatched[1],
        Dispatch::Deliver { conn_id: 1, event: TunnelEvent::Close }
    ));
}
