use std::io::{Read, Write};
use tunnix::archive::{chunk_of, ChunkReader};
use tunnix::crypto::Crypto;
use tunnix::envelope::seal;
use tunnix::protocol::Message;
use tunnix::server::{handle_send, read_message, Action};
use tunnix::session::Session;
use tunnix::transfer::{
    last_messages, pull_result, unpack_step, PackAction, PackEvent, PullAction, PullEvent,
    PullRelay, PullSession, PushAction, PushEvent, PushSession, TransferError, UnpackAction,
    UnpackEvent,
};
use tunnix::tunnel::{Dispatch, Tunnel, TunnelEvent};

struct Chunks(Vec<Vec<u8>>);

impl Write for Chunks {
    fn write(&mut self, buf: &[u8]) -> std::io::Result<usize> {
        if let Some(chunk) = chunk_of(buf) {
            self.0.push(chunk);
        }
        Ok(buf.len())
    }

    fn flush(&mut self) -> std::io::Result<()> {
        Ok(())
    }
}

struct Source {
    reader: ChunkReader,
    chunks: std::vec::IntoIter<Vec<u8>>,
}

impl Read for Source {
    fn read(&mut self, buf: &mut [u8]) -> std::io::Result<usize> {
        loop {
            if let Some(n) = self.reader.read(buf) {
                return Ok(n);
            }
            match self.chunks.next() {
                Some(chunk) => self.reader.feed(chunk),
                None => return Ok(0),
            }
        }
    }
}

fn pack(files: &[(String, Vec<u8>)]) -> Vec<Vec<u8>> {
    let encoder = zstd::stream::Encoder::new(Chunks(Vec::new()), 3).unwrap();
    let mut builder = tar::Builder::new(encoder);
    for (name, data) in files {
        let mut header = tar::Header::new_gnu();
        header.set_size(data.len() as u64);
        header.set_mode(0o644);
        header.set_cksum();
        builder.append_data(&mut header, name, &data[..]).unwrap();
    }
    builder.into_inner().unwrap().finish().unwrap().0
}

fn unpack(chunks: Vec<Vec<u8>>) -> Result<Vec<(String, Vec<u8>)>, String> {
    let source = Source { reader: ChunkReader::new(), chunks: chunks.into_iter() };
    let decoder = zstd::stream::Decoder::new(source).map_err(|e| e.to_string())?;
    let mut archive = tar::Archive::new(decoder);
    let mut out = Vec::new();
    for entry in archive.entries().map_err(|e| e.to_string())? {
        let mut entry = entry.map_err(|e| e.to_string())?;
        let name = entry.path().unwrap().to_string_lossy().into_owned();
        let mut data = Vec::new();
        entry.read_to_end(&mut data).map_err(|e| e.to_string())?;
        out.push((name, data));
    }
    Ok(out)
}

/// What the server keeps of one upload.
struct Remote {
    crypto: Crypto,
    session: Session<(), (), (), ()>,
    allow_transfer: bool,
    sunk: Vec<Vec<u8>>,
    files: Vec<(String, Vec<u8>)>,
}

impl Remote {
    fn new(allow_transfer: bool) -> Remote {
        Remote {
            crypto: Crypto::new("test").unwrap(),
            session: Session::new(()),
            allow_transfer,
            sunk: Vec::new(),
            files: Vec::new(),
        }
    }

    /// Handles a message under its seal; hands out what goes back to the client.
    fn post(&mut self, sealed: &[u8]) -> Vec<Message> {
        let message = read_message(&self.crypto, sealed).unwrap();
        let closes = matches!(message, Message::Close { .. });
        match handle_send(&mut self.session, message, false, self.allow_transfer) {
            Action::Push { conn_id, .. } => {
                self.session.register_push(conn_id, ());
                vec![]
            }
            Action::Deliver { conn_id, data } => {
                if self.session.writer(conn_id).is_some() {
                    self.sunk.push(data);
                }
                vec![]
            }
            Action::Pull { conn_id, .. } => {
                let mut relay = PullRelay::new(conn_id);
                let mut out = Vec::new();
                for chunk in pack(&self.files) {
                    match relay.on_event(PackEvent::Chunk(chunk)) {
                        PackAction::Send(m) => out.push(m),
                        other => panic!("{:?}", other),
                    }
                    assert!(matches!(relay.on_event(PackEvent::Sent(true)), PackAction::Wait));
                }
                assert!(matches!(
                    relay.on_event(PackEvent::ChunksEnd),
                    PackAction::Join { drop_chunks: false }
                ));
                match relay.on_event(PackEvent::Packed(Ok(()))) {
                    PackAction::Report(last) => out.extend(last),
                    other => panic!("{:?}", other),
                }
                out
            }
            Action::Answer(m) => vec![m],
            Action::Done if closes => {
                let outcome = match unpack(std::mem::take(&mut self.sunk)) {
                    Ok(files) => {
                        self.files = files;
                        Ok(())
                    }
                    Err(e) => Err(e),
                };
                match unpack_step(1, UnpackEvent::Unpacked(outcome)) {
                    UnpackAction::Report(last) => last,
                    other => panic!("{:?}", other),
                }
            }
            _ => vec![],
        }
    }
}

/// The event for the connection in a message from the server.
fn event_of(message: Message) -> TunnelEvent {
    let mut tunnel: Tunnel<()> = Tunnel::new("s".to_string());
    match tunnel.on_message(message) {
        Dispatch::Deliver { event, .. } => event,
        other => panic!("{:?}", other),
    }
}

fn push(remote: &mut Remote, files: &[(String, Vec<u8>)]) -> Result<(), String> {
    let crypto = Crypto::new("test").unwrap();
    let mut session = PushSession::new(1);
    let request = session.request("/remote".to_string());
    for m in remote.post(&seal(&crypto, &request).unwrap()) {
        if let Message::Error { message, .. } = m {
            return Err(message);
        }
    }
    for chunk in pack(files) {
        assert!(session.streaming());
        match session.on_event(PushEvent::Chunk(chunk)) {
            PushAction::Send(m) => assert!(remote.post(&seal(&crypto, &m).unwrap()).is_empty()),
            other => panic!("{:?}", other),
        }
        assert!(matches!(session.on_event(PushEvent::Sent(Ok(()))), PushAction::Wait));
    }
    assert!(matches!(session.on_event(PushEvent::ChunksEnd), PushAction::Join));
    let close = match session.on_event(PushEvent::Packed(Ok(()))) {
        PushAction::CloseAndConfirm(m) => m,
        other => panic!("{:?}", other),
    };
    for m in remote.post(&seal(&crypto, &close).unwrap()) {
        if let PushAction::End(result) = session.on_event(PushEvent::Event(event_of(m))) {
            return result.map_err(|e| e.message());
        }
    }
    match session.on_event(PushEvent::Dropped) {
        PushAction::End(result) => result.map_err(|e| e.message()),
        other => panic!("{:?}", other),
    }
}

fn pull(remote: &mut Remote) -> Result<Vec<(String, Vec<u8>)>, String> {
    let crypto = Crypto::new("test").unwrap();
    let mut session = PullSession::new(2);
    let request = session.request(vec!["/remote/src".to_string()], 3);
    let mut fed = Vec::new();
    for m in remote.post(&seal(&crypto, &request).unwrap()) {
        match session.on_event(PullEvent::Event(event_of(m))) {
            PullAction::Feed(data) => {
                fed.push(data);
                assert!(matches!(session.on_event(PullEvent::Fed(true)), PullAction::Wait));
            }
            PullAction::Finish { message, error } => {
                assert!(matches!(message, Message::Close { conn_id: 2 }));
                let unpacked = unpack(std::mem::take(&mut fed));
                let outcome = match &unpacked {
                    Ok(_) => Ok(()),
                    Err(e) => Err(e.clone()),
                };
                pull_result(error, outcome).map_err(|e| e.message())?;
                return unpacked;
            }
            PullAction::Wait => {}
        }
    }
    Err("no end".to_string())
}

fn file(name: &str, data: &[u8]) -> (String, Vec<u8>) {
    (name.to_string(), data.to_vec())
}

#[test]
fn test_push_pull_roundtrip() {
    // Build a source tree: a small text file, a nested binary file.
    let big: Vec<u8> = (0..300_000u32).map(|i| (i % 251) as u8).collect();
    let src = vec![file("src/a.txt", b"hello transfer"), file("src/nested/big.bin", &big)];

    let mut remote = Remote::new(true);
    assert!(push(&mut remote, &src).is_ok(), "push failed");
    assert_eq!(remote.files[0], file("src/a.txt", b"hello transfer"));
    assert_eq!(remote.files[1], file("src/nested/big.bin", &big));

    let pulled = pull(&mut remote).expect("pull failed");
    assert_eq!(pulled[0], file("src/a.txt", b"hello transfer"));
    assert_eq!(pulled[1], file("src/nested/big.bin", &big));
}

#[test]
fn test_push_pull_multiple_sources() {
    // Two standalone files and one directory, all in one transfer.
    let src = vec![
        file("one.txt", b"first"),
        file("two.txt", b"second"),
        file("dir/inner.txt", b"nested"),
    ];
    let mut remote = Remote::new(true);
    assert!(push(&mut remote, &src).is_ok(), "multi-source push failed");
    assert_eq!(remote.files, src);
    assert_eq!(pull(&mut remote).expect("multi-source pull failed"), src);
}

#[test]
fn transfers_fail_when_they_are_switched_off() {
    let src = vec![file("src/a.txt", b"nope")];
    let mut remote = Remote::new(false);
    assert_eq!(
        push(&mut remote, &src).unwrap_err(),
        "file transfer is disabled on this server"
    );
    assert_eq!(
        pull(&mut remote).unwrap_err(),
        "remote error: file transfer is disabled on this server"
    );
}

#[test]
fn an_upload_is_closed_however_it_ends() {
    let early = |event: PushEvent| {
        let mut s = PushSession::new(1);
        match s.on_event(event) {
            PushAction::CloseAndFail { message: Message::Close { conn_id: 1 }, error } => error.message(),
            other => panic!("{:?}", other),
        }
    };
    let full = TunnelEvent::Error("disk full".to_string());
    assert_eq!(early(PushEvent::Event(full)), "remote error: disk full");
    assert_eq!(
        early(PushEvent::Event(TunnelEvent::Close)),
        "connection closed before the transfer completed"
    );
    assert_eq!(early(PushEvent::Dropped), "connection closed before the transfer completed");

    let mut s = PushSession::new(1);
    assert!(matches!(s.on_event(PushEvent::Event(TunnelEvent::Exit(0))), PushAction::Wait));
    assert!(matches!(s.on_event(PushEvent::Chunk(vec![1])), PushAction::Send(_)));
    assert!(matches!(
        s.on_event(PushEvent::Sent(Err("tunnel".to_string()))),
        PushAction::CloseAndFail { error: TransferError::Local(e), .. } if e == "tunnel"
    ));
    assert!(matches!(s.on_event(PushEvent::ChunksEnd), PushAction::Wait));

    let mut s = PushSession::new(1);
    assert!(matches!(s.on_event(PushEvent::ChunksEnd), PushAction::Join));
    assert!(matches!(
        s.on_event(PushEvent::Packed(Err("unreadable".to_string()))),
        PushAction::CloseAndFail { error: TransferError::Local(e), .. } if e == "unreadable"
    ));
}

#[test]
fn an_upload_needs_the_servers_word() {
    let confirmed = |event: PushEvent| {
        let mut s = PushSession::new(1);
        s.on_event(PushEvent::ChunksEnd);
        s.on_event(PushEvent::Packed(Ok(())));
        assert!(matches!(
            s.on_event(PushEvent::Event(TunnelEvent::Data(vec![1]))),
            PushAction::Wait
        ));
        match s.on_event(event) {
            PushAction::End(r) => r.map_err(|e| e.message()),
            other => panic!("{:?}", other),
        }
    };
    assert_eq!(confirmed(PushEvent::Event(TunnelEvent::Exit(0))), Ok(()));
    assert_eq!(
        confirmed(PushEvent::Event(TunnelEvent::Exit(-3))).unwrap_err(),
        "server reported transfer failure (exit -3)"
    );
    assert_eq!(
        confirmed(PushEvent::Event(TunnelEvent::Error("x".to_string()))).unwrap_err(),
        "remote error: x"
    );
    for lost in [PushEvent::Dropped, PushEvent::Event(TunnelEvent::Close)] {
        assert_eq!(
            confirmed(lost).unwrap_err(),
            "connection closed before the server confirmed the transfer"
        );
    }
}

#[test]
fn a_part_of_an_archive_is_no_success() {
    let ended = |event: PullEvent| {
        let mut s = PullSession::new(1);
        match s.on_event(event) {
            PullAction::Finish { error, .. } => {
                pull_result(error, Ok(())).map_err(|e| e.message())
            }
            other => panic!("{:?}", other),
        }
    };
    assert_eq!(ended(PullEvent::Event(TunnelEvent::Exit(0))), Ok(()));
    assert_eq!(
        ended(PullEvent::Event(TunnelEvent::Exit(1))).unwrap_err(),
        "server reported transfer failure (exit 1)"
    );
    assert_eq!(
        ended(PullEvent::Event(TunnelEvent::Close)).unwrap_err(),
        "server closed the stream unexpectedly"
    );
    assert_eq!(ended(PullEvent::Dropped).unwrap_err(), "event stream ended unexpectedly");

    // An unpacker that ends early has its own say.
    let mut s = PullSession::new(1);
    let data = TunnelEvent::Data(vec![1]);
    assert!(matches!(s.on_event(PullEvent::Event(data)), PullAction::Feed(_)));
    match s.on_event(PullEvent::Fed(false)) {
        PullAction::Finish { error: None, .. } => {}
        other => panic!("{:?}", other),
    }
    let bad = pull_result(None, Err("corrupt".to_string())).unwrap_err();
    assert_eq!(bad.message(), "corrupt");
    let first = pull_result(Some(TransferError::StreamEnded), Err("corrupt".to_string()));
    assert_eq!(first.unwrap_err().message(), "event stream ended unexpectedly");
}

#[test]
fn a_client_that_is_gone_gets_no_report() {
    let mut r = PullRelay::new(1);
    assert!(matches!(r.on_event(PackEvent::Chunk(vec![1])), PackAction::Send(_)));
    assert!(matches!(
        r.on_event(PackEvent::Sent(false)),
        PackAction::Join { drop_chunks: true }
    ));
    assert!(matches!(r.on_event(PackEvent::Packed(Ok(()))), PackAction::End));
    assert!(matches!(r.on_event(PackEvent::ChunksEnd), PackAction::Wait));
}

#[test]
fn the_server_reports_how_it_went() {
    let good = last_messages(4, Ok(()));
    assert!(matches!(good[0], Message::ExitStatus { conn_id: 4, code: 0 }));
    assert!(matches!(good[1], Message::Close { conn_id: 4 }));
    assert_eq!(good.len(), 2);
    let bad = last_messages(4, Err("full".to_string()));
    assert!(matches!(&bad[0], Message::Error { conn_id: Some(4), message } if message == "full"));
    assert_eq!(bad.len(), 1);
    assert!(matches!(unpack_step(4, UnpackEvent::SseDead), UnpackAction::Release));

    let mut r = PullRelay::new(4);
    assert!(matches!(r.on_event(PackEvent::ChunksEnd), PackAction::Join { drop_chunks: false }));
    match r.on_event(PackEvent::Packed(Err("cannot read x".to_string()))) {
        PackAction::Report(ms) => {
            assert!(matches!(&ms[0], Message::Error { message, .. } if message == "cannot read x"))
        }
        other => panic!("{:?}", other),
    }
}
