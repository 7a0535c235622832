use tunnix::protocol::Message;
use tunnix::relay::{
    next_conn_id, Download, DownloadAction, DownloadEvent, Stop, Upload, UploadAction, UploadEnd,
    UploadEvent, FIRST_CONN_ID,
};
use tunnix::tunnel::TunnelEvent;

/// What a local application sees of a connection, and what the server hears of it.
struct App {
    upload: Upload,
    download: Download,
    got: Vec<u8>,
    clean_eof: bool,
    reset: bool,
    ended: bool,
    sent: Vec<String>,
}

impl App {
    fn new(conn_id: u32) -> App {
        App {
            upload: Upload::new(conn_id),
            download: Download::new(),
            got: Vec::new(),
            clean_eof: false,
            reset: false,
            ended: false,
            sent: Vec::new(),
        }
    }

    fn up(&mut self, event: UploadEvent) {
        match self.upload.on_event(event) {
            UploadAction::Wait => {}
            UploadAction::Send(m) => {
                self.sent.push(format!("{:?}", m));
                self.up(UploadEvent::Sent(true));
            }
            UploadAction::Finish { message, report, .. } => {
                if let Some(m) = message {
                    self.sent.push(format!("{:?}", m));
                }
                if !self.ended {
                    self.down(DownloadEvent::UploadEnded(report));
                }
            }
        }
    }

    fn down(&mut self, event: DownloadEvent) {
        match self.download.on_event(event) {
            DownloadAction::Wait => {}
            DownloadAction::Write(data) => {
                self.got.extend_from_slice(&data);
                self.down(DownloadEvent::Written(true));
            }
            DownloadAction::Shutdown => self.clean_eof = true,
            DownloadAction::ShutdownAndEnd => {
                self.clean_eof = true;
                self.ended = true;
            }
            DownloadAction::End { stop, abort } => {
                self.ended = true;
                self.reset = abort;
                if let Some(reason) = stop {
                    self.up(UploadEvent::Stopped(reason));
                }
            }
        }
    }

    fn event(&mut self, e: TunnelEvent) {
        self.down(DownloadEvent::Event(e));
    }
}

#[test]
fn a_dropped_dispatch_channel_is_not_a_clean_eof() {
    const CONN_ID: u32 = 5;
    let mut app = App::new(CONN_ID);

    // Part of a response arrives, then the channel goes away mid-stream
    // with no Close and no Error - exactly what Reset and the stall path do.
    app.event(TunnelEvent::Data(b"partial".to_vec()));
    app.down(DownloadEvent::Dropped);

    assert!(app.ended, "relay did not finish");
    assert!(
        app.reset && !app.clean_eof,
        "truncated response was handed to the app as a clean EOF after {} byte(s)",
        app.got.len()
    );
    assert_eq!(app.sent, ["Abort { conn_id: 5 }"]);
}

#[test]
fn a_dropped_dispatch_channel_after_close_still_ends_the_relay() {
    const CONN_ID: u32 = 6;
    let mut app = App::new(CONN_ID);

    // Response completes cleanly, then the session is reset mid-upload.
    app.event(TunnelEvent::Data(b"reply".to_vec()));
    app.event(TunnelEvent::Close);
    assert!(!app.ended);
    app.down(DownloadEvent::Dropped);

    assert!(app.ended, "relay kept waiting on the app after its channel was dropped");
    assert!(app.clean_eof && !app.reset);
    assert_eq!(app.sent, ["Abort { conn_id: 6 }"]);
}

#[test]
fn a_failed_upload_does_not_park_the_relay() {
    const CONN_ID: u32 = 9;
    let mut app = App::new(CONN_ID);
    app.up(UploadEvent::ReadFailed);
    assert!(app.ended, "relay parked after the upload side failed");
    assert!(app.reset);
    assert_eq!(app.sent, ["Abort { conn_id: 9 }"]);
}

#[test]
fn a_server_error_before_close_fails_the_connection() {
    const CONN_ID: u32 = 7;
    let mut app = App::new(CONN_ID);

    app.event(TunnelEvent::Data(b"partial".to_vec()));
    app.event(TunnelEvent::Error("target read failed".to_string()));

    assert!(app.ended, "relay did not finish");
    assert!(app.reset, "truncated response was handed to the app as a clean EOF");
    // The server knows already.
    assert!(app.sent.is_empty());
}

#[test]
fn a_server_error_after_close_does_not_destroy_the_response() {
    const CONN_ID: u32 = 8;
    let payload: Vec<u8> = (0..8192).map(|i| (i % 251) as u8).collect();
    let expected = payload.clone();
    let mut app = App::new(CONN_ID);

    app.event(TunnelEvent::Data(payload));
    app.event(TunnelEvent::Close);
    app.event(TunnelEvent::Error("target write failed".to_string()));

    assert!(app.ended, "relay did not finish");
    assert!(app.clean_eof && !app.reset, "a complete response was destroyed by a reset");
    assert_eq!(app.got, expected, "response payload was lost");
}

const RESPONSE_LEN: usize = 256 * 1024;

#[test]
fn test_response_survives_client_half_close() {
    let payload: Vec<u8> = (0..RESPONSE_LEN).map(|i| (i % 251) as u8).collect();
    let mut app = App::new(1);
    app.up(UploadEvent::Chunk(b"ping".to_vec()));
    app.up(UploadEvent::Eof);
    assert!(!app.ended);
    assert!(!app.download.awaits_upload());
    for chunk in payload.chunks(32768) {
        app.event(TunnelEvent::Data(chunk.to_vec()));
    }
    app.event(TunnelEvent::Close);
    assert!(app.ended && app.clean_eof && !app.reset);
    assert_eq!(
        app.got.len(),
        RESPONSE_LEN,
        "response truncated after half-close: got {} of {} bytes",
        app.got.len(),
        RESPONSE_LEN
    );
    assert_eq!(app.got, payload, "response payload corrupted");
    assert_eq!(app.sent, ["Data { conn_id: 1, data: [112, 105, 110, 103] }", "Close { conn_id: 1 }"]);
}

#[test]
fn an_upload_goes_on_after_the_response() {
    let mut app = App::new(1);
    app.event(TunnelEvent::Data(b"greeting".to_vec()));
    app.event(TunnelEvent::Close);
    assert!(app.clean_eof && !app.ended);
    assert!(app.download.awaits_upload());
    for _ in 0..3 {
        app.up(UploadEvent::Chunk(vec![1]));
    }
    app.up(UploadEvent::Eof);
    assert!(app.ended && !app.reset);
    assert_eq!(app.sent.len(), 4);
}

#[test]
fn empty_pieces_are_not_written() {
    let mut d = Download::new();
    assert!(matches!(
        d.on_event(DownloadEvent::Event(TunnelEvent::Data(vec![]))),
        DownloadAction::Wait
    ));
    assert!(matches!(
        d.on_event(DownloadEvent::Event(TunnelEvent::Data(vec![1]))),
        DownloadAction::Write(_)
    ));
    assert!(matches!(
        d.on_event(DownloadEvent::Written(false)),
        DownloadAction::End { stop: Some(Stop::Local), abort: true }
    ));
    assert!(matches!(
        d.on_event(DownloadEvent::Event(TunnelEvent::Close)),
        DownloadAction::Wait
    ));
}

#[test]
fn an_exit_code_is_no_end_of_a_response() {
    let mut d = Download::new();
    assert!(matches!(
        d.on_event(DownloadEvent::Event(TunnelEvent::Exit(0))),
        DownloadAction::End { stop: Some(Stop::Local), abort: true }
    ));
}

#[test]
fn a_tunnel_that_fails_ends_the_upload() {
    let mut u = Upload::new(3);
    assert!(matches!(
        u.on_event(UploadEvent::Chunk(vec![1])),
        UploadAction::Send(Message::Data { conn_id: 3, .. })
    ));
    assert!(matches!(
        u.on_event(UploadEvent::Sent(false)),
        UploadAction::Finish {
            message: Some(Message::Abort { conn_id: 3 }),
            detached: true,
            report: UploadEnd::Failed
        }
    ));
    assert!(matches!(u.on_event(UploadEvent::Eof), UploadAction::Wait));
}

#[test]
fn a_stop_by_the_server_is_not_told_to_the_server() {
    let mut u = Upload::new(3);
    assert!(matches!(
        u.on_event(UploadEvent::Stopped(Stop::ServerReported)),
        UploadAction::Finish { message: None, detached: false, report: UploadEnd::Eof }
    ));
}

#[test]
fn connection_ids_count_up_and_start_over() {
    let mut counter = FIRST_CONN_ID;
    assert_eq!(next_conn_id(&mut counter), 1);
    assert_eq!(next_conn_id(&mut counter), 2);
    let mut last = u32::MAX;
    assert_eq!(next_conn_id(&mut last), u32::MAX);
    assert_eq!(next_conn_id(&mut last), 0);
}
