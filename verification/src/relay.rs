//! The client's end of a proxied connection: one half carries what the local
//! application sends, the other what comes back. The two run independently; each is a
//! machine that takes what happened and says what to do next.

use crate::protocol::{Message, MessageView};
use crate::tunnel::{TunnelEvent, TunnelEventView};
use vstd::prelude::*;

verus! {

broadcast use vstd::seq::group_seq_axioms;

/// The first connection id that a client uses.
pub const FIRST_CONN_ID: u32 = 1;

/// Takes the next connection id. Ids start over after the last one.
pub fn next_conn_id(counter: &mut u32) -> (r: u32)
    ensures
        r == *old(counter),
        *final(counter) as int == (*old(counter) + 1) % 0x1_0000_0000,
{
    let id: u32 = *counter;
    *counter = if id == 0xffff_ffff {
        0
    } else {
        id + 1
    };
    id
}

/// The id that is handed out after so many others.
pub open spec fn nth_conn_id(first: u32, n: nat) -> int {
    (first + n) % 0x1_0000_0000
}

/// Ids handed out less than 2^32 calls apart are different.
pub proof fn conn_ids_are_distinct(first: u32, m: nat, n: nat)
    requires
        m < n,
        n - m < 0x1_0000_0000,
    ensures
        nth_conn_id(first, m) != nth_conn_id(first, n),
{
    assert((first + m) % 0x1_0000_0000 != (first + n) % 0x1_0000_0000) by (nonlinear_arith)
        requires
            m < n,
            n - m < 0x1_0000_0000,
    ;
}

// From the application to the tunnel.

/// Why the half that carries what comes back stops the other.
#[derive(Debug, Clone, Copy, PartialEq, Eq, Structural)]
pub enum Stop {
    /// The server reported the failure, so it has let go of the target already.
    ServerReported,
    /// The failure is local; the server has heard nothing.
    Local,
}

/// How the upload ended, for the other half.
#[derive(Debug, Clone, Copy, PartialEq, Eq, Structural)]
pub enum UploadEnd {
    /// The application finished sending, or was stopped.
    Eof,
    /// The upload itself broke.
    Failed,
}

/// What happened to the upload.
#[derive(Debug)]
pub enum UploadEvent {
    /// The application sent some bytes.
    Chunk(Vec<u8>),
    /// The application finished sending.
    Eof,
    /// Reading from the application failed.
    ReadFailed,
    /// The other half stops this one.
    Stopped(Stop),
    /// The bytes were taken by the tunnel, or were not.
    Sent(bool),
}

/// What happened, with its contents.
#[verifier::ext_equal]
pub enum UploadEventView {
    Chunk(Seq<u8>),
    Eof,
    ReadFailed,
    Stopped(Stop),
    Sent(bool),
}

impl View for UploadEvent {
    type V = UploadEventView;

    open spec fn view(&self) -> UploadEventView {
        match *self {
            UploadEvent::Chunk(data) => UploadEventView::Chunk(data@),
            UploadEvent::Eof => UploadEventView::Eof,
            UploadEvent::ReadFailed => UploadEventView::ReadFailed,
            UploadEvent::Stopped(s) => UploadEventView::Stopped(s),
            UploadEvent::Sent(ok) => UploadEventView::Sent(ok),
        }
    }
}

/// What the upload is doing.
#[derive(Debug, Clone, Copy, PartialEq, Eq, Structural)]
pub enum UploadState {
    /// Waiting for the application.
    Reading,
    /// Handing bytes to the tunnel.
    Sending,
    Ended,
}

/// What to do next.
#[derive(Debug)]
pub enum UploadAction {
    /// Wait for the application, and for the other half's stop before it.
    Wait,
    /// Hand the message to the tunnel.
    Send(Message),
    /// Hand the message, if there is one, to the tunnel: first of all, or on its own
    /// where `detached`, so that a broken tunnel holds nobody up. Then tell the other
    /// half how the upload ended.
    Finish { message: Option<Message>, detached: bool, report: UploadEnd },
}

/// What to do next, with its contents.
#[allow(inconsistent_fields)]
#[verifier::ext_equal]
pub enum UploadActionView {
    Wait,
    Send(MessageView),
    Finish { message: Option<MessageView>, detached: bool, report: UploadEnd },
}

impl View for UploadAction {
    type V = UploadActionView;

    open spec fn view(&self) -> UploadActionView {
        match *self {
            UploadAction::Wait => UploadActionView::Wait,
            UploadAction::Send(m) => UploadActionView::Send(m@),
            UploadAction::Finish { message, detached, report } => UploadActionView::Finish {
                message: match message {
                    Some(m) => Some(m@),
                    None => None,
                },
                detached,
                report,
            },
        }
    }
}

/// The end of an upload that broke: the server is to let go of the target entirely.
pub open spec fn aborted(conn_id: u32, report: UploadEnd) -> UploadActionView {
    UploadActionView::Finish {
        message: Some(MessageView::Abort { conn_id }),
        detached: true,
        report,
    }
}

/// A step: the next state, and what to do.
///
/// An application that finished sending closes its direction only. An upload that
/// broke, or was stopped over a local failure, aborts the connection at the server.
/// Where the server reported the failure there is nothing to tell it.
pub open spec fn upload_step(conn_id: u32, state: UploadState, event: UploadEventView) -> (
    UploadState,
    UploadActionView,
) {
    match (state, event) {
        (UploadState::Reading, UploadEventView::Chunk(data)) => (
            UploadState::Sending,
            UploadActionView::Send(MessageView::Data { conn_id, data }),
        ),
        (UploadState::Reading, UploadEventView::Eof) => (
            UploadState::Ended,
            UploadActionView::Finish {
                message: Some(MessageView::Close { conn_id }),
                detached: false,
                report: UploadEnd::Eof,
            },
        ),
        (UploadState::Reading, UploadEventView::ReadFailed) => (
            UploadState::Ended,
            aborted(conn_id, UploadEnd::Failed),
        ),
        (UploadState::Reading, UploadEventView::Stopped(Stop::Local)) => (
            UploadState::Ended,
            aborted(conn_id, UploadEnd::Eof),
        ),
        (UploadState::Reading, UploadEventView::Stopped(Stop::ServerReported)) => (
            UploadState::Ended,
            UploadActionView::Finish { message: None, detached: false, report: UploadEnd::Eof },
        ),
        (UploadState::Sending, UploadEventView::Sent(true)) => (
            UploadState::Reading,
            UploadActionView::Wait,
        ),
        (UploadState::Sending, UploadEventView::Sent(false)) => (
            UploadState::Ended,
            aborted(conn_id, UploadEnd::Failed),
        ),
        _ => (state, UploadActionView::Wait),
    }
}

/// The half that carries what the application sends.
#[derive(Debug)]
pub struct Upload {
    conn_id: u32,
    state: UploadState,
}

impl Upload {
    /// The connection.
    pub closed spec fn conn_id(&self) -> u32 {
        self.conn_id
    }

    /// What it is doing.
    pub closed spec fn state(&self) -> UploadState {
        self.state
    }

    pub fn new(conn_id: u32) -> (r: Self)
        ensures
            r.conn_id() == conn_id,
            r.state() == UploadState::Reading,
    {
        Upload { conn_id, state: UploadState::Reading }
    }

    fn abort(&mut self, report: UploadEnd) -> (r: UploadAction)
        ensures
            final(self).conn_id() == old(self).conn_id(),
            final(self).state() == UploadState::Ended,
            r@ == aborted(old(self).conn_id(), report),
    {
        self.state = UploadState::Ended;
        UploadAction::Finish {
            message: Some(Message::Abort { conn_id: self.conn_id }),
            detached: true,
            report,
        }
    }

    /// Takes what happened.
    pub fn on_event(&mut self, event: UploadEvent) -> (r: UploadAction)
        ensures
            final(self).conn_id() == old(self).conn_id(),
            (final(self).state(), r@) == upload_step(
                old(self).conn_id(),
                old(self).state(),
                event@,
            ),
    {
        let conn_id: u32 = self.conn_id;
        match (self.state, event) {
            (UploadState::Reading, UploadEvent::Chunk(data)) => {
                self.state = UploadState::Sending;
                UploadAction::Send(Message::Data { conn_id, data })
            },
            (UploadState::Reading, UploadEvent::Eof) => {
                self.state = UploadState::Ended;
                UploadAction::Finish {
                    message: Some(Message::Close { conn_id }),
                    detached: false,
                    report: UploadEnd::Eof,
                }
            },
            (UploadState::Reading, UploadEvent::ReadFailed) => self.abort(UploadEnd::Failed),
            (UploadState::Reading, UploadEvent::Stopped(s)) => match s {
                Stop::Local => self.abort(UploadEnd::Eof),
                Stop::ServerReported => {
                    self.state = UploadState::Ended;
                    UploadAction::Finish {
                        message: None,
                        detached: false,
                        report: UploadEnd::Eof,
                    }
                },
            },
            (UploadState::Sending, UploadEvent::Sent(ok)) => if ok {
                self.state = UploadState::Reading;
                UploadAction::Wait
            } else {
                self.abort(UploadEnd::Failed)
            },
            _ => UploadAction::Wait,
        }
    }
}

/// The event can happen in the state.
pub open spec fn upload_expects(state: UploadState, event: UploadEventView) -> bool {
    match state {
        UploadState::Reading => !(event is Sent),
        UploadState::Sending => event is Sent,
        UploadState::Ended => false,
    }
}

/// The events can happen one after the other.
pub open spec fn upload_possible(
    conn_id: u32,
    state: UploadState,
    events: Seq<UploadEventView>,
) -> bool
    decreases events.len(),
{
    events.len() == 0 || {
        &&& upload_expects(state, events[0])
        &&& upload_possible(conn_id, upload_step(conn_id, state, events[0]).0, events.skip(1))
    }
}

/// What the upload does over a series of events, and the state it ends up in.
pub open spec fn upload_run(conn_id: u32, state: UploadState, events: Seq<UploadEventView>) -> (
    UploadState,
    Seq<UploadActionView>,
)
    decreases events.len(),
{
    if events.len() == 0 {
        (state, Seq::empty())
    } else {
        let (next, action) = upload_step(conn_id, state, events[0]);
        let (end, actions) = upload_run(conn_id, next, events.skip(1));
        (end, seq![action] + actions)
    }
}

/// The bytes that the application sent.
pub open spec fn bytes_uploaded(events: Seq<UploadEventView>) -> Seq<Seq<u8>>
    decreases events.len(),
{
    if events.len() == 0 {
        Seq::empty()
    } else {
        (match events[0] {
            UploadEventView::Chunk(data) => seq![data],
            _ => Seq::empty(),
        }) + bytes_uploaded(events.skip(1))
    }
}

/// The messages that went to the server.
pub open spec fn messages_sent(actions: Seq<UploadActionView>) -> Seq<MessageView>
    decreases actions.len(),
{
    if actions.len() == 0 {
        Seq::empty()
    } else {
        (match actions[0] {
            UploadActionView::Send(m) => seq![m],
            UploadActionView::Finish { message: Some(m), .. } => seq![m],
            _ => Seq::empty(),
        }) + messages_sent(actions.skip(1))
    }
}

/// The bytes as messages for the connection.
pub open spec fn as_data(conn_id: u32, chunks: Seq<Seq<u8>>) -> Seq<MessageView> {
    chunks.map_values(|data: Seq<u8>| MessageView::Data { conn_id, data })
}

/// What an upload has told the server at its end, from a state on: nothing while it
/// runs, then one `Close` or one `Abort`, or nothing where the server knows already.
pub open spec fn closing_words(
    conn_id: u32,
    state: UploadState,
    events: Seq<UploadEventView>,
) -> Seq<MessageView> {
    let last = events.last();
    if events.len() == 0 || upload_run(conn_id, state, events).0 != UploadState::Ended {
        Seq::empty()
    } else if last == UploadEventView::Eof {
        seq![MessageView::Close { conn_id }]
    } else if last == UploadEventView::Stopped(Stop::ServerReported) {
        Seq::empty()
    } else {
        seq![MessageView::Abort { conn_id }]
    }
}

/// The server gets every byte that the application sent, in order, and then learns how
/// the upload ended: `Close` exactly where the application finished sending, `Abort`
/// where the connection broke, and nothing where it reported the failure itself.
pub proof fn the_server_gets_the_upload(
    conn_id: u32,
    state: UploadState,
    events: Seq<UploadEventView>,
)
    requires
        upload_possible(conn_id, state, events),
        state != UploadState::Ended,
    ensures
        messages_sent(upload_run(conn_id, state, events).1) == as_data(
            conn_id,
            bytes_uploaded(events),
        ) + closing_words(conn_id, state, events),
    decreases events.len(),
{
    reveal_with_fuel(upload_possible, 2);
    if events.len() == 0 {
        assert(as_data(conn_id, bytes_uploaded(events)) =~= Seq::<MessageView>::empty());
    } else {
        let (next, action) = upload_step(conn_id, state, events[0]);
        let tail = events.skip(1);
        let rest = upload_run(conn_id, next, tail).1;
        assert((seq![action] + rest).skip(1) =~= rest);
        if next == UploadState::Ended {
            assert(tail.len() == 0);
            assert(rest =~= Seq::<UploadActionView>::empty());
            assert(messages_sent(rest) =~= Seq::<MessageView>::empty());
            assert(bytes_uploaded(tail) =~= Seq::<Seq<u8>>::empty());
            assert(bytes_uploaded(events) =~= Seq::<Seq<u8>>::empty());
            assert(as_data(conn_id, bytes_uploaded(events)) =~= Seq::<MessageView>::empty());
            assert(events.last() == events[0]);
        } else {
            the_server_gets_the_upload(conn_id, next, tail);
            if tail.len() > 0 {
                assert(events.last() == tail.last());
            }
            assert(closing_words(conn_id, state, events) == closing_words(conn_id, next, tail));
            let own = match events[0] {
                UploadEventView::Chunk(data) => seq![data],
                _ => Seq::empty(),
            };
            assert(as_data(conn_id, own + bytes_uploaded(tail)) =~= as_data(conn_id, own)
                + as_data(conn_id, bytes_uploaded(tail)));
            match events[0] {
                UploadEventView::Chunk(data) => {
                    assert(as_data(conn_id, own) =~= seq![MessageView::Data { conn_id, data }]);
                },
                _ => {
                    assert(as_data(conn_id, own) =~= Seq::<MessageView>::empty());
                },
            }
        }
    }
}

// From the tunnel to the application.

/// What happened to the download.
#[derive(Debug)]
pub enum DownloadEvent {
    /// The tunnel delivered an event.
    Event(TunnelEvent),
    /// The tunnel dropped the connection.
    Dropped,
    /// The upload ended. One that went away without a word counts as failed.
    UploadEnded(UploadEnd),
    /// The bytes were written to the application, or were not.
    Written(bool),
}

/// What happened, with its contents.
#[verifier::ext_equal]
pub enum DownloadEventView {
    Event(TunnelEventView),
    Dropped,
    UploadEnded(UploadEnd),
    Written(bool),
}

impl View for DownloadEvent {
    type V = DownloadEventView;

    open spec fn view(&self) -> DownloadEventView {
        match *self {
            DownloadEvent::Event(e) => DownloadEventView::Event(e@),
            DownloadEvent::Dropped => DownloadEventView::Dropped,
            DownloadEvent::UploadEnded(e) => DownloadEventView::UploadEnded(e),
            DownloadEvent::Written(ok) => DownloadEventView::Written(ok),
        }
    }
}

/// What the download is doing.
#[derive(Debug, Clone, Copy, PartialEq, Eq, Structural)]
pub enum DownloadPhase {
    /// Waiting for the tunnel and for the upload's end.
    Waiting,
    /// Writing to the application.
    Writing,
    Ended,
}

/// What the download is doing, and what it knows.
#[derive(Debug, Clone, Copy, PartialEq, Eq, Structural)]
pub struct DownloadState {
    pub phase: DownloadPhase,
    /// The response has arrived in full, and the application was told.
    pub response_closed: bool,
    /// The upload is over.
    pub upload_ended: bool,
}

/// What to do next.
#[derive(Debug)]
pub enum DownloadAction {
    /// Wait for the tunnel first, then for the upload's end.
    Wait,
    /// Write the bytes to the application.
    Write(Vec<u8>),
    /// Tell the application that the response is complete, and wait.
    Shutdown,
    /// Tell the application that the response is complete, and end.
    ShutdownAndEnd,
    /// Stop the upload where there is a reason, and end. Where `abort`, reset the
    /// application's connection, so that it cannot take what it has for complete.
    End { stop: Option<Stop>, abort: bool },
}

/// What to do next, with its contents.
#[allow(inconsistent_fields)]
#[verifier::ext_equal]
pub enum DownloadActionView {
    Wait,
    Write(Seq<u8>),
    Shutdown,
    ShutdownAndEnd,
    End { stop: Option<Stop>, abort: bool },
}

impl View for DownloadAction {
    type V = DownloadActionView;

    open spec fn view(&self) -> DownloadActionView {
        match *self {
            DownloadAction::Wait => DownloadActionView::Wait,
            DownloadAction::Write(data) => DownloadActionView::Write(data@),
            DownloadAction::Shutdown => DownloadActionView::Shutdown,
            DownloadAction::ShutdownAndEnd => DownloadActionView::ShutdownAndEnd,
            DownloadAction::End { stop, abort } => DownloadActionView::End { stop, abort },
        }
    }
}

/// The end of a connection that failed: the application is reset unless it has the
/// whole response already.
pub open spec fn failed(s: DownloadState, stop: Stop) -> (DownloadState, DownloadActionView) {
    (
        DownloadState { phase: DownloadPhase::Ended, ..s },
        DownloadActionView::End { stop: Some(stop), abort: !s.response_closed },
    )
}

/// A step: the next state, and what to do.
///
/// Only `Close` earns the application a clean end. After it the download waits for the
/// upload, whose failure the server may still report. Everything else that ends the
/// download is a failure.
pub open spec fn download_step(s: DownloadState, event: DownloadEventView) -> (
    DownloadState,
    DownloadActionView,
) {
    match (s.phase, event) {
        (DownloadPhase::Waiting, DownloadEventView::Event(TunnelEventView::Data(data))) => if data.len()
            == 0 {
            (s, DownloadActionView::Wait)
        } else {
            (
                DownloadState { phase: DownloadPhase::Writing, ..s },
                DownloadActionView::Write(data),
            )
        },
        (DownloadPhase::Waiting, DownloadEventView::Event(TunnelEventView::Close)) => if s.upload_ended {
            (
                DownloadState { phase: DownloadPhase::Ended, response_closed: true, ..s },
                DownloadActionView::ShutdownAndEnd,
            )
        } else {
            (DownloadState { response_closed: true, ..s }, DownloadActionView::Shutdown)
        },
        (DownloadPhase::Waiting, DownloadEventView::Event(TunnelEventView::Error(_))) => failed(
            s,
            Stop::ServerReported,
        ),
        (DownloadPhase::Waiting, DownloadEventView::Event(TunnelEventView::Exit(_))) => failed(
            s,
            Stop::Local,
        ),
        (DownloadPhase::Waiting, DownloadEventView::Dropped) => failed(s, Stop::Local),
        (DownloadPhase::Waiting, DownloadEventView::UploadEnded(UploadEnd::Eof)) => if s.response_closed {
            (
                DownloadState { phase: DownloadPhase::Ended, upload_ended: true, ..s },
                DownloadActionView::End { stop: None, abort: false },
            )
        } else {
            (DownloadState { upload_ended: true, ..s }, DownloadActionView::Wait)
        },
        (DownloadPhase::Waiting, DownloadEventView::UploadEnded(UploadEnd::Failed)) => failed(
            DownloadState { upload_ended: true, ..s },
            Stop::Local,
        ),
        (DownloadPhase::Writing, DownloadEventView::Written(true)) => (
            DownloadState { phase: DownloadPhase::Waiting, ..s },
            DownloadActionView::Wait,
        ),
        (DownloadPhase::Writing, DownloadEventView::Written(false)) => failed(s, Stop::Local),
        _ => (s, DownloadActionView::Wait),
    }
}

/// The half that carries what comes back.
#[derive(Debug)]
pub struct Download {
    state: DownloadState,
}

/// The state of a download at its start.
pub open spec fn download_start() -> DownloadState {
    DownloadState {
        phase: DownloadPhase::Waiting,
        response_closed: false,
        upload_ended: false,
    }
}

impl Download {
    /// What it is doing.
    pub closed spec fn state(&self) -> DownloadState {
        self.state
    }

    pub fn new() -> (r: Self)
        ensures
            r.state() == download_start(),
    {
        Download {
            state: DownloadState {
                phase: DownloadPhase::Waiting,
                response_closed: false,
                upload_ended: false,
            },
        }
    }

    /// Whether the end of the upload is still to come.
    pub fn awaits_upload(&self) -> (r: bool)
        ensures
            r == !self.state().upload_ended,
    {
        !self.state.upload_ended
    }

    fn fail(&mut self, stop: Stop) -> (r: DownloadAction)
        ensures
            (final(self).state(), r@) == failed(old(self).state(), stop),
    {
        let abort = !self.state.response_closed;
        self.state = DownloadState { phase: DownloadPhase::Ended, ..self.state };
        DownloadAction::End { stop: Some(stop), abort }
    }

    /// Takes what happened.
    pub fn on_event(&mut self, event: DownloadEvent) -> (r: DownloadAction)
        ensures
            (final(self).state(), r@) == download_step(old(self).state(), event@),
    {
        let s = self.state;
        match (s.phase, event) {
            (DownloadPhase::Waiting, DownloadEvent::Event(e)) => match e {
                TunnelEvent::Data(data) => if data.len() == 0 {
                    DownloadAction::Wait
                } else {
                    self.state = DownloadState { phase: DownloadPhase::Writing, ..s };
                    DownloadAction::Write(data)
                },
                TunnelEvent::Close => if s.upload_ended {
                    self.state = DownloadState {
                        phase: DownloadPhase::Ended,
                        response_closed: true,
                        ..s
                    };
                    DownloadAction::ShutdownAndEnd
                } else {
                    self.state = DownloadState { response_closed: true, ..s };
                    DownloadAction::Shutdown
                },
                TunnelEvent::Error(_) => self.fail(Stop::ServerReported),
                TunnelEvent::Exit(_) => self.fail(Stop::Local),
            },
            (DownloadPhase::Waiting, DownloadEvent::Dropped) => self.fail(Stop::Local),
            (DownloadPhase::Waiting, DownloadEvent::UploadEnded(end)) => match end {
                UploadEnd::Eof => if s.response_closed {
                    self.state = DownloadState {
                        phase: DownloadPhase::Ended,
                        upload_ended: true,
                        ..s
                    };
                    DownloadAction::End { stop: None, abort: false }
                } else {
                    self.state = DownloadState { upload_ended: true, ..s };
                    DownloadAction::Wait
                },
                UploadEnd::Failed => {
                    self.state = DownloadState { upload_ended: true, ..s };
                    self.fail(Stop::Local)
                },
            },
            (DownloadPhase::Writing, DownloadEvent::Written(ok)) => if ok {
                self.state = DownloadState { phase: DownloadPhase::Waiting, ..s };
                DownloadAction::Wait
            } else {
                self.fail(Stop::Local)
            },
            _ => DownloadAction::Wait,
        }
    }
}

/// What the download does over a series of events, and the state it ends up in.
pub open spec fn download_run(s: DownloadState, events: Seq<DownloadEventView>) -> (
    DownloadState,
    Seq<DownloadActionView>,
)
    decreases events.len(),
{
    if events.len() == 0 {
        (s, Seq::empty())
    } else {
        let (next, action) = download_step(s, events[0]);
        let (end, actions) = download_run(next, events.skip(1));
        (end, seq![action] + actions)
    }
}

/// The application was told that the response is complete.
pub open spec fn tells_complete(actions: Seq<DownloadActionView>) -> bool
    decreases actions.len(),
{
    actions.len() > 0 && (actions[0] is Shutdown || actions[0] is ShutdownAndEnd || tells_complete(
        actions.skip(1),
    ))
}

/// The application was reset.
pub open spec fn resets(actions: Seq<DownloadActionView>) -> bool
    decreases actions.len(),
{
    actions.len() > 0 && ((actions[0] matches DownloadActionView::End { abort, .. } && abort)
        || resets(actions.skip(1)))
}

/// The application gets exactly one of two things from a connection that has ended: it
/// is told that the response is complete, or it is reset. A response that was cut short
/// is never taken for a complete one, and one that is complete is never destroyed.
pub proof fn complete_or_reset(s: DownloadState, events: Seq<DownloadEventView>)
    requires
        s.phase != DownloadPhase::Ended,
        !s.response_closed,
    ensures
        ({
            let (end, actions) = download_run(s, events);
            &&& end.response_closed <==> tells_complete(actions)
            &&& !(tells_complete(actions) && resets(actions))
            &&& end.phase == DownloadPhase::Ended ==> (tells_complete(actions) <==> !resets(
                actions,
            ))
            &&& end.phase != DownloadPhase::Ended ==> !resets(actions)
        }),
    decreases events.len(),
{
    if events.len() > 0 {
        let (next, action) = download_step(s, events[0]);
        let tail = events.skip(1);
        let (end, rest) = download_run(next, tail);
        assert((seq![action] + rest).skip(1) =~= rest);
        if next.phase == DownloadPhase::Ended {
            ended_is_silent(next, tail);
        } else if next.response_closed {
            closed_never_resets(next, tail);
        } else {
            complete_or_reset(next, tail);
        }
    }
}

proof fn ended_is_silent(s: DownloadState, events: Seq<DownloadEventView>)
    requires
        s.phase == DownloadPhase::Ended,
    ensures
        download_run(s, events).0 == s,
        !tells_complete(download_run(s, events).1),
        !resets(download_run(s, events).1),
    decreases events.len(),
{
    if events.len() > 0 {
        let (next, action) = download_step(s, events[0]);
        let rest = download_run(next, events.skip(1)).1;
        assert((seq![action] + rest).skip(1) =~= rest);
        ended_is_silent(next, events.skip(1));
    }
}

proof fn closed_never_resets(s: DownloadState, events: Seq<DownloadEventView>)
    requires
        s.response_closed,
    ensures
        download_run(s, events).0.response_closed,
        !resets(download_run(s, events).1),
    decreases events.len(),
{
    if events.len() > 0 {
        let (next, action) = download_step(s, events[0]);
        let rest = download_run(next, events.skip(1)).1;
        assert((seq![action] + rest).skip(1) =~= rest);
        closed_never_resets(next, events.skip(1));
    }
}

/// The application is told that the response is complete only by the server's `Close`.
pub proof fn only_close_completes(s: DownloadState, event: DownloadEventView)
    ensures
        ({
            let (next, action) = download_step(s, event);
            &&& action is Shutdown || action is ShutdownAndEnd ==> event
                == DownloadEventView::Event(TunnelEventView::Close)
            &&& next.response_closed && !s.response_closed ==> action is Shutdown || action
                is ShutdownAndEnd
        }),
{
}

/// The event can happen in the state: bytes are written only where some were to be.
pub open spec fn download_expects(s: DownloadState, event: DownloadEventView) -> bool {
    match s.phase {
        DownloadPhase::Waiting => !(event is Written) && (event is UploadEnded
            ==> !s.upload_ended),
        DownloadPhase::Writing => event is Written,
        DownloadPhase::Ended => false,
    }
}

/// The events can happen one after the other.
pub open spec fn download_possible(s: DownloadState, events: Seq<DownloadEventView>) -> bool
    decreases events.len(),
{
    events.len() == 0 || {
        &&& download_expects(s, events[0])
        &&& download_possible(download_step(s, events[0]).0, events.skip(1))
    }
}

/// The bytes that the tunnel delivered; empty pieces do not count.
pub open spec fn bytes_delivered(events: Seq<DownloadEventView>) -> Seq<Seq<u8>>
    decreases events.len(),
{
    if events.len() == 0 {
        Seq::empty()
    } else {
        (match events[0] {
            DownloadEventView::Event(TunnelEventView::Data(data)) => if data.len() == 0 {
                Seq::empty()
            } else {
                seq![data]
            },
            _ => Seq::empty(),
        }) + bytes_delivered(events.skip(1))
    }
}

/// The bytes that were written to the application.
pub open spec fn bytes_downloaded(actions: Seq<DownloadActionView>) -> Seq<Seq<u8>>
    decreases actions.len(),
{
    if actions.len() == 0 {
        Seq::empty()
    } else {
        (match actions[0] {
            DownloadActionView::Write(data) => seq![data],
            _ => Seq::empty(),
        }) + bytes_downloaded(actions.skip(1))
    }
}

/// What the tunnel delivers is written to the application in order and once.
pub proof fn downloads_keep_their_order(s: DownloadState, events: Seq<DownloadEventView>)
    requires
        download_possible(s, events),
    ensures
        bytes_downloaded(download_run(s, events).1) == bytes_delivered(events),
    decreases events.len(),
{
    if events.len() > 0 {
        let (next, action) = download_step(s, events[0]);
        downloads_keep_their_order(next, events.skip(1));
        let rest = download_run(next, events.skip(1)).1;
        assert((seq![action] + rest).skip(1) =~= rest);
    }
}

/// A finished upload does not cut off the response, nor a finished response the
/// upload: where neither half failed, the download ends only when both are over.
pub proof fn both_directions_finish(s: DownloadState, events: Seq<DownloadEventView>)
    requires
        s.phase != DownloadPhase::Ended,
    ensures
        ({
            let (end, actions) = download_run(s, events);
            end.phase == DownloadPhase::Ended && !stops_the_upload(actions) ==> end.response_closed
                && end.upload_ended
        }),
    decreases events.len(),
{
    if events.len() > 0 {
        let (next, action) = download_step(s, events[0]);
        let tail = events.skip(1);
        let rest = download_run(next, tail).1;
        assert((seq![action] + rest).skip(1) =~= rest);
        if next.phase == DownloadPhase::Ended {
            ended_is_silent(next, tail);
        } else {
            both_directions_finish(next, tail);
        }
    }
}

/// The upload was stopped.
pub open spec fn stops_the_upload(actions: Seq<DownloadActionView>) -> bool
    decreases actions.len(),
{
    actions.len() > 0 && ((actions[0] matches DownloadActionView::End { stop, .. } && stop is Some)
        || stops_the_upload(actions.skip(1)))
}

// What the halves do, told by what happened.

proof fn upload_one_more(conn_id: u32, s: UploadState, events: Seq<UploadEventView>)
    requires
        events.len() > 0,
    ensures
        ({
            let (before, actions) = upload_run(conn_id, s, events.drop_last());
            let (after, action) = upload_step(conn_id, before, events.last());
            upload_run(conn_id, s, events) == (after, actions.push(action))
        }),
        upload_possible(conn_id, s, events) ==> upload_possible(conn_id, s, events.drop_last()) && upload_expects(
            upload_run(conn_id, s, events.drop_last()).0,
            events.last(),
        ),
    decreases events.len(),
{
    reveal_with_fuel(upload_run, 2);
    reveal_with_fuel(upload_possible, 2);
    let (next, action) = upload_step(conn_id, s, events[0]);
    let tail = events.skip(1);
    if events.len() == 1 {
        assert(events.drop_last() =~= Seq::<UploadEventView>::empty());
        assert(tail =~= Seq::<UploadEventView>::empty());
        assert(upload_run(conn_id, s, events).1 =~= Seq::<UploadActionView>::empty().push(action));
    } else {
        upload_one_more(conn_id, next, tail);
        assert(tail.drop_last() =~= events.drop_last().skip(1));
        let before = upload_run(conn_id, next, tail.drop_last());
        let last = upload_step(conn_id, before.0, events.last()).1;
        assert(seq![action] + before.1.push(last) =~= (seq![action] + before.1).push(last));
    }
}

/// Whatever happened before, an upload answers the latest event with this: bytes go to the
/// server as they are, the end of the application's stream closes the connection, a failure
/// aborts it beside everything else, and where the server reported the failure it is told
/// nothing. It waits for the tunnel after each piece, and it is over after an end or a
/// failure.
pub proof fn the_latest_event_decides_the_upload(conn_id: u32, events: Seq<UploadEventView>)
    requires
        upload_possible(conn_id, UploadState::Reading, events),
        events.len() > 0,
    ensures
        ({
            let (end, actions) = upload_run(conn_id, UploadState::Reading, events);
            &&& actions.len() == events.len()
            &&& actions.last() == (match events.last() {
                UploadEventView::Chunk(data) => UploadActionView::Send(
                    MessageView::Data { conn_id, data },
                ),
                UploadEventView::Eof => UploadActionView::Finish {
                    message: Some(MessageView::Close { conn_id }),
                    detached: false,
                    report: UploadEnd::Eof,
                },
                UploadEventView::ReadFailed => UploadActionView::Finish {
                    message: Some(MessageView::Abort { conn_id }),
                    detached: true,
                    report: UploadEnd::Failed,
                },
                UploadEventView::Stopped(Stop::Local) => UploadActionView::Finish {
                    message: Some(MessageView::Abort { conn_id }),
                    detached: true,
                    report: UploadEnd::Eof,
                },
                UploadEventView::Stopped(Stop::ServerReported) => UploadActionView::Finish {
                    message: None,
                    detached: false,
                    report: UploadEnd::Eof,
                },
                UploadEventView::Sent(true) => UploadActionView::Wait,
                UploadEventView::Sent(false) => UploadActionView::Finish {
                    message: Some(MessageView::Abort { conn_id }),
                    detached: true,
                    report: UploadEnd::Failed,
                },
            })
            &&& end == UploadState::Sending <==> events.last() is Chunk
            &&& end == UploadState::Reading <==> events.last() == UploadEventView::Sent(true)
        }),
    decreases events.len(),
{
    upload_one_more(conn_id, UploadState::Reading, events);
    let past = events.drop_last();
    if past.len() > 0 {
        the_latest_event_decides_the_upload(conn_id, past);
    }
}

/// An upload that is over does nothing more, and one that waits for something else does not
/// take what comes out of turn.
pub proof fn uploads_keep_their_turn(conn_id: u32, state: UploadState, event: UploadEventView)
    requires
        state == UploadState::Ended || (event is Sent <==> state == UploadState::Reading),
    ensures
        upload_step(conn_id, state, event) == (state, UploadActionView::Wait),
{
}

proof fn download_one_more(s: DownloadState, events: Seq<DownloadEventView>)
    requires
        events.len() > 0,
    ensures
        ({
            let (before, actions) = download_run(s, events.drop_last());
            let (after, action) = download_step(before, events.last());
            download_run(s, events) == (after, actions.push(action))
        }),
        download_possible(s, events) ==> download_possible(s, events.drop_last()) && download_expects(
            download_run(s, events.drop_last()).0,
            events.last(),
        ),
    decreases events.len(),
{
    reveal_with_fuel(download_run, 2);
    reveal_with_fuel(download_possible, 2);
    let (next, action) = download_step(s, events[0]);
    let tail = events.skip(1);
    if events.len() == 1 {
        assert(events.drop_last() =~= Seq::<DownloadEventView>::empty());
        assert(tail =~= Seq::<DownloadEventView>::empty());
        assert(download_run(s, events).1 =~= Seq::<DownloadActionView>::empty().push(action));
    } else {
        download_one_more(next, tail);
        assert(tail.drop_last() =~= events.drop_last().skip(1));
        let before = download_run(next, tail.drop_last());
        let last = download_step(before.0, events.last()).1;
        assert(seq![action] + before.1.push(last) =~= (seq![action] + before.1).push(last));
    }
}

/// The server has said that the response is complete.
pub open spec fn response_is_over(events: Seq<DownloadEventView>) -> bool {
    events.contains(DownloadEventView::Event(TunnelEventView::Close))
}

/// The upload has said how it ended.
pub open spec fn upload_is_over(events: Seq<DownloadEventView>) -> bool {
    exists|i: int| 0 <= i < events.len() && #[trigger] events[i] is UploadEnded
}

/// Whatever happened before, a download answers the latest event with this: bytes are
/// written; the end of the response is passed on, and with the end of the upload ends
/// everything; a failure stops the upload, and resets the application unless it has the
/// whole response.
pub proof fn the_latest_event_decides_the_download(events: Seq<DownloadEventView>)
    requires
        download_possible(download_start(), events),
        events.len() > 0,
    ensures
        ({
            let (end, actions) = download_run(download_start(), events);
            let past = events.drop_last();
            let abort = !response_is_over(past);
            &&& actions.len() == events.len()
            &&& actions.last() == (match events.last() {
                DownloadEventView::Event(TunnelEventView::Data(data)) => if data.len() == 0 {
                    DownloadActionView::Wait
                } else {
                    DownloadActionView::Write(data)
                },
                DownloadEventView::Event(TunnelEventView::Close) => if upload_is_over(past) {
                    DownloadActionView::ShutdownAndEnd
                } else {
                    DownloadActionView::Shutdown
                },
                DownloadEventView::Event(TunnelEventView::Error(_)) => DownloadActionView::End {
                    stop: Some(Stop::ServerReported),
                    abort,
                },
                DownloadEventView::Event(TunnelEventView::Exit(_)) => DownloadActionView::End {
                    stop: Some(Stop::Local),
                    abort,
                },
                DownloadEventView::Dropped => DownloadActionView::End {
                    stop: Some(Stop::Local),
                    abort,
                },
                DownloadEventView::UploadEnded(UploadEnd::Eof) => if response_is_over(past) {
                    DownloadActionView::End { stop: None, abort: false }
                } else {
                    DownloadActionView::Wait
                },
                DownloadEventView::UploadEnded(UploadEnd::Failed) => DownloadActionView::End {
                    stop: Some(Stop::Local),
                    abort,
                },
                DownloadEventView::Written(true) => DownloadActionView::Wait,
                DownloadEventView::Written(false) => DownloadActionView::End {
                    stop: Some(Stop::Local),
                    abort,
                },
            })
            &&& end.response_closed <==> response_is_over(events)
            &&& end.upload_ended <==> upload_is_over(events)
            &&& end.phase == DownloadPhase::Ended <==> actions.last() is End || actions.last()
                is ShutdownAndEnd
            &&& end.phase == DownloadPhase::Writing <==> actions.last() is Write
        }),
    decreases events.len(),
{
    download_one_more(download_start(), events);
    let past = events.drop_last();
    let last = events.last();
    assert(events =~= past.push(last));
    assert(response_is_over(events) <==> response_is_over(past) || last
        == DownloadEventView::Event(TunnelEventView::Close)) by {
        let close = DownloadEventView::Event(TunnelEventView::Close);
        if response_is_over(past) {
            let i = choose|i: int| 0 <= i < past.len() && past[i] == close;
            assert(events[i] == close);
        }
        if last == close {
            assert(events[events.len() - 1] == close);
        }
        if response_is_over(events) && last != close {
            let i = choose|i: int| 0 <= i < events.len() && events[i] == close;
            assert(past[i] == close);
        }
    }
    assert(upload_is_over(events) <==> upload_is_over(past) || last is UploadEnded) by {
        if upload_is_over(past) {
            let i = choose|i: int| 0 <= i < past.len() && #[trigger] past[i] is UploadEnded;
            assert(events[i] is UploadEnded);
        }
        if last is UploadEnded {
            assert(events[events.len() - 1] is UploadEnded);
        }
        if upload_is_over(events) && !(last is UploadEnded) {
            let i = choose|i: int| 0 <= i < events.len() && #[trigger] events[i] is UploadEnded;
            assert(past[i] is UploadEnded);
        }
    }
    if past.len() > 0 {
        the_latest_event_decides_the_download(past);
    }
}

/// A download that is over does nothing more, and one that waits for something else does not
/// take what comes out of turn.
pub proof fn downloads_keep_their_turn(s: DownloadState, event: DownloadEventView)
    requires
        s.phase == DownloadPhase::Ended || (event is Written <==> s.phase
            == DownloadPhase::Waiting),
    ensures
        download_step(s, event) == (s, DownloadActionView::Wait),
{
}

/// Connections are counted from one, and after the last number from zero again.
pub proof fn connections_are_numbered(first: u32, n: nat)
    ensures
        FIRST_CONN_ID == 1,
        first + n <= u32::MAX ==> nth_conn_id(first, n) == first + n,
        nth_conn_id(u32::MAX, 1) == 0,
        0 <= nth_conn_id(first, n) <= u32::MAX,
{
}

/// A download starts out waiting, with nothing over yet: everything but the end of a write
/// can happen to it first.
pub proof fn downloads_start_out_waiting(event: DownloadEventView)
    ensures
        download_possible(download_start(), seq![event]) <==> !(event is Written),
        !download_start().response_closed,
        !download_start().upload_ended,
{
    reveal_with_fuel(download_possible, 2);
}

} // verus!
