//! Copying files through the tunnel: a compressed archive goes one way, and the side
//! that unpacks it says how that went. Both ends of both directions are machines that
//! take what happened and say what to do next.

use crate::protocol::{Message, MessageView};
use crate::server;
use crate::text;
use crate::tunnel::{TunnelEvent, TunnelEventView};
use crate::wire;
use vstd::prelude::*;

verus! {

broadcast use vstd::seq::group_seq_axioms;

/// Why a transfer failed.
#[derive(Debug)]
pub enum TransferError {
    /// The other side reported an error.
    Remote(String),
    /// The other side reported this exit code.
    Exit(i32),
    /// The connection ended while the archive was being sent.
    ClosedEarly,
    /// The connection ended before the server confirmed the transfer.
    NotConfirmed,
    /// The server ended the stream without confirming the transfer.
    ServerClosed,
    /// The tunnel dropped the connection.
    StreamEnded,
    /// This side failed to pack, send or unpack the archive.
    Local(String),
}

/// What a failure says.
#[verifier::ext_equal]
pub enum TransferErrorView {
    Remote(Seq<char>),
    Exit(i32),
    ClosedEarly,
    NotConfirmed,
    ServerClosed,
    StreamEnded,
    Local(Seq<char>),
}

impl View for TransferError {
    type V = TransferErrorView;

    open spec fn view(&self) -> TransferErrorView {
        match *self {
            TransferError::Remote(m) => TransferErrorView::Remote(m@),
            TransferError::Exit(code) => TransferErrorView::Exit(code),
            TransferError::ClosedEarly => TransferErrorView::ClosedEarly,
            TransferError::NotConfirmed => TransferErrorView::NotConfirmed,
            TransferError::ServerClosed => TransferErrorView::ServerClosed,
            TransferError::StreamEnded => TransferErrorView::StreamEnded,
            TransferError::Local(m) => TransferErrorView::Local(m@),
        }
    }
}

/// What a failure says to a user.
pub open spec fn error_text(e: TransferErrorView) -> Seq<char> {
    match e {
        TransferErrorView::Remote(m) => "remote error: "@ + m,
        TransferErrorView::Exit(code) => "server reported transfer failure (exit "@
            + text::signed_decimal(code as int) + ")"@,
        TransferErrorView::ClosedEarly => "connection closed before the transfer completed"@,
        TransferErrorView::NotConfirmed =>
            "connection closed before the server confirmed the transfer"@,
        TransferErrorView::ServerClosed => "server closed the stream unexpectedly"@,
        TransferErrorView::StreamEnded => "event stream ended unexpectedly"@,
        TransferErrorView::Local(m) => m,
    }
}

impl TransferError {
    /// What the failure says to a user.
    pub fn message(&self) -> (r: String)
        ensures
            r@ == error_text(self@),
    {
        match self {
            TransferError::Remote(m) => String::from_str("remote error: ").concat(m.as_str()),
            TransferError::Exit(code) => String::from_str(
                "server reported transfer failure (exit ",
            ).concat(text::signed_decimal_of(*code).as_str()).concat(")"),
            TransferError::ClosedEarly => String::from_str(
                "connection closed before the transfer completed",
            ),
            TransferError::NotConfirmed => String::from_str(
                "connection closed before the server confirmed the transfer",
            ),
            TransferError::ServerClosed => String::from_str(
                "server closed the stream unexpectedly",
            ),
            TransferError::StreamEnded => String::from_str("event stream ended unexpectedly"),
            TransferError::Local(m) => String::from_str(m.as_str()),
        }
    }
}

/// What was said where something did not succeed; nothing where it did.
pub open spec fn outcome_view(r: Result<(), String>) -> Option<Seq<char>> {
    match r {
        Ok(_) => None,
        Err(e) => Some(e@),
    }
}

// Sending an archive to the server.

/// What happened to an upload.
#[derive(Debug)]
pub enum PushEvent {
    /// The packer has some bytes.
    Chunk(Vec<u8>),
    /// The packer has no more.
    ChunksEnd,
    /// The packer has ended, with this outcome.
    Packed(Result<(), String>),
    /// The bytes were taken by the tunnel, or were not.
    Sent(Result<(), String>),
    /// The tunnel delivered an event.
    Event(TunnelEvent),
    /// The tunnel dropped the connection.
    Dropped,
}

/// What happened, with its contents.
#[verifier::ext_equal]
pub enum PushEventView {
    Chunk(Seq<u8>),
    ChunksEnd,
    Packed(Option<Seq<char>>),
    Sent(Option<Seq<char>>),
    Event(TunnelEventView),
    Dropped,
}

impl View for PushEvent {
    type V = PushEventView;

    open spec fn view(&self) -> PushEventView {
        match *self {
            PushEvent::Chunk(data) => PushEventView::Chunk(data@),
            PushEvent::ChunksEnd => PushEventView::ChunksEnd,
            PushEvent::Packed(r) => PushEventView::Packed(outcome_view(r)),
            PushEvent::Sent(r) => PushEventView::Sent(outcome_view(r)),
            PushEvent::Event(e) => PushEventView::Event(e@),
            PushEvent::Dropped => PushEventView::Dropped,
        }
    }
}

/// What an upload is doing.
#[derive(Debug, Clone, Copy, PartialEq, Eq, Structural)]
pub enum PushState {
    /// Waiting for the packer, and for the server.
    Streaming,
    /// Handing bytes to the tunnel.
    Sending,
    /// Waiting for the packer's outcome.
    Joining,
    /// Waiting for the server's confirmation.
    Confirming,
    Ended,
}

/// What to do next.
#[derive(Debug)]
pub enum PushAction {
    Wait,
    /// Hand the message to the tunnel.
    Send(Message),
    /// Wait for the packer's outcome.
    Join,
    /// Tell the server that the archive is complete, and wait for its confirmation.
    CloseAndConfirm(Message),
    /// Tell the server that no more comes, and fail.
    CloseAndFail { message: Message, error: TransferError },
    /// The transfer is over.
    End(Result<(), TransferError>),
}

/// What to do next, with its contents.
#[verifier::ext_equal]
pub enum PushActionView {
    Wait,
    Send(MessageView),
    Join,
    CloseAndConfirm(MessageView),
    CloseAndFail { message: MessageView, error: TransferErrorView },
    /// Over, with this error if there is one.
    End(Option<TransferErrorView>),
}

impl View for PushAction {
    type V = PushActionView;

    open spec fn view(&self) -> PushActionView {
        match *self {
            PushAction::Wait => PushActionView::Wait,
            PushAction::Send(m) => PushActionView::Send(m@),
            PushAction::Join => PushActionView::Join,
            PushAction::CloseAndConfirm(m) => PushActionView::CloseAndConfirm(m@),
            PushAction::CloseAndFail { message, error } => PushActionView::CloseAndFail {
                message: message@,
                error: error@,
            },
            PushAction::End(r) => PushActionView::End(
                match r {
                    Ok(_) => None,
                    Err(e) => Some(e@),
                },
            ),
        }
    }
}

/// The end of an upload that failed: the server is told that no more comes.
pub open spec fn push_failed(conn_id: u32, error: TransferErrorView) -> (
    PushState,
    PushActionView,
) {
    (
        PushState::Ended,
        PushActionView::CloseAndFail { message: MessageView::Close { conn_id }, error },
    )
}

/// A step of an upload: the next state, and what to do.
///
/// Whatever happens, the server is told that no more comes. The transfer has succeeded
/// only when the server says so with the exit code 0.
pub open spec fn push_step(conn_id: u32, state: PushState, event: PushEventView) -> (
    PushState,
    PushActionView,
) {
    match (state, event) {
        (PushState::Streaming, PushEventView::Chunk(data)) => (
            PushState::Sending,
            PushActionView::Send(MessageView::Data { conn_id, data }),
        ),
        (PushState::Streaming, PushEventView::ChunksEnd) => (
            PushState::Joining,
            PushActionView::Join,
        ),
        (PushState::Streaming, PushEventView::Event(TunnelEventView::Error(m))) => push_failed(
            conn_id,
            TransferErrorView::Remote(m),
        ),
        (PushState::Streaming, PushEventView::Event(TunnelEventView::Close)) => push_failed(
            conn_id,
            TransferErrorView::ClosedEarly,
        ),
        (PushState::Streaming, PushEventView::Dropped) => push_failed(
            conn_id,
            TransferErrorView::ClosedEarly,
        ),
        (PushState::Sending, PushEventView::Sent(None)) => (
            PushState::Streaming,
            PushActionView::Wait,
        ),
        (PushState::Sending, PushEventView::Sent(Some(e))) => push_failed(
            conn_id,
            TransferErrorView::Local(e),
        ),
        (PushState::Joining, PushEventView::Packed(None)) => (
            PushState::Confirming,
            PushActionView::CloseAndConfirm(MessageView::Close { conn_id }),
        ),
        (PushState::Joining, PushEventView::Packed(Some(e))) => push_failed(
            conn_id,
            TransferErrorView::Local(e),
        ),
        (PushState::Confirming, PushEventView::Event(TunnelEventView::Exit(code))) => (
            PushState::Ended,
            PushActionView::End(
                if code == 0 {
                    None
                } else {
                    Some(TransferErrorView::Exit(code))
                },
            ),
        ),
        (PushState::Confirming, PushEventView::Event(TunnelEventView::Error(m))) => (
            PushState::Ended,
            PushActionView::End(Some(TransferErrorView::Remote(m))),
        ),
        (PushState::Confirming, PushEventView::Event(TunnelEventView::Close)) => (
            PushState::Ended,
            PushActionView::End(Some(TransferErrorView::NotConfirmed)),
        ),
        (PushState::Confirming, PushEventView::Dropped) => (
            PushState::Ended,
            PushActionView::End(Some(TransferErrorView::NotConfirmed)),
        ),
        _ => (state, PushActionView::Wait),
    }
}

/// An upload, seen from the client.
#[derive(Debug)]
pub struct PushSession {
    conn_id: u32,
    state: PushState,
}

impl PushSession {
    /// The connection.
    pub closed spec fn conn_id(&self) -> u32 {
        self.conn_id
    }

    /// What it is doing.
    pub closed spec fn state(&self) -> PushState {
        self.state
    }

    pub fn new(conn_id: u32) -> (r: Self)
        ensures
            r.conn_id() == conn_id,
            r.state() == PushState::Streaming,
    {
        PushSession { conn_id, state: PushState::Streaming }
    }

    /// The request that starts the upload.
    pub fn request(&self, path: String) -> (r: Message)
        ensures
            r@ == (MessageView::Push { conn_id: self.conn_id(), path: path@ }),
    {
        Message::Push { conn_id: self.conn_id, path }
    }

    /// Whether the server's events are awaited beside the packer.
    pub fn streaming(&self) -> (r: bool)
        ensures
            r == (self.state() == PushState::Streaming),
    {
        self.state == PushState::Streaming
    }

    fn fail(&mut self, error: TransferError) -> (r: PushAction)
        ensures
            final(self).conn_id() == old(self).conn_id(),
            (final(self).state(), r@) == push_failed(old(self).conn_id(), error@),
    {
        self.state = PushState::Ended;
        PushAction::CloseAndFail { message: Message::Close { conn_id: self.conn_id }, error }
    }

    fn end(&mut self, result: Result<(), TransferError>) -> (r: PushAction)
        ensures
            final(self).conn_id() == old(self).conn_id(),
            final(self).state() == PushState::Ended,
            r == PushAction::End(result),
    {
        self.state = PushState::Ended;
        PushAction::End(result)
    }

    /// Takes what happened.
    pub fn on_event(&mut self, event: PushEvent) -> (r: PushAction)
        ensures
            final(self).conn_id() == old(self).conn_id(),
            (final(self).state(), r@) == push_step(old(self).conn_id(), old(self).state(), event@),
    {
        let conn_id: u32 = self.conn_id;
        match (self.state, event) {
            (PushState::Streaming, PushEvent::Chunk(data)) => {
                self.state = PushState::Sending;
                PushAction::Send(Message::Data { conn_id, data })
            },
            (PushState::Streaming, PushEvent::ChunksEnd) => {
                self.state = PushState::Joining;
                PushAction::Join
            },
            (PushState::Streaming, PushEvent::Event(e)) => match e {
                TunnelEvent::Error(m) => self.fail(TransferError::Remote(m)),
                TunnelEvent::Close => self.fail(TransferError::ClosedEarly),
                _ => PushAction::Wait,
            },
            (PushState::Streaming, PushEvent::Dropped) => self.fail(TransferError::ClosedEarly),
            (PushState::Sending, PushEvent::Sent(r)) => match r {
                Ok(_) => {
                    self.state = PushState::Streaming;
                    PushAction::Wait
                },
                Err(e) => self.fail(TransferError::Local(e)),
            },
            (PushState::Joining, PushEvent::Packed(r)) => match r {
                Ok(_) => {
                    self.state = PushState::Confirming;
                    PushAction::CloseAndConfirm(Message::Close { conn_id })
                },
                Err(e) => self.fail(TransferError::Local(e)),
            },
            (PushState::Confirming, PushEvent::Event(e)) => match e {
                TunnelEvent::Exit(code) => if code == 0 {
                    self.end(Ok(()))
                } else {
                    self.end(Err(TransferError::Exit(code)))
                },
                TunnelEvent::Error(m) => self.end(Err(TransferError::Remote(m))),
                TunnelEvent::Close => self.end(Err(TransferError::NotConfirmed)),
                TunnelEvent::Data(_) => PushAction::Wait,
            },
            (PushState::Confirming, PushEvent::Dropped) => self.end(
                Err(TransferError::NotConfirmed),
            ),
            _ => PushAction::Wait,
        }
    }
}

/// What an upload does over a series of events, and the state it ends up in.
pub open spec fn push_run(conn_id: u32, state: PushState, events: Seq<PushEventView>) -> (
    PushState,
    Seq<PushActionView>,
)
    decreases events.len(),
{
    if events.len() == 0 {
        (state, Seq::empty())
    } else {
        let (next, action) = push_step(conn_id, state, events[0]);
        let (end, actions) = push_run(conn_id, next, events.skip(1));
        (end, seq![action] + actions)
    }
}

/// The upload was reported as a success.
pub open spec fn push_succeeds(actions: Seq<PushActionView>) -> bool
    decreases actions.len(),
{
    actions.len() > 0 && (actions[0] == PushActionView::End(None)
        || push_succeeds(actions.skip(1)))
}

/// How many times the server was told that no more comes.
pub open spec fn closes(actions: Seq<PushActionView>) -> nat
    decreases actions.len(),
{
    if actions.len() == 0 {
        0
    } else {
        closes(actions.skip(1)) + (if actions[0] is CloseAndConfirm || actions[0]
            is CloseAndFail {
            1nat
        } else {
            0
        })
    }
}

/// An upload succeeds only where the server has confirmed it with the exit code 0 and
/// the whole archive was packed without an error.
pub proof fn uploads_are_confirmed(conn_id: u32, state: PushState, events: Seq<PushEventView>)
    requires
        push_succeeds(push_run(conn_id, state, events).1),
    ensures
        events.contains(PushEventView::Event(TunnelEventView::Exit(0))),
        state == PushState::Streaming || state == PushState::Sending || state
            == PushState::Joining ==> events.contains(
            PushEventView::Packed(None),
        ),
    decreases events.len(),
{
    let (next, action) = push_step(conn_id, state, events[0]);
    let tail = events.skip(1);
    let rest = push_run(conn_id, next, tail).1;
    assert((seq![action] + rest).skip(1) =~= rest);
    if action == PushActionView::End(None) {
        assert(events[0] == PushEventView::Event(TunnelEventView::Exit(0)));
    } else {
        if next == PushState::Ended {
            push_ended_is_silent(conn_id, tail);
        }
        uploads_are_confirmed(conn_id, next, tail);
        let i = choose|i: int|
            0 <= i < tail.len() && tail[i] == PushEventView::Event(TunnelEventView::Exit(0));
        assert(events[i + 1] == tail[i]);
        let packed = PushEventView::Packed(None);
        if state == PushState::Joining && events[0] == packed {
            assert(events[0] == packed);
        } else if state == PushState::Streaming || state == PushState::Sending || state
            == PushState::Joining {
            let j = choose|j: int| 0 <= j < tail.len() && tail[j] == packed;
            assert(events[j + 1] == tail[j]);
        }
    }
}

proof fn push_ended_is_silent(conn_id: u32, events: Seq<PushEventView>)
    ensures
        !push_succeeds(push_run(conn_id, PushState::Ended, events).1),
        closes(push_run(conn_id, PushState::Ended, events).1) == 0,
        push_run(conn_id, PushState::Ended, events).0 == PushState::Ended,
    decreases events.len(),
{
    if events.len() > 0 {
        let (next, action) = push_step(conn_id, PushState::Ended, events[0]);
        let rest = push_run(conn_id, next, events.skip(1)).1;
        assert((seq![action] + rest).skip(1) =~= rest);
        push_ended_is_silent(conn_id, events.skip(1));
    }
}

/// However an upload ends, the server is told exactly once that no more comes, so that
/// it never waits for the rest of an archive.
pub proof fn uploads_are_closed_once(conn_id: u32, state: PushState, events: Seq<PushEventView>)
    ensures
        ({
            let (end, actions) = push_run(conn_id, state, events);
            let open = state == PushState::Streaming || state == PushState::Sending || state
                == PushState::Joining;
            &&& !open ==> closes(actions) == 0
            &&& open && (end == PushState::Ended || end == PushState::Confirming) ==> closes(
                actions,
            ) == 1
            &&& open && !(end == PushState::Ended || end == PushState::Confirming) ==> closes(
                actions,
            ) == 0
        }),
    decreases events.len(),
{
    if events.len() > 0 {
        let (next, action) = push_step(conn_id, state, events[0]);
        let rest = push_run(conn_id, next, events.skip(1)).1;
        assert((seq![action] + rest).skip(1) =~= rest);
        uploads_are_closed_once(conn_id, next, events.skip(1));
        if next == PushState::Ended {
            push_ended_is_silent(conn_id, events.skip(1));
        }
        if next == PushState::Confirming {
            confirming_stays_late(conn_id, events.skip(1));
        }
    }
}

proof fn confirming_stays_late(conn_id: u32, events: Seq<PushEventView>)
    ensures
        ({
            let end = push_run(conn_id, PushState::Confirming, events).0;
            end == PushState::Confirming || end == PushState::Ended
        }),
    decreases events.len(),
{
    if events.len() > 0 {
        let (next, _) = push_step(conn_id, PushState::Confirming, events[0]);
        if next == PushState::Ended {
            push_ended_is_silent(conn_id, events.skip(1));
        } else {
            confirming_stays_late(conn_id, events.skip(1));
        }
    }
}

/// The event can happen in the state.
pub open spec fn push_expects(state: PushState, event: PushEventView) -> bool {
    match state {
        PushState::Streaming => event is Chunk || event is ChunksEnd || event is Event || event
            is Dropped,
        PushState::Sending => event is Sent,
        PushState::Joining => event is Packed,
        PushState::Confirming => event is Event || event is Dropped,
        PushState::Ended => false,
    }
}

/// The events can happen one after the other.
pub open spec fn push_possible(conn_id: u32, state: PushState, events: Seq<PushEventView>) -> bool
    decreases events.len(),
{
    events.len() == 0 || {
        &&& push_expects(state, events[0])
        &&& push_possible(conn_id, push_step(conn_id, state, events[0]).0, events.skip(1))
    }
}

/// The bytes that the packer yielded.
pub open spec fn bytes_to_push(events: Seq<PushEventView>) -> Seq<Seq<u8>>
    decreases events.len(),
{
    if events.len() == 0 {
        Seq::empty()
    } else {
        (match events[0] {
            PushEventView::Chunk(data) => seq![data],
            _ => Seq::empty(),
        }) + bytes_to_push(events.skip(1))
    }
}

/// The bytes that were handed to the tunnel.
pub open spec fn bytes_pushed(actions: Seq<PushActionView>) -> Seq<Seq<u8>>
    decreases actions.len(),
{
    if actions.len() == 0 {
        Seq::empty()
    } else {
        (match actions[0] {
            PushActionView::Send(MessageView::Data { data, .. }) => seq![data],
            _ => Seq::empty(),
        }) + bytes_pushed(actions.skip(1))
    }
}

/// The archive goes to the server as it was packed, in order and without a gap.
pub proof fn uploads_are_sent_in_order(conn_id: u32, state: PushState, events: Seq<PushEventView>)
    requires
        push_possible(conn_id, state, events),
    ensures
        bytes_pushed(push_run(conn_id, state, events).1) == bytes_to_push(events),
    decreases events.len(),
{
    if events.len() > 0 {
        let (next, action) = push_step(conn_id, state, events[0]);
        uploads_are_sent_in_order(conn_id, next, events.skip(1));
        let rest = push_run(conn_id, next, events.skip(1)).1;
        assert((seq![action] + rest).skip(1) =~= rest);
    }
}

// Getting an archive from the server.

/// What happened to a download.
#[derive(Debug)]
pub enum PullEvent {
    /// The tunnel delivered an event.
    Event(TunnelEvent),
    /// The tunnel dropped the connection.
    Dropped,
    /// The unpacker took the bytes, or has ended.
    Fed(bool),
}

/// What happened, with its contents.
#[verifier::ext_equal]
pub enum PullEventView {
    Event(TunnelEventView),
    Dropped,
    Fed(bool),
}

impl View for PullEvent {
    type V = PullEventView;

    open spec fn view(&self) -> PullEventView {
        match *self {
            PullEvent::Event(e) => PullEventView::Event(e@),
            PullEvent::Dropped => PullEventView::Dropped,
            PullEvent::Fed(ok) => PullEventView::Fed(ok),
        }
    }
}

/// What a download is doing.
#[derive(Debug, Clone, Copy, PartialEq, Eq, Structural)]
pub enum PullState {
    Receiving,
    /// Handing bytes to the unpacker.
    Feeding,
    Ended,
}

/// What to do next.
#[derive(Debug)]
pub enum PullAction {
    Wait,
    /// Hand the bytes to the unpacker.
    Feed(Vec<u8>),
    /// Tell the unpacker that no more comes, tell the server to stop, and wait for the
    /// unpacker. The error, where there is one, is the result; else the unpacker's is.
    Finish { message: Message, error: Option<TransferError> },
}

/// What to do next, with its contents.
#[verifier::ext_equal]
pub enum PullActionView {
    Wait,
    Feed(Seq<u8>),
    Finish { message: MessageView, error: Option<TransferErrorView> },
}

impl View for PullAction {
    type V = PullActionView;

    open spec fn view(&self) -> PullActionView {
        match *self {
            PullAction::Wait => PullActionView::Wait,
            PullAction::Feed(data) => PullActionView::Feed(data@),
            PullAction::Finish { message, error } => PullActionView::Finish {
                message: message@,
                error: match error {
                    Some(e) => Some(e@),
                    None => None,
                },
            },
        }
    }
}

/// The end of a download.
pub open spec fn pull_finished(conn_id: u32, error: Option<TransferErrorView>) -> (
    PullState,
    PullActionView,
) {
    (
        PullState::Ended,
        PullActionView::Finish { message: MessageView::Close { conn_id }, error },
    )
}

/// A step of a download: the next state, and what to do. An end of the stream without
/// the server's exit code 0 is an error, so that a part is not taken for the whole. An
/// unpacker that ends early has its own say.
pub open spec fn pull_step(conn_id: u32, state: PullState, event: PullEventView) -> (
    PullState,
    PullActionView,
) {
    match (state, event) {
        (PullState::Receiving, PullEventView::Event(TunnelEventView::Data(data))) => (
            PullState::Feeding,
            PullActionView::Feed(data),
        ),
        (PullState::Receiving, PullEventView::Event(TunnelEventView::Exit(code))) => pull_finished(
            conn_id,
            if code == 0 {
                None
            } else {
                Some(TransferErrorView::Exit(code))
            },
        ),
        (PullState::Receiving, PullEventView::Event(TunnelEventView::Close)) => pull_finished(
            conn_id,
            Some(TransferErrorView::ServerClosed),
        ),
        (PullState::Receiving, PullEventView::Event(TunnelEventView::Error(m))) => pull_finished(
            conn_id,
            Some(TransferErrorView::Remote(m)),
        ),
        (PullState::Receiving, PullEventView::Dropped) => pull_finished(
            conn_id,
            Some(TransferErrorView::StreamEnded),
        ),
        (PullState::Feeding, PullEventView::Fed(true)) => (
            PullState::Receiving,
            PullActionView::Wait,
        ),
        (PullState::Feeding, PullEventView::Fed(false)) => pull_finished(conn_id, None),
        _ => (state, PullActionView::Wait),
    }
}

/// A download, seen from the client.
#[derive(Debug)]
pub struct PullSession {
    conn_id: u32,
    state: PullState,
}

impl PullSession {
    /// The connection.
    pub closed spec fn conn_id(&self) -> u32 {
        self.conn_id
    }

    /// What it is doing.
    pub closed spec fn state(&self) -> PullState {
        self.state
    }

    pub fn new(conn_id: u32) -> (r: Self)
        ensures
            r.conn_id() == conn_id,
            r.state() == PullState::Receiving,
    {
        PullSession { conn_id, state: PullState::Receiving }
    }

    /// The request that starts the download.
    pub fn request(&self, paths: Vec<String>, level: i32) -> (r: Message)
        ensures
            r@ == (MessageView::Pull {
                conn_id: self.conn_id(),
                paths: wire::texts(paths@),
                level,
            }),
    {
        Message::Pull { conn_id: self.conn_id, paths, level }
    }

    fn finish(&mut self, error: Option<TransferError>) -> (r: PullAction)
        ensures
            final(self).conn_id() == old(self).conn_id(),
            (final(self).state(), r@) == pull_finished(
                old(self).conn_id(),
                match error {
                    Some(e) => Some(e@),
                    None => None,
                },
            ),
    {
        self.state = PullState::Ended;
        PullAction::Finish { message: Message::Close { conn_id: self.conn_id }, error }
    }

    /// Takes what happened.
    pub fn on_event(&mut self, event: PullEvent) -> (r: PullAction)
        ensures
            final(self).conn_id() == old(self).conn_id(),
            (final(self).state(), r@) == pull_step(old(self).conn_id(), old(self).state(), event@),
    {
        match (self.state, event) {
            (PullState::Receiving, PullEvent::Event(e)) => match e {
                TunnelEvent::Data(data) => {
                    self.state = PullState::Feeding;
                    PullAction::Feed(data)
                },
                TunnelEvent::Exit(code) => if code == 0 {
                    self.finish(None)
                } else {
                    self.finish(Some(TransferError::Exit(code)))
                },
                TunnelEvent::Close => self.finish(Some(TransferError::ServerClosed)),
                TunnelEvent::Error(m) => self.finish(Some(TransferError::Remote(m))),
            },
            (PullState::Receiving, PullEvent::Dropped) => self.finish(
                Some(TransferError::StreamEnded),
            ),
            (PullState::Feeding, PullEvent::Fed(ok)) => if ok {
                self.state = PullState::Receiving;
                PullAction::Wait
            } else {
                self.finish(None)
            },
            _ => PullAction::Wait,
        }
    }
}

/// The result of a download: the error that ended it, or else what the unpacker says.
pub fn pull_result(error: Option<TransferError>, unpacked: Result<(), String>) -> (r: Result<
    (),
    TransferError,
>)
    ensures
        match (error, unpacked) {
            (Some(e), _) => r == Err::<(), TransferError>(e),
            (None, Ok(_)) => r is Ok,
            (None, Err(e)) => r is Err && r->Err_0@ == TransferErrorView::Local(e@),
        },
{
    match error {
        Some(e) => Err(e),
        None => match unpacked {
            Ok(_) => Ok(()),
            Err(e) => Err(TransferError::Local(e)),
        },
    }
}

/// What a download does over a series of events, and the state it ends up in.
pub open spec fn pull_run(conn_id: u32, state: PullState, events: Seq<PullEventView>) -> (
    PullState,
    Seq<PullActionView>,
)
    decreases events.len(),
{
    if events.len() == 0 {
        (state, Seq::empty())
    } else {
        let (next, action) = pull_step(conn_id, state, events[0]);
        let (end, actions) = pull_run(conn_id, next, events.skip(1));
        (end, seq![action] + actions)
    }
}

/// The download ended without an error of its own.
pub open spec fn pull_succeeds(actions: Seq<PullActionView>) -> bool
    decreases actions.len(),
{
    actions.len() > 0 && ((actions[0] matches PullActionView::Finish { error, .. } && error is None)
        || pull_succeeds(actions.skip(1)))
}

/// A download ends without an error only where the server confirmed it with the exit
/// code 0, or where the unpacker ended before that.
pub proof fn downloads_are_confirmed(conn_id: u32, state: PullState, events: Seq<PullEventView>)
    requires
        pull_succeeds(pull_run(conn_id, state, events).1),
    ensures
        events.contains(PullEventView::Event(TunnelEventView::Exit(0))) || events.contains(
            PullEventView::Fed(false),
        ),
    decreases events.len(),
{
    let (next, action) = pull_step(conn_id, state, events[0]);
    let tail = events.skip(1);
    let rest = pull_run(conn_id, next, tail).1;
    assert((seq![action] + rest).skip(1) =~= rest);
    if action matches PullActionView::Finish { error, .. } && error is None {
        assert(events[0] == PullEventView::Event(TunnelEventView::Exit(0)) || events[0]
            == PullEventView::Fed(false));
        assert(events.contains(events[0]));
    } else {
        downloads_are_confirmed(conn_id, next, tail);
        if tail.contains(PullEventView::Event(TunnelEventView::Exit(0))) {
            let i = choose|i: int|
                0 <= i < tail.len() && tail[i] == PullEventView::Event(TunnelEventView::Exit(0));
            assert(events[i + 1] == tail[i]);
        } else {
            let i = choose|i: int| 0 <= i < tail.len() && tail[i] == PullEventView::Fed(false);
            assert(events[i + 1] == tail[i]);
        }
    }
}

/// The event can happen in the state.
pub open spec fn pull_expects(state: PullState, event: PullEventView) -> bool {
    match state {
        PullState::Receiving => !(event is Fed),
        PullState::Feeding => event is Fed,
        PullState::Ended => false,
    }
}

/// The events can happen one after the other.
pub open spec fn pull_possible(conn_id: u32, state: PullState, events: Seq<PullEventView>) -> bool
    decreases events.len(),
{
    events.len() == 0 || {
        &&& pull_expects(state, events[0])
        &&& pull_possible(conn_id, pull_step(conn_id, state, events[0]).0, events.skip(1))
    }
}

/// The bytes that the tunnel delivered.
pub open spec fn bytes_pulled(events: Seq<PullEventView>) -> Seq<Seq<u8>>
    decreases events.len(),
{
    if events.len() == 0 {
        Seq::empty()
    } else {
        (match events[0] {
            PullEventView::Event(TunnelEventView::Data(data)) => seq![data],
            _ => Seq::empty(),
        }) + bytes_pulled(events.skip(1))
    }
}

/// The bytes that were handed to the unpacker.
pub open spec fn bytes_fed(actions: Seq<PullActionView>) -> Seq<Seq<u8>>
    decreases actions.len(),
{
    if actions.len() == 0 {
        Seq::empty()
    } else {
        (match actions[0] {
            PullActionView::Feed(data) => seq![data],
            _ => Seq::empty(),
        }) + bytes_fed(actions.skip(1))
    }
}

/// The unpacker gets the archive as the tunnel delivered it, in order and without a gap.
pub proof fn downloads_are_fed_in_order(conn_id: u32, state: PullState, events: Seq<PullEventView>)
    requires
        pull_possible(conn_id, state, events),
    ensures
        bytes_fed(pull_run(conn_id, state, events).1) == bytes_pulled(events),
    decreases events.len(),
{
    if events.len() > 0 {
        let (next, action) = pull_step(conn_id, state, events[0]);
        downloads_are_fed_in_order(conn_id, next, events.skip(1));
        let rest = pull_run(conn_id, next, events.skip(1)).1;
        assert((seq![action] + rest).skip(1) =~= rest);
    }
}

// The server's side.

/// What the server says at the end of a transfer: the exit code 0 and `Close`, or the
/// error.
pub open spec fn outcome_messages(conn_id: u32, outcome: Option<Seq<char>>) -> Seq<MessageView> {
    match outcome {
        None => seq![
            MessageView::ExitStatus { conn_id, code: 0 },
            MessageView::Close { conn_id },
        ],
        Some(m) => seq![server::refusal(conn_id, m)],
    }
}

/// What a list of messages says.
pub open spec fn views(messages: Seq<Message>) -> Seq<MessageView> {
    messages.map_values(|m: Message| m@)
}

/// What the server says at the end of a transfer.
pub fn last_messages(conn_id: u32, outcome: Result<(), String>) -> (r: Vec<Message>)
    ensures
        views(r@) == outcome_messages(conn_id, outcome_view(outcome)),
{
    let mut messages: Vec<Message> = Vec::new();
    match outcome {
        Ok(_) => {
            messages.push(Message::ExitStatus { conn_id, code: 0 });
            messages.push(Message::Close { conn_id });
        },
        Err(m) => {
            messages.push(Message::Error { conn_id: Some(conn_id), message: m });
        },
    }
    assert(views(messages@) =~= outcome_messages(conn_id, outcome_view(outcome)));
    messages
}

/// What happened to an archive on its way to the client.
#[derive(Debug)]
pub enum PackEvent {
    /// The packer has some bytes.
    Chunk(Vec<u8>),
    /// The packer has no more.
    ChunksEnd,
    /// The bytes have arrived, or have not.
    Sent(bool),
    /// The packer has ended, with this outcome.
    Packed(Result<(), String>),
}

/// What happened, with its contents.
#[verifier::ext_equal]
pub enum PackEventView {
    Chunk(Seq<u8>),
    ChunksEnd,
    Sent(bool),
    Packed(Option<Seq<char>>),
}

impl View for PackEvent {
    type V = PackEventView;

    open spec fn view(&self) -> PackEventView {
        match *self {
            PackEvent::Chunk(data) => PackEventView::Chunk(data@),
            PackEvent::ChunksEnd => PackEventView::ChunksEnd,
            PackEvent::Sent(ok) => PackEventView::Sent(ok),
            PackEvent::Packed(r) => PackEventView::Packed(outcome_view(r)),
        }
    }
}

/// What the server is doing with it.
#[derive(Debug, Clone, Copy, PartialEq, Eq, Structural)]
pub enum PackState {
    Streaming,
    /// Sending bytes to the client.
    Sending,
    /// Waiting for the packer's outcome.
    Joining,
    /// The client is gone; waiting for the packer to notice.
    Abandoning,
    Ended,
}

/// What to do next.
#[derive(Debug)]
pub enum PackAction {
    Wait,
    /// Send the message with all attempts.
    Send(Message),
    /// Wait for the packer's outcome. Where `drop_chunks`, take no more from it first,
    /// so that it does not wait for room for ever.
    Join { drop_chunks: bool },
    /// Send the messages one after the other, as long as they arrive, and end.
    Report(Vec<Message>),
    End,
}

/// What to do next, with its contents.
#[verifier::ext_equal]
pub enum PackActionView {
    Wait,
    Send(MessageView),
    Join { drop_chunks: bool },
    Report(Seq<MessageView>),
    End,
}

impl View for PackAction {
    type V = PackActionView;

    open spec fn view(&self) -> PackActionView {
        match *self {
            PackAction::Wait => PackActionView::Wait,
            PackAction::Send(m) => PackActionView::Send(m@),
            PackAction::Join { drop_chunks } => PackActionView::Join { drop_chunks },
            PackAction::Report(ms) => PackActionView::Report(views(ms@)),
            PackAction::End => PackActionView::End,
        }
    }
}

/// A step: the next state, and what to do. A client that cannot be reached gets no
/// report.
pub open spec fn pack_step(conn_id: u32, state: PackState, event: PackEventView) -> (
    PackState,
    PackActionView,
) {
    match (state, event) {
        (PackState::Streaming, PackEventView::Chunk(data)) => (
            PackState::Sending,
            PackActionView::Send(MessageView::Data { conn_id, data }),
        ),
        (PackState::Streaming, PackEventView::ChunksEnd) => (
            PackState::Joining,
            PackActionView::Join { drop_chunks: false },
        ),
        (PackState::Sending, PackEventView::Sent(true)) => (
            PackState::Streaming,
            PackActionView::Wait,
        ),
        (PackState::Sending, PackEventView::Sent(false)) => (
            PackState::Abandoning,
            PackActionView::Join { drop_chunks: true },
        ),
        (PackState::Joining, PackEventView::Packed(outcome)) => (
            PackState::Ended,
            PackActionView::Report(outcome_messages(conn_id, outcome)),
        ),
        (PackState::Abandoning, PackEventView::Packed(_)) => (
            PackState::Ended,
            PackActionView::End,
        ),
        _ => (state, PackActionView::Wait),
    }
}

/// A download, seen from the server.
#[derive(Debug)]
pub struct PullRelay {
    conn_id: u32,
    state: PackState,
}

impl PullRelay {
    /// The connection.
    pub closed spec fn conn_id(&self) -> u32 {
        self.conn_id
    }

    /// What it is doing.
    pub closed spec fn state(&self) -> PackState {
        self.state
    }

    pub fn new(conn_id: u32) -> (r: Self)
        ensures
            r.conn_id() == conn_id,
            r.state() == PackState::Streaming,
    {
        PullRelay { conn_id, state: PackState::Streaming }
    }

    /// Takes what happened.
    pub fn on_event(&mut self, event: PackEvent) -> (r: PackAction)
        ensures
            final(self).conn_id() == old(self).conn_id(),
            (final(self).state(), r@) == pack_step(old(self).conn_id(), old(self).state(), event@),
    {
        let conn_id: u32 = self.conn_id;
        match (self.state, event) {
            (PackState::Streaming, PackEvent::Chunk(data)) => {
                self.state = PackState::Sending;
                PackAction::Send(Message::Data { conn_id, data })
            },
            (PackState::Streaming, PackEvent::ChunksEnd) => {
                self.state = PackState::Joining;
                PackAction::Join { drop_chunks: false }
            },
            (PackState::Sending, PackEvent::Sent(ok)) => if ok {
                self.state = PackState::Streaming;
                PackAction::Wait
            } else {
                self.state = PackState::Abandoning;
                PackAction::Join { drop_chunks: true }
            },
            (PackState::Joining, PackEvent::Packed(outcome)) => {
                self.state = PackState::Ended;
                PackAction::Report(last_messages(conn_id, outcome))
            },
            (PackState::Abandoning, PackEvent::Packed(_)) => {
                self.state = PackState::Ended;
                PackAction::End
            },
            _ => PackAction::Wait,
        }
    }
}

/// What the server does over a series of events, and the state it ends up in.
pub open spec fn pack_run(conn_id: u32, state: PackState, events: Seq<PackEventView>) -> (
    PackState,
    Seq<PackActionView>,
)
    decreases events.len(),
{
    if events.len() == 0 {
        (state, Seq::empty())
    } else {
        let (next, action) = pack_step(conn_id, state, events[0]);
        let (end, actions) = pack_run(conn_id, next, events.skip(1));
        (end, seq![action] + actions)
    }
}

/// The client was told that the archive is complete.
pub open spec fn reports_success(conn_id: u32, actions: Seq<PackActionView>) -> bool
    decreases actions.len(),
{
    actions.len() > 0 && (actions[0] == PackActionView::Report(
        outcome_messages(conn_id, None),
    ) || reports_success(conn_id, actions.skip(1)))
}

/// The event can happen in the state.
pub open spec fn pack_expects(state: PackState, event: PackEventView) -> bool {
    match state {
        PackState::Streaming => event is Chunk || event is ChunksEnd,
        PackState::Sending => event is Sent,
        PackState::Joining => event is Packed,
        PackState::Abandoning => event is Packed,
        PackState::Ended => false,
    }
}

/// The events can happen one after the other.
pub open spec fn pack_possible(conn_id: u32, state: PackState, events: Seq<PackEventView>) -> bool
    decreases events.len(),
{
    events.len() == 0 || {
        &&& pack_expects(state, events[0])
        &&& pack_possible(conn_id, pack_step(conn_id, state, events[0]).0, events.skip(1))
    }
}

/// The bytes that the packer yielded.
pub open spec fn bytes_packed(events: Seq<PackEventView>) -> Seq<Seq<u8>>
    decreases events.len(),
{
    if events.len() == 0 {
        Seq::empty()
    } else {
        (match events[0] {
            PackEventView::Chunk(data) => seq![data],
            _ => Seq::empty(),
        }) + bytes_packed(events.skip(1))
    }
}

/// The bytes that were sent to the client.
pub open spec fn bytes_served(actions: Seq<PackActionView>) -> Seq<Seq<u8>>
    decreases actions.len(),
{
    if actions.len() == 0 {
        Seq::empty()
    } else {
        (match actions[0] {
            PackActionView::Send(MessageView::Data { data, .. }) => seq![data],
            _ => Seq::empty(),
        }) + bytes_served(actions.skip(1))
    }
}

/// The archive is sent as it was packed, in order and without a gap.
pub proof fn archives_are_sent_in_order(conn_id: u32, state: PackState, events: Seq<PackEventView>)
    requires
        pack_possible(conn_id, state, events),
    ensures
        bytes_served(pack_run(conn_id, state, events).1) == bytes_packed(events),
    decreases events.len(),
{
    if events.len() > 0 {
        let (next, action) = pack_step(conn_id, state, events[0]);
        archives_are_sent_in_order(conn_id, next, events.skip(1));
        let rest = pack_run(conn_id, next, events.skip(1)).1;
        assert((seq![action] + rest).skip(1) =~= rest);
    }
}

/// The client is told that an archive is complete only where every part of it arrived
/// and the packer succeeded.
pub proof fn complete_archives_only(conn_id: u32, state: PackState, events: Seq<PackEventView>)
    requires
        pack_possible(conn_id, state, events),
        reports_success(conn_id, pack_run(conn_id, state, events).1),
    ensures
        events.contains(PackEventView::Packed(None)),
        !events.contains(PackEventView::Sent(false)),
    decreases events.len(),
{
    let (next, action) = pack_step(conn_id, state, events[0]);
    let tail = events.skip(1);
    let rest = pack_run(conn_id, next, tail).1;
    assert((seq![action] + rest).skip(1) =~= rest);
    let packed = PackEventView::Packed(None);
    let lost = PackEventView::Sent(false);
    reveal_with_fuel(pack_possible, 2);
    let good = outcome_messages(conn_id, None);
    if action == PackActionView::Report(good) {
        match events[0] {
            PackEventView::Packed(Some(m)) => {
                assert(outcome_messages(conn_id, Some(m)).len() == 1);
                assert(good.len() == 2);
            },
            _ => {},
        }
        assert(events[0] == packed);
        assert(tail.len() == 0);
    } else {
        if next == PackState::Ended || next == PackState::Abandoning {
            pack_gives_up_silently(conn_id, next, tail);
        }
        complete_archives_only(conn_id, next, tail);
        let i = choose|i: int| 0 <= i < tail.len() && tail[i] == packed;
        assert(events[i + 1] == tail[i]);
        if events.contains(lost) {
            let k = choose|k: int| 0 <= k < events.len() && events[k] == lost;
            if k > 0 {
                assert(tail[k - 1] == lost);
            }
        }
    }
}

proof fn pack_gives_up_silently(conn_id: u32, state: PackState, events: Seq<PackEventView>)
    requires
        state == PackState::Ended || state == PackState::Abandoning,
    ensures
        !reports_success(conn_id, pack_run(conn_id, state, events).1),
    decreases events.len(),
{
    if events.len() > 0 {
        let (next, action) = pack_step(conn_id, state, events[0]);
        let rest = pack_run(conn_id, next, events.skip(1)).1;
        assert((seq![action] + rest).skip(1) =~= rest);
        pack_gives_up_silently(conn_id, next, events.skip(1));
    }
}

/// What happened to an archive that the server unpacks.
#[derive(Debug)]
pub enum UnpackEvent {
    /// The unpacker has ended, with this outcome.
    Unpacked(Result<(), String>),
    /// The stream to the client has been closed for too long.
    SseDead,
}

/// What to do next.
#[derive(Debug)]
pub enum UnpackAction {
    /// Let go of the sink, so that the unpacker sees the end of its input, and wait for
    /// it.
    Release,
    /// Let go of the sink, and send the messages one after the other, as long as they
    /// arrive.
    Report(Vec<Message>),
}

/// Decides what to do about an archive that the server unpacks. A client that vanished
/// would leave the unpacker waiting for the rest of it for ever.
pub fn unpack_step(conn_id: u32, event: UnpackEvent) -> (r: UnpackAction)
    ensures
        match (event, r) {
            (UnpackEvent::SseDead, UnpackAction::Release) => true,
            (UnpackEvent::Unpacked(outcome), UnpackAction::Report(ms)) => views(ms@)
                == outcome_messages(conn_id, outcome_view(outcome)),
            _ => false,
        },
{
    match event {
        UnpackEvent::SseDead => UnpackAction::Release,
        UnpackEvent::Unpacked(outcome) => UnpackAction::Report(last_messages(conn_id, outcome)),
    }
}

// What both sides do, told by what happened.

proof fn seen_so_far<T>(s: Seq<T>, x: T)
    requires
        s.len() > 0,
    ensures
        s.contains(x) <==> s.drop_last().contains(x) || s.last() == x,
{
    let past = s.drop_last();
    if past.contains(x) {
        let i = choose|i: int| 0 <= i < past.len() && past[i] == x;
        assert(s[i] == x);
    }
    if s.last() == x {
        assert(s[s.len() - 1] == x);
    }
    if s.contains(x) && s.last() != x {
        let i = choose|i: int| 0 <= i < s.len() && s[i] == x;
        assert(past[i] == x);
    }
}

proof fn push_one_more(conn_id: u32, s: PushState, events: Seq<PushEventView>)
    requires
        events.len() > 0,
    ensures
        ({
            let (before, actions) = push_run(conn_id, s, events.drop_last());
            let (after, action) = push_step(conn_id, before, events.last());
            push_run(conn_id, s, events) == (after, actions.push(action))
        }),
        push_possible(conn_id, s, events) ==> push_possible(conn_id, s, events.drop_last()) && push_expects(
            push_run(conn_id, s, events.drop_last()).0,
            events.last(),
        ),
    decreases events.len(),
{
    reveal_with_fuel(push_run, 2);
    reveal_with_fuel(push_possible, 2);
    let (next, action) = push_step(conn_id, s, events[0]);
    let tail = events.skip(1);
    if events.len() == 1 {
        assert(events.drop_last() =~= Seq::<PushEventView>::empty());
        assert(tail =~= Seq::<PushEventView>::empty());
        assert(push_run(conn_id, s, events).1 =~= Seq::<PushActionView>::empty().push(action));
    } else {
        push_one_more(conn_id, next, tail);
        assert(tail.drop_last() =~= events.drop_last().skip(1));
        let before = push_run(conn_id, next, tail.drop_last());
        let last = push_step(conn_id, before.0, events.last()).1;
        assert(seq![action] + before.1.push(last) =~= (seq![action] + before.1).push(last));
    }
}

/// Whatever happened before, an upload answers the latest event with this. Before the archive
/// is complete every failure closes the connection and says what it was; afterwards the
/// server's word is awaited, and the exit code 0 is the only good one.
pub proof fn the_latest_event_decides_the_push(conn_id: u32, events: Seq<PushEventView>)
    requires
        push_possible(conn_id, PushState::Streaming, events),
        events.len() > 0,
    ensures
        ({
            let (end, actions) = push_run(conn_id, PushState::Streaming, events);
            let complete = events.drop_last().contains(PushEventView::Packed(None));
            let close = MessageView::Close { conn_id };
            &&& actions.len() == events.len()
            &&& actions.last() == (match events.last() {
                PushEventView::Chunk(data) => PushActionView::Send(
                    MessageView::Data { conn_id, data },
                ),
                PushEventView::ChunksEnd => PushActionView::Join,
                PushEventView::Packed(None) => PushActionView::CloseAndConfirm(close),
                PushEventView::Packed(Some(e)) => PushActionView::CloseAndFail {
                    message: close,
                    error: TransferErrorView::Local(e),
                },
                PushEventView::Sent(None) => PushActionView::Wait,
                PushEventView::Sent(Some(e)) => PushActionView::CloseAndFail {
                    message: close,
                    error: TransferErrorView::Local(e),
                },
                PushEventView::Event(TunnelEventView::Data(_)) => PushActionView::Wait,
                PushEventView::Event(TunnelEventView::Exit(code)) => if !complete {
                    PushActionView::Wait
                } else if code == 0 {
                    PushActionView::End(None)
                } else {
                    PushActionView::End(Some(TransferErrorView::Exit(code)))
                },
                PushEventView::Event(TunnelEventView::Error(m)) => if complete {
                    PushActionView::End(Some(TransferErrorView::Remote(m)))
                } else {
                    PushActionView::CloseAndFail {
                        message: close,
                        error: TransferErrorView::Remote(m),
                    }
                },
                PushEventView::Event(TunnelEventView::Close) | PushEventView::Dropped => if complete {
                    PushActionView::End(Some(TransferErrorView::NotConfirmed))
                } else {
                    PushActionView::CloseAndFail {
                        message: close,
                        error: TransferErrorView::ClosedEarly,
                    }
                },
            })
            &&& end == PushState::Ended <==> actions.last() is End || actions.last()
                is CloseAndFail
            &&& end == PushState::Sending <==> events.last() is Chunk
            &&& end == PushState::Joining <==> events.last() is ChunksEnd
            &&& end == PushState::Confirming <==> end != PushState::Ended && events.contains(
                PushEventView::Packed(None),
            )
        }),
    decreases events.len(),
{
    push_one_more(conn_id, PushState::Streaming, events);
    seen_so_far(events, PushEventView::Packed(None));
    let past = events.drop_last();
    if past.len() > 0 {
        the_latest_event_decides_the_push(conn_id, past);
    }
}

/// An upload that is over does nothing more, and one that waits for something else does not
/// take what comes out of turn.
pub proof fn pushes_keep_their_turn(conn_id: u32, state: PushState, event: PushEventView)
    requires
        match state {
            PushState::Streaming => event is Packed || event is Sent,
            PushState::Sending => !(event is Sent),
            PushState::Joining => !(event is Packed),
            PushState::Confirming => !(event is Event || event is Dropped),
            PushState::Ended => true,
        },
    ensures
        push_step(conn_id, state, event) == (state, PushActionView::Wait),
{
}

proof fn pull_one_more(conn_id: u32, s: PullState, events: Seq<PullEventView>)
    requires
        events.len() > 0,
    ensures
        ({
            let (before, actions) = pull_run(conn_id, s, events.drop_last());
            let (after, action) = pull_step(conn_id, before, events.last());
            pull_run(conn_id, s, events) == (after, actions.push(action))
        }),
        pull_possible(conn_id, s, events) ==> pull_possible(conn_id, s, events.drop_last()) && pull_expects(
            pull_run(conn_id, s, events.drop_last()).0,
            events.last(),
        ),
    decreases events.len(),
{
    reveal_with_fuel(pull_run, 2);
    reveal_with_fuel(pull_possible, 2);
    let (next, action) = pull_step(conn_id, s, events[0]);
    let tail = events.skip(1);
    if events.len() == 1 {
        assert(events.drop_last() =~= Seq::<PullEventView>::empty());
        assert(tail =~= Seq::<PullEventView>::empty());
        assert(pull_run(conn_id, s, events).1 =~= Seq::<PullActionView>::empty().push(action));
    } else {
        pull_one_more(conn_id, next, tail);
        assert(tail.drop_last() =~= events.drop_last().skip(1));
        let before = pull_run(conn_id, next, tail.drop_last());
        let last = pull_step(conn_id, before.0, events.last()).1;
        assert(seq![action] + before.1.push(last) =~= (seq![action] + before.1).push(last));
    }
}

/// Whatever happened before, a download answers the latest event with this: bytes go to the
/// unpacker, and every end tells the server to stop and says what went wrong. Only the exit
/// code 0 and an unpacker that ended by itself leave the result to the unpacker.
pub proof fn the_latest_event_decides_the_pull(conn_id: u32, events: Seq<PullEventView>)
    requires
        pull_possible(conn_id, PullState::Receiving, events),
        events.len() > 0,
    ensures
        ({
            let (end, actions) = pull_run(conn_id, PullState::Receiving, events);
            let message = MessageView::Close { conn_id };
            &&& actions.len() == events.len()
            &&& actions.last() == (match events.last() {
                PullEventView::Event(TunnelEventView::Data(data)) => PullActionView::Feed(data),
                PullEventView::Event(TunnelEventView::Exit(code)) => PullActionView::Finish {
                    message,
                    error: if code == 0 {
                        None
                    } else {
                        Some(TransferErrorView::Exit(code))
                    },
                },
                PullEventView::Event(TunnelEventView::Close) => PullActionView::Finish {
                    message,
                    error: Some(TransferErrorView::ServerClosed),
                },
                PullEventView::Event(TunnelEventView::Error(m)) => PullActionView::Finish {
                    message,
                    error: Some(TransferErrorView::Remote(m)),
                },
                PullEventView::Dropped => PullActionView::Finish {
                    message,
                    error: Some(TransferErrorView::StreamEnded),
                },
                PullEventView::Fed(true) => PullActionView::Wait,
                PullEventView::Fed(false) => PullActionView::Finish { message, error: None },
            })
            &&& end == PullState::Ended <==> actions.last() is Finish
            &&& end == PullState::Feeding <==> actions.last() is Feed
        }),
    decreases events.len(),
{
    pull_one_more(conn_id, PullState::Receiving, events);
    let past = events.drop_last();
    if past.len() > 0 {
        the_latest_event_decides_the_pull(conn_id, past);
    }
}

/// A download that is over does nothing more, and one that waits for something else does not
/// take what comes out of turn.
pub proof fn pulls_keep_their_turn(conn_id: u32, state: PullState, event: PullEventView)
    requires
        state == PullState::Ended || (event is Fed <==> state == PullState::Receiving),
    ensures
        pull_step(conn_id, state, event) == (state, PullActionView::Wait),
{
}

proof fn pack_one_more(conn_id: u32, s: PackState, events: Seq<PackEventView>)
    requires
        events.len() > 0,
    ensures
        ({
            let (before, actions) = pack_run(conn_id, s, events.drop_last());
            let (after, action) = pack_step(conn_id, before, events.last());
            pack_run(conn_id, s, events) == (after, actions.push(action))
        }),
        pack_possible(conn_id, s, events) ==> pack_possible(conn_id, s, events.drop_last()) && pack_expects(
            pack_run(conn_id, s, events.drop_last()).0,
            events.last(),
        ),
    decreases events.len(),
{
    reveal_with_fuel(pack_run, 2);
    reveal_with_fuel(pack_possible, 2);
    let (next, action) = pack_step(conn_id, s, events[0]);
    let tail = events.skip(1);
    if events.len() == 1 {
        assert(events.drop_last() =~= Seq::<PackEventView>::empty());
        assert(tail =~= Seq::<PackEventView>::empty());
        assert(pack_run(conn_id, s, events).1 =~= Seq::<PackActionView>::empty().push(action));
    } else {
        pack_one_more(conn_id, next, tail);
        assert(tail.drop_last() =~= events.drop_last().skip(1));
        let before = pack_run(conn_id, next, tail.drop_last());
        let last = pack_step(conn_id, before.0, events.last()).1;
        assert(seq![action] + before.1.push(last) =~= (seq![action] + before.1).push(last));
    }
}

/// Whatever happened before, the server answers the latest event of a packer with this: bytes
/// go to the client; the packer's outcome is reported, unless the bytes before it did not
/// arrive, where nothing is said and nothing more is taken from the packer.
pub proof fn the_latest_event_decides_the_pack(conn_id: u32, events: Seq<PackEventView>)
    requires
        pack_possible(conn_id, PackState::Streaming, events),
        events.len() > 0,
    ensures
        ({
            let (end, actions) = pack_run(conn_id, PackState::Streaming, events);
            &&& actions.len() == events.len()
            &&& events.last() is Packed ==> events.len() > 1
            &&& actions.last() == (match events.last() {
                PackEventView::Chunk(data) => PackActionView::Send(
                    MessageView::Data { conn_id, data },
                ),
                PackEventView::ChunksEnd => PackActionView::Join { drop_chunks: false },
                PackEventView::Sent(true) => PackActionView::Wait,
                PackEventView::Sent(false) => PackActionView::Join { drop_chunks: true },
                PackEventView::Packed(outcome) => if events[events.len() - 2]
                    == PackEventView::Sent(false) {
                    PackActionView::End
                } else {
                    PackActionView::Report(
                        match outcome {
                            None => seq![
                                MessageView::ExitStatus { conn_id, code: 0 },
                                MessageView::Close { conn_id },
                            ],
                            Some(message) => seq![
                                MessageView::Error { conn_id: Some(conn_id), message },
                            ],
                        },
                    )
                },
            })
            &&& end == PackState::Ended <==> events.last() is Packed
            &&& end == PackState::Sending <==> events.last() is Chunk
            &&& end == PackState::Joining <==> events.last() is ChunksEnd
            &&& end == PackState::Abandoning <==> events.last() == PackEventView::Sent(false)
        }),
    decreases events.len(),
{
    pack_one_more(conn_id, PackState::Streaming, events);
    let past = events.drop_last();
    if past.len() > 0 {
        the_latest_event_decides_the_pack(conn_id, past);
        assert(past.last() == events[events.len() - 2]);
    }
}

/// What is over does nothing more, and what waits for something else does not take what comes
/// out of turn.
pub proof fn packs_keep_their_turn(conn_id: u32, state: PackState, event: PackEventView)
    requires
        match state {
            PackState::Streaming => event is Sent || event is Packed,
            PackState::Sending => !(event is Sent),
            PackState::Joining => !(event is Packed),
            PackState::Abandoning => !(event is Packed),
            PackState::Ended => true,
        },
    ensures
        pack_step(conn_id, state, event) == (state, PackActionView::Wait),
{
}

/// The server reports a transfer that succeeded with the exit code 0 and then `Close`, and
/// one that failed with its error alone, to the connection it belongs to.
pub proof fn outcomes_are_reported(conn_id: u32, e: Seq<char>)
    ensures
        outcome_messages(conn_id, None) == seq![
            MessageView::ExitStatus { conn_id, code: 0 },
            MessageView::Close { conn_id },
        ],
        outcome_messages(conn_id, Some(e)) == seq![
            MessageView::Error { conn_id: Some(conn_id), message: e },
        ],
{
}

/// What outcomes are, and what failures say.
pub proof fn failures_say_what_went_wrong(m: Seq<char>, code: i32, e: String)
    ensures
        outcome_view(Ok(())) == None::<Seq<char>>,
        outcome_view(Err(e)) == Some(e@),
        error_text(TransferErrorView::Remote(m)) == "remote error: "@ + m,
        error_text(TransferErrorView::Exit(code)) == "server reported transfer failure (exit "@
            + text::signed_decimal(code as int) + ")"@,
        error_text(TransferErrorView::ClosedEarly)
            == "connection closed before the transfer completed"@,
        error_text(TransferErrorView::NotConfirmed)
            == "connection closed before the server confirmed the transfer"@,
        error_text(TransferErrorView::ServerClosed) == "server closed the stream unexpectedly"@,
        error_text(TransferErrorView::StreamEnded) == "event stream ended unexpectedly"@,
        error_text(TransferErrorView::Local(m)) == m,
{
}

} // verus!
