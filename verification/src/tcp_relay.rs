//! The server's end of a proxied TCP connection: one half carries what the target
//! sends to the client, the other what the client sends to the target. Each is a
//! machine that takes what happened and says what to do next.

use crate::delivery::SEND_ATTEMPTS;
use crate::protocol::{Message, MessageView};
use crate::server;
use vstd::prelude::*;

verus! {

broadcast use vstd::seq::group_seq_axioms;

// From the target to the client.

/// What happened to the half that reads the target.
#[derive(Debug)]
pub enum TargetEvent {
    /// The target sent some bytes.
    Chunk(Vec<u8>),
    /// The target finished sending.
    Eof,
    /// Reading the target failed.
    Failed(String),
    /// The client gave the connection up.
    Aborted,
    /// The stream to the client has been closed for too long.
    SseDead,
    /// The message that was to be sent has arrived, or has not.
    Sent(bool),
}

/// What happened, with its contents.
#[verifier::ext_equal]
pub enum TargetEventView {
    Chunk(Seq<u8>),
    Eof,
    Failed(Seq<char>),
    Aborted,
    SseDead,
    Sent(bool),
}

impl View for TargetEvent {
    type V = TargetEventView;

    open spec fn view(&self) -> TargetEventView {
        match *self {
            TargetEvent::Chunk(data) => TargetEventView::Chunk(data@),
            TargetEvent::Eof => TargetEventView::Eof,
            TargetEvent::Failed(e) => TargetEventView::Failed(e@),
            TargetEvent::Aborted => TargetEventView::Aborted,
            TargetEvent::SseDead => TargetEventView::SseDead,
            TargetEvent::Sent(ok) => TargetEventView::Sent(ok),
        }
    }
}

/// What the half that reads the target is doing.
#[derive(Debug, Clone, Copy, PartialEq, Eq, Structural)]
pub enum ReadState {
    /// Waiting for the target.
    Reading,
    /// Sending bytes to the client.
    Forwarding,
    /// Sending the last message: how the target ended.
    Reporting,
    /// Telling a client that is probably gone that it was given up.
    Abandoning,
    Ended,
}

/// What to do next.
#[derive(Debug)]
pub enum ReadAction {
    /// Wait for the target, the client's abort and the watchdog.
    Wait,
    /// Let go of the sink first if `release`, then send the message.
    Send { message: Message, attempts: u32, release: bool },
    /// Let go of the sink if `release`, and end.
    End { release: bool },
}

/// What to do next, with its contents.
#[allow(inconsistent_fields)]
#[verifier::ext_equal]
pub enum ReadActionView {
    Wait,
    Send { message: MessageView, attempts: u32, release: bool },
    End { release: bool },
}

impl View for ReadAction {
    type V = ReadActionView;

    open spec fn view(&self) -> ReadActionView {
        match *self {
            ReadAction::Wait => ReadActionView::Wait,
            ReadAction::Send { message, attempts, release } => ReadActionView::Send {
                message: message@,
                attempts,
                release,
            },
            ReadAction::End { release } => ReadActionView::End { release },
        }
    }
}

/// The half that reads the target.
#[derive(Debug)]
pub struct TargetReader {
    conn_id: u32,
    state: ReadState,
}

/// A step: the next state, and what to do.
///
/// Bytes are forwarded with all attempts. A target that finished is reported with
/// `Close` and keeps its sink, since the client may still be sending; one that failed
/// is reported with an error, and its sink goes, since it can take nothing either. A
/// client that cannot be reached, or whose stream is dead, is told so with a single
/// attempt, and the sink goes. A client that gave up is told nothing.
pub open spec fn read_step(conn_id: u32, state: ReadState, event: TargetEventView) -> (
    ReadState,
    ReadActionView,
) {
    let abandon = (
        ReadState::Abandoning,
        ReadActionView::Send {
            message: server::refusal(conn_id, "client unreachable; target relay abandoned"@),
            attempts: 1,
            release: true,
        },
    );
    match (state, event) {
        (ReadState::Reading, TargetEventView::Chunk(data)) => (
            ReadState::Forwarding,
            ReadActionView::Send {
                message: MessageView::Data { conn_id, data },
                attempts: SEND_ATTEMPTS,
                release: false,
            },
        ),
        (ReadState::Reading, TargetEventView::Eof) => (
            ReadState::Reporting,
            ReadActionView::Send {
                message: MessageView::Close { conn_id },
                attempts: SEND_ATTEMPTS,
                release: false,
            },
        ),
        (ReadState::Reading, TargetEventView::Failed(e)) => (
            ReadState::Reporting,
            ReadActionView::Send {
                message: server::refusal(conn_id, "target read failed: "@ + e),
                attempts: SEND_ATTEMPTS,
                release: true,
            },
        ),
        (ReadState::Reading, TargetEventView::Aborted) => (
            ReadState::Ended,
            ReadActionView::End { release: true },
        ),
        (ReadState::Reading, TargetEventView::SseDead) => abandon,
        (ReadState::Forwarding, TargetEventView::Sent(true)) => (
            ReadState::Reading,
            ReadActionView::Wait,
        ),
        (ReadState::Forwarding, TargetEventView::Sent(false)) => abandon,
        (ReadState::Reporting, TargetEventView::Sent(ok)) => (
            ReadState::Ended,
            ReadActionView::End { release: !ok },
        ),
        (ReadState::Abandoning, TargetEventView::Sent(_)) => (
            ReadState::Ended,
            ReadActionView::End { release: false },
        ),
        _ => (state, ReadActionView::Wait),
    }
}

impl TargetReader {
    /// The connection.
    pub closed spec fn conn_id(&self) -> u32 {
        self.conn_id
    }

    /// What it is doing.
    pub closed spec fn state(&self) -> ReadState {
        self.state
    }

    pub fn new(conn_id: u32) -> (r: Self)
        ensures
            r.conn_id() == conn_id,
            r.state() == ReadState::Reading,
    {
        TargetReader { conn_id, state: ReadState::Reading }
    }

    /// Takes what happened.
    pub fn on_event(&mut self, event: TargetEvent) -> (r: ReadAction)
        ensures
            final(self).conn_id() == old(self).conn_id(),
            (final(self).state(), r@) == read_step(
                old(self).conn_id(),
                old(self).state(),
                event@,
            ),
    {
        let conn_id: u32 = self.conn_id;
        match (self.state, event) {
            (ReadState::Reading, TargetEvent::Chunk(data)) => {
                self.state = ReadState::Forwarding;
                ReadAction::Send {
                    message: Message::Data { conn_id, data },
                    attempts: SEND_ATTEMPTS,
                    release: false,
                }
            },
            (ReadState::Reading, TargetEvent::Eof) => {
                self.state = ReadState::Reporting;
                ReadAction::Send {
                    message: Message::Close { conn_id },
                    attempts: SEND_ATTEMPTS,
                    release: false,
                }
            },
            (ReadState::Reading, TargetEvent::Failed(e)) => {
                self.state = ReadState::Reporting;
                ReadAction::Send {
                    message: server::failure_of(conn_id, "target read failed: ", e.as_str()),
                    attempts: SEND_ATTEMPTS,
                    release: true,
                }
            },
            (ReadState::Reading, TargetEvent::Aborted) => {
                self.state = ReadState::Ended;
                ReadAction::End { release: true }
            },
            (ReadState::Reading, TargetEvent::SseDead) => self.abandon(),
            (ReadState::Forwarding, TargetEvent::Sent(ok)) => if ok {
                self.state = ReadState::Reading;
                ReadAction::Wait
            } else {
                self.abandon()
            },
            (ReadState::Reporting, TargetEvent::Sent(ok)) => {
                self.state = ReadState::Ended;
                ReadAction::End { release: !ok }
            },
            (ReadState::Abandoning, TargetEvent::Sent(_)) => {
                self.state = ReadState::Ended;
                ReadAction::End { release: false }
            },
            _ => ReadAction::Wait,
        }
    }

    fn abandon(&mut self) -> (r: ReadAction)
        ensures
            final(self).conn_id() == old(self).conn_id(),
            final(self).state() == ReadState::Abandoning,
            r@ == (ReadActionView::Send {
                message: server::refusal(
                    old(self).conn_id(),
                    "client unreachable; target relay abandoned"@,
                ),
                attempts: 1,
                release: true,
            }),
    {
        self.state = ReadState::Abandoning;
        ReadAction::Send {
            message: server::failure(self.conn_id, "client unreachable; target relay abandoned"),
            attempts: 1,
            release: true,
        }
    }
}

/// The event can happen in the state: a delivery ends only where there is one.
pub open spec fn read_expects(state: ReadState, event: TargetEventView) -> bool {
    match state {
        ReadState::Reading => !(event is Sent),
        ReadState::Ended => false,
        _ => event is Sent,
    }
}

/// The events can happen one after the other.
pub open spec fn read_possible(
    conn_id: u32,
    state: ReadState,
    events: Seq<TargetEventView>,
) -> bool
    decreases events.len(),
{
    events.len() == 0 || {
        &&& read_expects(state, events[0])
        &&& read_possible(conn_id, read_step(conn_id, state, events[0]).0, events.skip(1))
    }
}

/// What a half does over a series of events, and the state it ends up in.
pub open spec fn read_run(conn_id: u32, state: ReadState, events: Seq<TargetEventView>) -> (
    ReadState,
    Seq<ReadActionView>,
)
    decreases events.len(),
{
    if events.len() == 0 {
        (state, Seq::empty())
    } else {
        let (next, action) = read_step(conn_id, state, events[0]);
        let (end, actions) = read_run(conn_id, next, events.skip(1));
        (end, seq![action] + actions)
    }
}

/// The bytes that the target sent.
pub open spec fn bytes_read(events: Seq<TargetEventView>) -> Seq<Seq<u8>>
    decreases events.len(),
{
    if events.len() == 0 {
        Seq::empty()
    } else {
        (match events[0] {
            TargetEventView::Chunk(data) => seq![data],
            _ => Seq::empty(),
        }) + bytes_read(events.skip(1))
    }
}

/// The bytes that were sent to the client for the connection.
pub open spec fn bytes_forwarded(conn_id: u32, actions: Seq<ReadActionView>) -> Seq<Seq<u8>>
    decreases actions.len(),
{
    if actions.len() == 0 {
        Seq::empty()
    } else {
        (match actions[0] {
            ReadActionView::Send { message: MessageView::Data { conn_id: id, data }, .. } => if id
                == conn_id {
                seq![data]
            } else {
                Seq::empty()
            },
            _ => Seq::empty(),
        }) + bytes_forwarded(conn_id, actions.skip(1))
    }
}

/// Every byte that the target sends is forwarded, in order and once, for as long as
/// the half runs: the client never sees a gap.
pub proof fn no_byte_is_skipped(conn_id: u32, state: ReadState, events: Seq<TargetEventView>)
    requires
        read_possible(conn_id, state, events),
    ensures
        bytes_forwarded(conn_id, read_run(conn_id, state, events).1) == bytes_read(events),
    decreases events.len(),
{
    if events.len() > 0 {
        let (next, action) = read_step(conn_id, state, events[0]);
        no_byte_is_skipped(conn_id, next, events.skip(1));
        let rest = read_run(conn_id, next, events.skip(1)).1;
        assert((seq![action] + rest).skip(1) =~= rest);
    }
}

/// The client is told that the connection is complete.
pub open spec fn says_close(actions: Seq<ReadActionView>) -> bool
    decreases actions.len(),
{
    actions.len() > 0 && (actions[0] matches ReadActionView::Send {
        message: MessageView::Close { .. },
        ..
    } || says_close(actions.skip(1)))
}

/// The sink was let go.
pub open spec fn releases(actions: Seq<ReadActionView>) -> bool
    decreases actions.len(),
{
    actions.len() > 0 && ((match actions[0] {
        ReadActionView::Send { release, .. } => release,
        ReadActionView::End { release } => release,
        ReadActionView::Wait => false,
    }) || releases(actions.skip(1)))
}

/// How many messages other than bytes were sent.
pub open spec fn last_words(actions: Seq<ReadActionView>) -> nat
    decreases actions.len(),
{
    if actions.len() == 0 {
        0
    } else {
        last_words(actions.skip(1)) + (match actions[0] {
            ReadActionView::Send { message: MessageView::Data { .. }, .. } => 0nat,
            ReadActionView::Send { .. } => 1,
            _ => 0,
        })
    }
}

/// `Close` means that everything arrived: where it is sent, the target had finished,
/// and every delivery before it had succeeded.
pub proof fn close_means_complete(conn_id: u32, events: Seq<TargetEventView>)
    requires
        read_possible(conn_id, ReadState::Reading, events),
        says_close(read_run(conn_id, ReadState::Reading, events).1),
    ensures
        exists|i: int|
            {
                &&& 0 <= i < events.len()
                &&& #[trigger] events[i] == TargetEventView::Eof
                &&& forall|j: int| 0 <= j < i ==> #[trigger] events[j] != TargetEventView::Sent(false)
            },
    decreases events.len(),
{
    reveal_with_fuel(read_possible, 3);
    reveal_with_fuel(read_run, 3);
    reveal_with_fuel(says_close, 3);
    reveal_with_fuel(releases, 3);
    reveal_with_fuel(last_words, 3);
    let first = events[0];
    let (next, action) = read_step(conn_id, ReadState::Reading, first);
    let tail = events.skip(1);
    let rest = read_run(conn_id, next, tail).1;
    assert((seq![action] + rest).skip(1) =~= rest);
    match first {
        TargetEventView::Eof => {
            assert(events[0] == TargetEventView::Eof);
        },
        TargetEventView::Chunk(data) => {
            // The delivery decides whether reading goes on.
            assert(says_close(rest));
            assert(tail.len() > 0);
            let (after, action2) = read_step(conn_id, next, tail[0]);
            let tail2 = tail.skip(1);
            let rest2 = read_run(conn_id, after, tail2).1;
            assert((seq![action2] + rest2).skip(1) =~= rest2);
            if tail[0] == TargetEventView::Sent(true) {
                close_means_complete(conn_id, tail2);
                let i = choose|i: int|
                    {
                        &&& 0 <= i < tail2.len()
                        &&& #[trigger] tail2[i] == TargetEventView::Eof
                        &&& forall|j: int|
                            0 <= j < i ==> #[trigger] tail2[j] != TargetEventView::Sent(false)
                    };
                assert(events[i + 2] == tail2[i]);
                assert forall|j: int| 0 <= j < i + 2 implies #[trigger] events[j]
                    != TargetEventView::Sent(false) by {
                    if j >= 2 {
                        assert(events[j] == tail2[j - 2]);
                    } else if j == 1 {
                        assert(events[1] == tail[0]);
                    }
                }
            } else {
                ending_says_nothing_more(conn_id, after, tail2);
            }
        },
        _ => {
            ending_says_nothing_more(conn_id, next, tail);
        },
    }
}

/// A half that is on its last message, or has ended, says nothing more.
proof fn ending_says_nothing_more(conn_id: u32, state: ReadState, events: Seq<TargetEventView>)
    requires
        state == ReadState::Reporting || state == ReadState::Abandoning || state
            == ReadState::Ended,
        read_possible(conn_id, state, events),
    ensures
        !says_close(read_run(conn_id, state, events).1),
        last_words(read_run(conn_id, state, events).1) == 0,
        events.len() <= 1,
        state == ReadState::Abandoning ==> !releases(read_run(conn_id, state, events).1),
        state == ReadState::Reporting && events.len() == 1 ==> (releases(
            read_run(conn_id, state, events).1,
        ) <==> events[0] == TargetEventView::Sent(false)),
{
    reveal_with_fuel(read_possible, 3);
    reveal_with_fuel(read_run, 3);
    reveal_with_fuel(says_close, 3);
    reveal_with_fuel(releases, 3);
    reveal_with_fuel(last_words, 3);
    if events.len() > 0 {
        let (next, action) = read_step(conn_id, state, events[0]);
        let rest = read_run(conn_id, next, events.skip(1)).1;
        assert((seq![action] + rest).skip(1) =~= rest);
        assert(events.skip(1).len() == 0) by {
            assert(read_possible(conn_id, ReadState::Ended, events.skip(1)));
        }
        assert(rest =~= Seq::<ReadActionView>::empty());
    }
}

/// However a half ends: at most one message says so, and the sink is let go unless the
/// target finished and the client was told. Only then is the sink kept, for the
/// client may still be sending.
pub proof fn the_sink_is_kept_only_after_a_clean_end(conn_id: u32, events: Seq<TargetEventView>)
    requires
        read_possible(conn_id, ReadState::Reading, events),
    ensures
        ({
            let (end, actions) = read_run(conn_id, ReadState::Reading, events);
            &&& last_words(actions) <= 1
            &&& end == ReadState::Ended ==> (!releases(actions) <==> says_close(actions)
                && events.last() == TargetEventView::Sent(true))
        }),
    decreases events.len(),
{
    reveal_with_fuel(read_possible, 3);
    reveal_with_fuel(read_run, 3);
    reveal_with_fuel(says_close, 3);
    reveal_with_fuel(releases, 3);
    reveal_with_fuel(last_words, 3);
    if events.len() > 0 {
        let first = events[0];
        let (next, action) = read_step(conn_id, ReadState::Reading, first);
        let tail = events.skip(1);
        let (end, rest) = read_run(conn_id, next, tail);
        assert((seq![action] + rest).skip(1) =~= rest);
        if tail.len() > 0 {
            assert(events.last() == tail.last());
        }
        match first {
            TargetEventView::Chunk(_) => {
                if tail.len() > 0 {
                    let (after, action2) = read_step(conn_id, next, tail[0]);
                    let tail2 = tail.skip(1);
                    let (end2, rest2) = read_run(conn_id, after, tail2);
                    assert((seq![action2] + rest2).skip(1) =~= rest2);
                    if tail[0] == TargetEventView::Sent(true) {
                        the_sink_is_kept_only_after_a_clean_end(conn_id, tail2);
                        if tail2.len() > 0 {
                            assert(tail.last() == tail2.last());
                        }
                    } else {
                        ending_says_nothing_more(conn_id, after, tail2);
                    }
                }
            },
            _ => {
                ending_says_nothing_more(conn_id, next, tail);
            },
        }
    }
}

// From the client to the target.

/// What happened to the half that writes to the target.
#[derive(Debug)]
pub enum SinkEvent {
    /// The client sent some bytes.
    Data(Vec<u8>),
    /// The sink was let go: the client finished sending, or is gone.
    Closed,
    /// The half that reads the target has ended.
    ReadEnded,
    /// The stream to the client has been closed for too long.
    SseDead,
    /// The bytes were written to the target.
    Written,
    /// Writing to the target failed.
    WriteFailed(String),
    /// The message that was to be sent has arrived, or has not.
    Sent(bool),
}

/// What happened, with its contents.
#[verifier::ext_equal]
pub enum SinkEventView {
    Data(Seq<u8>),
    Closed,
    ReadEnded,
    SseDead,
    Written,
    WriteFailed(Seq<char>),
    Sent(bool),
}

impl View for SinkEvent {
    type V = SinkEventView;

    open spec fn view(&self) -> SinkEventView {
        match *self {
            SinkEvent::Data(data) => SinkEventView::Data(data@),
            SinkEvent::Closed => SinkEventView::Closed,
            SinkEvent::ReadEnded => SinkEventView::ReadEnded,
            SinkEvent::SseDead => SinkEventView::SseDead,
            SinkEvent::Written => SinkEventView::Written,
            SinkEvent::WriteFailed(e) => SinkEventView::WriteFailed(e@),
            SinkEvent::Sent(ok) => SinkEventView::Sent(ok),
        }
    }
}

/// What the half that writes to the target is doing.
#[derive(Debug, Clone, Copy, PartialEq, Eq, Structural)]
pub enum WritePhase {
    /// Waiting for the client.
    Idle,
    /// Writing to the target.
    Writing,
    /// Telling the client that writing failed.
    Reporting,
    Ended,
}

/// What the half is doing, and whether it watches the stream to the client. It does so
/// only once the other half has ended: until then the other half watches, and lets go
/// of the sink.
#[derive(Debug, Clone, Copy, PartialEq, Eq, Structural)]
pub struct WriteState {
    pub phase: WritePhase,
    pub watching: bool,
}

/// What to do next.
#[derive(Debug)]
pub enum WriteAction {
    /// Wait for the client, and for the watchdog where it is on.
    Wait,
    /// Write the bytes to the target.
    Write(Vec<u8>),
    /// Let go of the sink, then send the message with all attempts.
    Report(Message),
    End,
}

/// What to do next, with its contents.
#[verifier::ext_equal]
pub enum WriteActionView {
    Wait,
    Write(Seq<u8>),
    Report(MessageView),
    End,
}

impl View for WriteAction {
    type V = WriteActionView;

    open spec fn view(&self) -> WriteActionView {
        match *self {
            WriteAction::Wait => WriteActionView::Wait,
            WriteAction::Write(data) => WriteActionView::Write(data@),
            WriteAction::Report(m) => WriteActionView::Report(m@),
            WriteAction::End => WriteActionView::End,
        }
    }
}

/// The half that writes to the target.
#[derive(Debug)]
pub struct TargetWriter {
    conn_id: u32,
    state: WriteState,
}

/// A step: the next state, and what to do. A failed write is reported, so that the
/// client does not go on sending into nothing.
pub open spec fn write_step(conn_id: u32, state: WriteState, event: SinkEventView) -> (
    WriteState,
    WriteActionView,
) {
    match (state.phase, event) {
        (WritePhase::Ended, _) => (state, WriteActionView::End),
        (_, SinkEventView::ReadEnded) => (
            WriteState { watching: true, ..state },
            WriteActionView::Wait,
        ),
        (WritePhase::Idle, SinkEventView::Data(data)) => if data.len() == 0 {
            (state, WriteActionView::Wait)
        } else {
            (WriteState { phase: WritePhase::Writing, ..state }, WriteActionView::Write(data))
        },
        (WritePhase::Idle, SinkEventView::Closed) => (
            WriteState { phase: WritePhase::Ended, ..state },
            WriteActionView::End,
        ),
        (WritePhase::Idle, SinkEventView::SseDead) => if state.watching {
            (WriteState { phase: WritePhase::Ended, ..state }, WriteActionView::End)
        } else {
            (state, WriteActionView::Wait)
        },
        (WritePhase::Writing, SinkEventView::Written) => (
            WriteState { phase: WritePhase::Idle, ..state },
            WriteActionView::Wait,
        ),
        (WritePhase::Writing, SinkEventView::WriteFailed(e)) => (
            WriteState { phase: WritePhase::Reporting, ..state },
            WriteActionView::Report(server::refusal(conn_id, "target write failed: "@ + e)),
        ),
        (WritePhase::Reporting, SinkEventView::Sent(_)) => (
            WriteState { phase: WritePhase::Ended, ..state },
            WriteActionView::End,
        ),
        _ => (state, WriteActionView::Wait),
    }
}

impl TargetWriter {
    /// The connection.
    pub closed spec fn conn_id(&self) -> u32 {
        self.conn_id
    }

    /// What it is doing.
    pub closed spec fn state(&self) -> WriteState {
        self.state
    }

    pub fn new(conn_id: u32) -> (r: Self)
        ensures
            r.conn_id() == conn_id,
            r.state() == (WriteState { phase: WritePhase::Idle, watching: false }),
    {
        TargetWriter {
            conn_id,
            state: WriteState { phase: WritePhase::Idle, watching: false },
        }
    }

    /// Whether the watchdog is on.
    pub fn watches(&self) -> (r: bool)
        ensures
            r == self.state().watching,
    {
        self.state.watching
    }

    /// Takes what happened.
    pub fn on_event(&mut self, event: SinkEvent) -> (r: WriteAction)
        ensures
            final(self).conn_id() == old(self).conn_id(),
            (final(self).state(), r@) == write_step(
                old(self).conn_id(),
                old(self).state(),
                event@,
            ),
    {
        let phase = self.state.phase;
        let watching = self.state.watching;
        match (phase, event) {
            (WritePhase::Ended, _) => WriteAction::End,
            (_, SinkEvent::ReadEnded) => {
                self.state = WriteState { phase, watching: true };
                WriteAction::Wait
            },
            (WritePhase::Idle, SinkEvent::Data(data)) => if data.len() == 0 {
                WriteAction::Wait
            } else {
                self.state = WriteState { phase: WritePhase::Writing, watching };
                WriteAction::Write(data)
            },
            (WritePhase::Idle, SinkEvent::Closed) => {
                self.state = WriteState { phase: WritePhase::Ended, watching };
                WriteAction::End
            },
            (WritePhase::Idle, SinkEvent::SseDead) => if watching {
                self.state = WriteState { phase: WritePhase::Ended, watching };
                WriteAction::End
            } else {
                WriteAction::Wait
            },
            (WritePhase::Writing, SinkEvent::Written) => {
                self.state = WriteState { phase: WritePhase::Idle, watching };
                WriteAction::Wait
            },
            (WritePhase::Writing, SinkEvent::WriteFailed(e)) => {
                self.state = WriteState { phase: WritePhase::Reporting, watching };
                WriteAction::Report(
                    server::failure_of(self.conn_id, "target write failed: ", e.as_str()),
                )
            },
            (WritePhase::Reporting, SinkEvent::Sent(_)) => {
                self.state = WriteState { phase: WritePhase::Ended, watching };
                WriteAction::End
            },
            _ => WriteAction::Wait,
        }
    }
}

/// The event can happen in the state.
pub open spec fn write_expects(state: WriteState, event: SinkEventView) -> bool {
    match state.phase {
        WritePhase::Idle => event is Data || event is Closed || event is ReadEnded || (event
            is SseDead && state.watching),
        WritePhase::Writing => event is Written || event is WriteFailed || event is ReadEnded,
        WritePhase::Reporting => event is Sent || event is ReadEnded,
        WritePhase::Ended => false,
    }
}

/// The events can happen one after the other.
pub open spec fn write_possible(conn_id: u32, state: WriteState, events: Seq<SinkEventView>) -> bool
    decreases events.len(),
{
    events.len() == 0 || {
        &&& write_expects(state, events[0])
        &&& write_possible(conn_id, write_step(conn_id, state, events[0]).0, events.skip(1))
    }
}

/// What a half does over a series of events, and the state it ends up in.
pub open spec fn write_run(conn_id: u32, state: WriteState, events: Seq<SinkEventView>) -> (
    WriteState,
    Seq<WriteActionView>,
)
    decreases events.len(),
{
    if events.len() == 0 {
        (state, Seq::empty())
    } else {
        let (next, action) = write_step(conn_id, state, events[0]);
        let (end, actions) = write_run(conn_id, next, events.skip(1));
        (end, seq![action] + actions)
    }
}

/// The bytes that the client sent; empty pieces do not count.
pub open spec fn bytes_received(events: Seq<SinkEventView>) -> Seq<Seq<u8>>
    decreases events.len(),
{
    if events.len() == 0 {
        Seq::empty()
    } else {
        (match events[0] {
            SinkEventView::Data(data) => if data.len() == 0 {
                Seq::empty()
            } else {
                seq![data]
            },
            _ => Seq::empty(),
        }) + bytes_received(events.skip(1))
    }
}

/// The bytes that were to be written to the target.
pub open spec fn bytes_written(actions: Seq<WriteActionView>) -> Seq<Seq<u8>>
    decreases actions.len(),
{
    if actions.len() == 0 {
        Seq::empty()
    } else {
        (match actions[0] {
            WriteActionView::Write(data) => seq![data],
            _ => Seq::empty(),
        }) + bytes_written(actions.skip(1))
    }
}

/// What the client sends is written to the target in order and once.
pub proof fn uploads_keep_their_order(
    conn_id: u32,
    state: WriteState,
    events: Seq<SinkEventView>,
)
    requires
        write_possible(conn_id, state, events),
    ensures
        bytes_written(write_run(conn_id, state, events).1) == bytes_received(events),
    decreases events.len(),
{
    if events.len() > 0 {
        let (next, action) = write_step(conn_id, state, events[0]);
        uploads_keep_their_order(conn_id, next, events.skip(1));
        let rest = write_run(conn_id, next, events.skip(1)).1;
        assert((seq![action] + rest).skip(1) =~= rest);
    }
}

/// A client that vanished cannot keep the half waiting: once the other half has ended,
/// a dead stream ends this one too.
pub proof fn a_dead_stream_ends_the_upload(conn_id: u32, state: WriteState)
    requires
        state.phase == WritePhase::Idle,
    ensures
        ({
            let (after, _) = write_step(conn_id, state, SinkEventView::ReadEnded);
            write_step(conn_id, after, SinkEventView::SseDead) == (
                WriteState { phase: WritePhase::Ended, watching: true },
                WriteActionView::End,
            )
        }),
{
}

// What the halves do, told by what happened.

proof fn read_one_more(conn_id: u32, s: ReadState, events: Seq<TargetEventView>)
    requires
        events.len() > 0,
    ensures
        ({
            let (before, actions) = read_run(conn_id, s, events.drop_last());
            let (after, action) = read_step(conn_id, before, events.last());
            read_run(conn_id, s, events) == (after, actions.push(action))
        }),
        read_possible(conn_id, s, events) ==> read_possible(conn_id, s, events.drop_last()) && read_expects(
            read_run(conn_id, s, events.drop_last()).0,
            events.last(),
        ),
    decreases events.len(),
{
    reveal_with_fuel(read_run, 2);
    reveal_with_fuel(read_possible, 2);
    let (next, action) = read_step(conn_id, s, events[0]);
    let tail = events.skip(1);
    if events.len() == 1 {
        assert(events.drop_last() =~= Seq::<TargetEventView>::empty());
        assert(tail =~= Seq::<TargetEventView>::empty());
        assert(read_run(conn_id, s, events).1 =~= Seq::<ReadActionView>::empty().push(action));
    } else {
        read_one_more(conn_id, next, tail);
        assert(tail.drop_last() =~= events.drop_last().skip(1));
        let before = read_run(conn_id, next, tail.drop_last());
        let last = read_step(conn_id, before.0, events.last()).1;
        assert(seq![action] + before.1.push(last) =~= (seq![action] + before.1).push(last));
    }
}

/// Whatever happened before, the half that reads the target answers the latest event with
/// this. Bytes and the end of the target go to the client with fifty attempts; a target that
/// failed loses its sink as well; a client that cannot be reached is told so once, and loses
/// the sink. What follows a delivery depends on what was delivered: after bytes it goes on,
/// after anything else it is over.
pub proof fn the_latest_event_decides_the_read(conn_id: u32, events: Seq<TargetEventView>)
    requires
        read_possible(conn_id, ReadState::Reading, events),
        events.len() > 0,
    ensures
        ({
            let (end, actions) = read_run(conn_id, ReadState::Reading, events);
            let abandon = ReadActionView::Send {
                message: MessageView::Error {
                    conn_id: Some(conn_id),
                    message: "client unreachable; target relay abandoned"@,
                },
                attempts: 1,
                release: true,
            };
            &&& actions.len() == events.len()
            &&& events.last() is Sent ==> events.len() > 1
            &&& actions.last() == (match events.last() {
                TargetEventView::Chunk(data) => ReadActionView::Send {
                    message: MessageView::Data { conn_id, data },
                    attempts: 50,
                    release: false,
                },
                TargetEventView::Eof => ReadActionView::Send {
                    message: MessageView::Close { conn_id },
                    attempts: 50,
                    release: false,
                },
                TargetEventView::Failed(e) => ReadActionView::Send {
                    message: MessageView::Error {
                        conn_id: Some(conn_id),
                        message: "target read failed: "@ + e,
                    },
                    attempts: 50,
                    release: true,
                },
                TargetEventView::Aborted => ReadActionView::End { release: true },
                TargetEventView::SseDead => abandon,
                TargetEventView::Sent(ok) => match events[events.len() - 2] {
                    TargetEventView::Chunk(_) => if ok {
                        ReadActionView::Wait
                    } else {
                        abandon
                    },
                    TargetEventView::Eof => ReadActionView::End { release: !ok },
                    TargetEventView::Failed(_) => ReadActionView::End { release: !ok },
                    _ => ReadActionView::End { release: false },
                },
            })
            &&& end == ReadState::Reading <==> actions.last() is Wait
            &&& end == ReadState::Ended <==> actions.last() is End
            &&& end == ReadState::Forwarding <==> events.last() is Chunk
            &&& end == ReadState::Reporting <==> events.last() is Eof || events.last() is Failed
        }),
    decreases events.len(),
{
    read_one_more(conn_id, ReadState::Reading, events);
    let past = events.drop_last();
    if past.len() > 0 {
        the_latest_event_decides_the_read(conn_id, past);
        assert(past.last() == events[events.len() - 2]);
    }
}

/// A half that is over does nothing more, and one that waits for something else does not take
/// what comes out of turn.
pub proof fn reads_keep_their_turn(conn_id: u32, state: ReadState, event: TargetEventView)
    requires
        state == ReadState::Ended || (event is Sent <==> state == ReadState::Reading),
    ensures
        read_step(conn_id, state, event) == (state, ReadActionView::Wait),
{
}

proof fn write_one_more(conn_id: u32, s: WriteState, events: Seq<SinkEventView>)
    requires
        events.len() > 0,
    ensures
        ({
            let (before, actions) = write_run(conn_id, s, events.drop_last());
            let (after, action) = write_step(conn_id, before, events.last());
            write_run(conn_id, s, events) == (after, actions.push(action))
        }),
        write_possible(conn_id, s, events) ==> write_possible(conn_id, s, events.drop_last()) && write_expects(
            write_run(conn_id, s, events.drop_last()).0,
            events.last(),
        ),
    decreases events.len(),
{
    reveal_with_fuel(write_run, 2);
    reveal_with_fuel(write_possible, 2);
    let (next, action) = write_step(conn_id, s, events[0]);
    let tail = events.skip(1);
    if events.len() == 1 {
        assert(events.drop_last() =~= Seq::<SinkEventView>::empty());
        assert(tail =~= Seq::<SinkEventView>::empty());
        assert(write_run(conn_id, s, events).1 =~= Seq::<WriteActionView>::empty().push(action));
    } else {
        write_one_more(conn_id, next, tail);
        assert(tail.drop_last() =~= events.drop_last().skip(1));
        let before = write_run(conn_id, next, tail.drop_last());
        let last = write_step(conn_id, before.0, events.last()).1;
        assert(seq![action] + before.1.push(last) =~= (seq![action] + before.1).push(last));
    }
}

/// The latest event but for the end of the other half.
pub open spec fn latest_at_sink(events: Seq<SinkEventView>) -> Option<SinkEventView>
    decreases events.len(),
{
    if events.len() == 0 {
        None
    } else if events.last() is ReadEnded {
        latest_at_sink(events.drop_last())
    } else {
        Some(events.last())
    }
}

/// Whatever happened before, the half that writes to the target answers the latest event
/// with this: bytes are written, a failed write is reported to the client, and it ends when
/// the sink is let go, the stream is dead or the report is out. The end of the other half
/// changes nothing but that the stream is watched from then on.
pub proof fn the_latest_event_decides_the_write(conn_id: u32, events: Seq<SinkEventView>)
    requires
        write_possible(
            conn_id,
            (WriteState { phase: WritePhase::Idle, watching: false }),
            events,
        ),
        events.len() > 0,
    ensures
        ({
            let start = WriteState { phase: WritePhase::Idle, watching: false };
            let (end, actions) = write_run(conn_id, start, events);
            &&& actions.len() == events.len()
            &&& actions.last() == (match events.last() {
                SinkEventView::Data(data) => if data.len() == 0 {
                    WriteActionView::Wait
                } else {
                    WriteActionView::Write(data)
                },
                SinkEventView::Closed => WriteActionView::End,
                SinkEventView::ReadEnded => WriteActionView::Wait,
                SinkEventView::SseDead => WriteActionView::End,
                SinkEventView::Written => WriteActionView::Wait,
                SinkEventView::WriteFailed(e) => WriteActionView::Report(
                    MessageView::Error {
                        conn_id: Some(conn_id),
                        message: "target write failed: "@ + e,
                    },
                ),
                SinkEventView::Sent(_) => WriteActionView::End,
            })
            &&& end.watching <==> events.contains(SinkEventView::ReadEnded)
            &&& end.phase == (match latest_at_sink(events) {
                None => WritePhase::Idle,
                Some(SinkEventView::Data(data)) => if data.len() == 0 {
                    WritePhase::Idle
                } else {
                    WritePhase::Writing
                },
                Some(SinkEventView::Written) => WritePhase::Idle,
                Some(SinkEventView::WriteFailed(_)) => WritePhase::Reporting,
                Some(_) => WritePhase::Ended,
            })
        }),
    decreases events.len(),
{
    reveal_with_fuel(latest_at_sink, 2);
    let start = WriteState { phase: WritePhase::Idle, watching: false };
    write_one_more(conn_id, start, events);
    let past = events.drop_last();
    let ended = SinkEventView::ReadEnded;
    assert(events.contains(ended) <==> past.contains(ended) || events.last() == ended) by {
        if past.contains(ended) {
            let i = choose|i: int| 0 <= i < past.len() && past[i] == ended;
            assert(events[i] == ended);
        }
        if events.last() == ended {
            assert(events[events.len() - 1] == ended);
        }
        if events.contains(ended) && events.last() != ended {
            let i = choose|i: int| 0 <= i < events.len() && events[i] == ended;
            assert(past[i] == ended);
        }
    }
    if past.len() > 0 {
        the_latest_event_decides_the_write(conn_id, past);
    }
}

/// A half that is over stays so, one that waits for something else does not take what comes
/// out of turn, and until the other half has ended a dead stream is not its business.
pub proof fn writes_keep_their_turn(conn_id: u32, state: WriteState, event: SinkEventView)
    requires
        !(event is ReadEnded),
        match state.phase {
            WritePhase::Idle => event is Written || event is WriteFailed || event is Sent || (event
                is SseDead && !state.watching),
            WritePhase::Writing => !(event is Written || event is WriteFailed),
            WritePhase::Reporting => !(event is Sent),
            WritePhase::Ended => false,
        },
    ensures
        write_step(conn_id, state, event) == (state, WriteActionView::Wait),
{
}

/// A half that is over stays so.
pub proof fn a_finished_write_stays_finished(conn_id: u32, watching: bool, event: SinkEventView)
    ensures
        write_step(conn_id, WriteState { phase: WritePhase::Ended, watching }, event) == (
            WriteState { phase: WritePhase::Ended, watching },
            WriteActionView::End,
        ),
{
}

} // verus!
