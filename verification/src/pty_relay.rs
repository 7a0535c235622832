//! The server's end of a remote command: a terminal whose bytes go to the client, and
//! the rules for its end. The client learns the exit code, then that it is over.

use crate::delivery::SEND_ATTEMPTS;
use crate::protocol::{Message, MessageView};
use crate::server;
use vstd::prelude::*;

verus! {

broadcast use vstd::seq::group_seq_axioms;

/// Milliseconds for which output of a command that has ended is still awaited.
pub const DRAIN_MS: u64 = 2000;

/// What happened to a terminal.
#[derive(Debug)]
pub enum PtyEvent {
    /// The terminal could not be set up.
    SetupFailed(String),
    /// The command ended, with this exit code.
    ChildExited(i32),
    /// The sink was let go: the client closed the connection.
    WriterEnded,
    /// The stream to the client has been closed for too long.
    SseDead,
    /// The client's terminal has a new size.
    Resized { cols: u16, rows: u16 },
    /// All output has been read.
    Drained,
    /// Output is still open after `DRAIN_MS`: something in the background holds it.
    DrainTimedOut,
    /// The message that was to be sent has arrived, or has not.
    Sent(bool),
}

/// What happened, with its contents.
#[verifier::ext_equal]
pub enum PtyEventView {
    SetupFailed(Seq<char>),
    ChildExited(i32),
    WriterEnded,
    SseDead,
    Resized { cols: u16, rows: u16 },
    Drained,
    DrainTimedOut,
    Sent(bool),
}

impl View for PtyEvent {
    type V = PtyEventView;

    open spec fn view(&self) -> PtyEventView {
        match *self {
            PtyEvent::SetupFailed(e) => PtyEventView::SetupFailed(e@),
            PtyEvent::ChildExited(code) => PtyEventView::ChildExited(code),
            PtyEvent::WriterEnded => PtyEventView::WriterEnded,
            PtyEvent::SseDead => PtyEventView::SseDead,
            PtyEvent::Resized { cols, rows } => PtyEventView::Resized { cols, rows },
            PtyEvent::Drained => PtyEventView::Drained,
            PtyEvent::DrainTimedOut => PtyEventView::DrainTimedOut,
            PtyEvent::Sent(ok) => PtyEventView::Sent(ok),
        }
    }
}

/// What a terminal is doing.
#[derive(Debug, Clone, Copy, PartialEq, Eq, Structural)]
pub enum PtyPhase {
    /// The command runs.
    Running,
    /// The command was killed and has not ended yet.
    Killed,
    /// The command has ended; its last output is being read.
    Draining,
    /// The client is being told the exit code.
    SayingExit,
    /// The client is being told that it is over.
    SayingClose,
    /// The client is being told that there is no terminal.
    SayingFailure,
    Ended,
}

/// What a terminal is doing, whether the client was found gone, and the exit code once
/// there is one.
#[derive(Debug, Clone, Copy, PartialEq, Eq, Structural)]
pub struct PtyState {
    pub phase: PtyPhase,
    pub client_gone: bool,
    pub code: i32,
}

/// What to do next.
#[derive(Debug)]
pub enum PtyAction {
    /// Wait for the command, the client and the watchdog.
    Wait,
    /// Give the terminal a new size, and wait.
    Resize { cols: u16, rows: u16 },
    /// Kill the command, and wait for its end.
    Kill,
    /// Close the terminal, and wait for its last output.
    Drain,
    /// Stop the tasks that carry bytes, then send the message.
    Finish { message: Message, attempts: u32 },
    /// Send the message.
    Send { message: Message, attempts: u32 },
    /// Forget the connection, then send the message.
    Fail { message: Message, attempts: u32 },
    /// Forget the connection.
    End,
}

/// What to do next, with its contents.
#[allow(inconsistent_fields)]
#[verifier::ext_equal]
pub enum PtyActionView {
    Wait,
    Resize { cols: u16, rows: u16 },
    Kill,
    Drain,
    Finish { message: MessageView, attempts: u32 },
    Send { message: MessageView, attempts: u32 },
    Fail { message: MessageView, attempts: u32 },
    End,
}

impl View for PtyAction {
    type V = PtyActionView;

    open spec fn view(&self) -> PtyActionView {
        match *self {
            PtyAction::Wait => PtyActionView::Wait,
            PtyAction::Resize { cols, rows } => PtyActionView::Resize { cols, rows },
            PtyAction::Kill => PtyActionView::Kill,
            PtyAction::Drain => PtyActionView::Drain,
            PtyAction::Finish { message, attempts } => PtyActionView::Finish {
                message: message@,
                attempts,
            },
            PtyAction::Send { message, attempts } => PtyActionView::Send {
                message: message@,
                attempts,
            },
            PtyAction::Fail { message, attempts } => PtyActionView::Fail {
                message: message@,
                attempts,
            },
            PtyAction::End => PtyActionView::End,
        }
    }
}

/// The attempts that a last message is worth: one where the client was found gone.
pub open spec fn last_attempts(client_gone: bool) -> u32 {
    if client_gone {
        1
    } else {
        SEND_ATTEMPTS
    }
}

/// A step: the next state, and what to do.
///
/// A client that closes the connection, or whose stream is dead, has its command
/// killed. However the command ends, its last output is read for a while, then the
/// exit code is sent, and then, if that arrived, `Close`.
pub open spec fn pty_step(conn_id: u32, s: PtyState, event: PtyEventView) -> (
    PtyState,
    PtyActionView,
) {
    match (s.phase, event) {
        (PtyPhase::Running, PtyEventView::SetupFailed(e)) => (
            PtyState { phase: PtyPhase::SayingFailure, ..s },
            PtyActionView::Fail {
                message: server::refusal(conn_id, "PTY setup failed: "@ + e),
                attempts: SEND_ATTEMPTS,
            },
        ),
        (PtyPhase::Running, PtyEventView::ChildExited(code))
        | (PtyPhase::Killed, PtyEventView::ChildExited(code)) => (
            PtyState { phase: PtyPhase::Draining, code, ..s },
            PtyActionView::Drain,
        ),
        (PtyPhase::Running, PtyEventView::WriterEnded)
        | (PtyPhase::Running, PtyEventView::SseDead) => (
            PtyState { phase: PtyPhase::Killed, client_gone: true, ..s },
            PtyActionView::Kill,
        ),
        (PtyPhase::Running, PtyEventView::Resized { cols, rows }) => (
            s,
            PtyActionView::Resize { cols, rows },
        ),
        (PtyPhase::Draining, PtyEventView::Drained)
        | (PtyPhase::Draining, PtyEventView::DrainTimedOut) => (
            PtyState { phase: PtyPhase::SayingExit, ..s },
            PtyActionView::Finish {
                message: MessageView::ExitStatus { conn_id, code: s.code },
                attempts: last_attempts(s.client_gone),
            },
        ),
        (PtyPhase::SayingExit, PtyEventView::Sent(true)) => (
            PtyState { phase: PtyPhase::SayingClose, ..s },
            PtyActionView::Send {
                message: MessageView::Close { conn_id },
                attempts: last_attempts(s.client_gone),
            },
        ),
        (PtyPhase::SayingExit, PtyEventView::Sent(false))
        | (PtyPhase::SayingClose, PtyEventView::Sent(_))
        | (PtyPhase::SayingFailure, PtyEventView::Sent(_)) => (
            PtyState { phase: PtyPhase::Ended, ..s },
            PtyActionView::End,
        ),
        _ => (s, PtyActionView::Wait),
    }
}

/// A remote command.
#[derive(Debug)]
pub struct PtyRelay {
    conn_id: u32,
    state: PtyState,
}

/// The state of a terminal at its start.
pub open spec fn pty_start() -> PtyState {
    PtyState { phase: PtyPhase::Running, client_gone: false, code: 0 }
}

impl PtyRelay {
    /// The connection.
    pub closed spec fn conn_id(&self) -> u32 {
        self.conn_id
    }

    /// What it is doing.
    pub closed spec fn state(&self) -> PtyState {
        self.state
    }

    pub fn new(conn_id: u32) -> (r: Self)
        ensures
            r.conn_id() == conn_id,
            r.state() == pty_start(),
    {
        PtyRelay {
            conn_id,
            state: PtyState { phase: PtyPhase::Running, client_gone: false, code: 0 },
        }
    }

    /// Whether the client was found gone.
    pub fn client_gone(&self) -> (r: bool)
        ensures
            r == self.state().client_gone,
    {
        self.state.client_gone
    }

    /// The exit code; zero as long as there is none.
    pub fn code(&self) -> (r: i32)
        ensures
            r == self.state().code,
    {
        self.state.code
    }

    fn attempts(&self) -> (r: u32)
        ensures
            r == last_attempts(self.state().client_gone),
    {
        if self.state.client_gone {
            1
        } else {
            SEND_ATTEMPTS
        }
    }

    /// Takes what happened.
    pub fn on_event(&mut self, event: PtyEvent) -> (r: PtyAction)
        ensures
            final(self).conn_id() == old(self).conn_id(),
            (final(self).state(), r@) == pty_step(old(self).conn_id(), old(self).state(), event@),
    {
        let conn_id: u32 = self.conn_id;
        let s = self.state;
        match (s.phase, event) {
            (PtyPhase::Running, PtyEvent::SetupFailed(e)) => {
                self.state = PtyState { phase: PtyPhase::SayingFailure, ..s };
                PtyAction::Fail {
                    message: server::failure_of(conn_id, "PTY setup failed: ", e.as_str()),
                    attempts: SEND_ATTEMPTS,
                }
            },
            (PtyPhase::Running, PtyEvent::ChildExited(code))
            | (PtyPhase::Killed, PtyEvent::ChildExited(code)) => {
                self.state = PtyState { phase: PtyPhase::Draining, code, ..s };
                PtyAction::Drain
            },
            (PtyPhase::Running, PtyEvent::WriterEnded)
            | (PtyPhase::Running, PtyEvent::SseDead) => {
                self.state = PtyState { phase: PtyPhase::Killed, client_gone: true, ..s };
                PtyAction::Kill
            },
            (PtyPhase::Running, PtyEvent::Resized { cols, rows }) => PtyAction::Resize {
                cols,
                rows,
            },
            (PtyPhase::Draining, PtyEvent::Drained)
            | (PtyPhase::Draining, PtyEvent::DrainTimedOut) => {
                let attempts: u32 = self.attempts();
                self.state = PtyState { phase: PtyPhase::SayingExit, ..s };
                PtyAction::Finish {
                    message: Message::ExitStatus { conn_id, code: s.code },
                    attempts,
                }
            },
            (PtyPhase::SayingExit, PtyEvent::Sent(true)) => {
                let attempts: u32 = self.attempts();
                self.state = PtyState { phase: PtyPhase::SayingClose, ..s };
                PtyAction::Send { message: Message::Close { conn_id }, attempts }
            },
            (PtyPhase::SayingExit, PtyEvent::Sent(false))
            | (PtyPhase::SayingClose, PtyEvent::Sent(_))
            | (PtyPhase::SayingFailure, PtyEvent::Sent(_)) => {
                self.state = PtyState { phase: PtyPhase::Ended, ..s };
                PtyAction::End
            },
            _ => PtyAction::Wait,
        }
    }
}

/// What a terminal does over a series of events, and the state it ends up in.
pub open spec fn pty_run(conn_id: u32, s: PtyState, events: Seq<PtyEventView>) -> (
    PtyState,
    Seq<PtyActionView>,
)
    decreases events.len(),
{
    if events.len() == 0 {
        (s, Seq::empty())
    } else {
        let (next, action) = pty_step(conn_id, s, events[0]);
        let (end, actions) = pty_run(conn_id, next, events.skip(1));
        (end, seq![action] + actions)
    }
}

/// The messages that were sent.
pub open spec fn messages(actions: Seq<PtyActionView>) -> Seq<MessageView>
    decreases actions.len(),
{
    if actions.len() == 0 {
        Seq::empty()
    } else {
        (match actions[0] {
            PtyActionView::Finish { message, .. } => seq![message],
            PtyActionView::Send { message, .. } => seq![message],
            PtyActionView::Fail { message, .. } => seq![message],
            _ => Seq::empty(),
        }) + messages(actions.skip(1))
    }
}

/// The command was killed.
pub open spec fn kills(actions: Seq<PtyActionView>) -> bool
    decreases actions.len(),
{
    actions.len() > 0 && (actions[0] is Kill || kills(actions.skip(1)))
}

/// What is left to say in a state, at most: the exit code and `Close`.
pub open spec fn left_to_say(conn_id: u32, s: PtyState, said: Seq<MessageView>, code: i32) -> bool {
    let exit = MessageView::ExitStatus { conn_id, code };
    let close = MessageView::Close { conn_id };
    match s.phase {
        PtyPhase::Running => said.len() == 0 || said == seq![exit] || said == seq![exit, close] || (
        said.len() == 1 && said[0] is Error),
        PtyPhase::Killed => said.len() == 0 || said == seq![exit] || said == seq![exit, close],
        PtyPhase::Draining => code == s.code && (said.len() == 0 || said == seq![exit] || said
            == seq![exit, close]),
        PtyPhase::SayingExit => said.len() == 0 || said == seq![close],
        _ => said.len() == 0,
    }
}

/// The code with which the command ends, from a state on.
pub open spec fn exit_code(conn_id: u32, s: PtyState, events: Seq<PtyEventView>) -> i32 {
    pty_run(conn_id, s, events).0.code
}

/// The client is told the exit code of the command first, and then that it is over, or
/// nothing, or only that the terminal could not be set up.
pub proof fn the_exit_code_comes_first(conn_id: u32, s: PtyState, events: Seq<PtyEventView>)
    ensures
        left_to_say(
            conn_id,
            s,
            messages(pty_run(conn_id, s, events).1),
            exit_code(conn_id, s, events),
        ),
        s.phase != PtyPhase::Running && s.phase != PtyPhase::Killed ==> exit_code(
            conn_id,
            s,
            events,
        ) == s.code,
    decreases events.len(),
{
    if events.len() > 0 {
        let (next, action) = pty_step(conn_id, s, events[0]);
        the_exit_code_comes_first(conn_id, next, events.skip(1));
        let rest = pty_run(conn_id, next, events.skip(1)).1;
        assert((seq![action] + rest).skip(1) =~= rest);
        let said = messages(rest);
        let code = exit_code(conn_id, s, events);
        let exit = MessageView::ExitStatus { conn_id, code };
        let close = MessageView::Close { conn_id };
        let none = Seq::<MessageView>::empty();
        assert(seq![exit] + seq![close] =~= seq![exit, close]);
        assert(none + said =~= said);
        if said.len() == 0 {
            assert(said =~= none);
            assert(seq![exit] + none =~= seq![exit]);
            assert(seq![close] + none =~= seq![close]);
        }
    }
}

/// `Close` is sent only where the exit code has arrived: a client that cannot be
/// reached is not tried a second time.
pub proof fn close_needs_the_exit_code(conn_id: u32, s: PtyState, event: PtyEventView)
    ensures
        pty_step(conn_id, s, event).1 is Send ==> s.phase == PtyPhase::SayingExit && event
            == PtyEventView::Sent(true),
{
}

/// The exit code and `Close` were worth that many attempts each.
pub open spec fn tried(actions: Seq<PtyActionView>, attempts: u32) -> bool
    decreases actions.len(),
{
    actions.len() == 0 || ((match actions[0] {
        PtyActionView::Finish { attempts: a, .. } => a == attempts,
        PtyActionView::Send { attempts: a, .. } => a == attempts,
        _ => true,
    }) && tried(actions.skip(1), attempts))
}

/// A command is killed exactly where the client was found gone, and a client that was
/// found gone is worth one attempt per message, any other the full number.
pub proof fn killed_where_the_client_is_gone(conn_id: u32, s: PtyState, events: Seq<PtyEventView>)
    requires
        !s.client_gone,
    ensures
        ({
            let (end, actions) = pty_run(conn_id, s, events);
            &&& end.client_gone <==> kills(actions)
            &&& tried(actions, last_attempts(end.client_gone))
        }),
    decreases events.len(),
{
    if events.len() > 0 {
        let (next, action) = pty_step(conn_id, s, events[0]);
        let rest = pty_run(conn_id, next, events.skip(1)).1;
        assert((seq![action] + rest).skip(1) =~= rest);
        if next.phase != PtyPhase::Running {
            decided_stays_decided(conn_id, next, events.skip(1));
        } else {
            killed_where_the_client_is_gone(conn_id, next, events.skip(1));
        }
    }
}

/// Once the command no longer runs, it is settled whether the client is gone.
proof fn decided_stays_decided(conn_id: u32, s: PtyState, events: Seq<PtyEventView>)
    requires
        s.phase != PtyPhase::Running,
    ensures
        ({
            let (end, actions) = pty_run(conn_id, s, events);
            &&& end.client_gone == s.client_gone
            &&& !kills(actions)
            &&& tried(actions, last_attempts(s.client_gone))
        }),
    decreases events.len(),
{
    if events.len() > 0 {
        let (next, action) = pty_step(conn_id, s, events[0]);
        let rest = pty_run(conn_id, next, events.skip(1)).1;
        assert((seq![action] + rest).skip(1) =~= rest);
        decided_stays_decided(conn_id, next, events.skip(1));
    }
}

// Bytes.

/// The outcome of one attempt to read from or write to a terminal.
#[derive(Debug, Clone, Copy, PartialEq, Eq, Structural)]
pub enum IoOutcome {
    /// That many bytes went through.
    Bytes(usize),
    /// A signal came in between.
    Interrupted,
    /// The terminal was not ready after all.
    WouldBlock,
    Failed,
}

/// What to do after it.
#[derive(Debug, Clone, Copy, PartialEq, Eq, Structural)]
pub enum IoNext {
    /// Go on with that many bytes done.
    Took(usize),
    /// Try again.
    Again,
    /// There is nothing more to do.
    Stop,
}

/// What follows an attempt to read.
pub open spec fn read_next(outcome: IoOutcome) -> IoNext {
    if outcome == IoOutcome::Failed || outcome == IoOutcome::Bytes(0) {
        IoNext::Stop
    } else {
        write_next(outcome)
    }
}

/// What follows an attempt to write.
pub open spec fn write_next(outcome: IoOutcome) -> IoNext {
    match outcome {
        IoOutcome::Bytes(n) => IoNext::Took(n),
        IoOutcome::Interrupted => IoNext::Again,
        IoOutcome::WouldBlock => IoNext::Again,
        IoOutcome::Failed => IoNext::Stop,
    }
}

/// After an attempt to read: no bytes are the end of the output.
pub fn after_read(outcome: IoOutcome) -> (r: IoNext)
    ensures
        r == read_next(outcome),
        r == (match outcome {
            IoOutcome::Bytes(n) => if n == 0 {
                IoNext::Stop
            } else {
                IoNext::Took(n)
            },
            IoOutcome::Failed => IoNext::Stop,
            _ => IoNext::Again,
        }),
{
    match outcome {
        IoOutcome::Bytes(n) => if n == 0 {
            IoNext::Stop
        } else {
            IoNext::Took(n)
        },
        IoOutcome::Failed => IoNext::Stop,
        _ => IoNext::Again,
    }
}

/// After an attempt to write.
pub fn after_write(outcome: IoOutcome) -> (r: IoNext)
    ensures
        r == write_next(outcome),
        r == (match outcome {
            IoOutcome::Bytes(n) => IoNext::Took(n),
            IoOutcome::Failed => IoNext::Stop,
            _ => IoNext::Again,
        }),
{
    match outcome {
        IoOutcome::Bytes(n) => IoNext::Took(n),
        IoOutcome::Failed => IoNext::Stop,
        _ => IoNext::Again,
    }
}

/// Bytes on their way into a terminal, which may take them in pieces.
#[derive(Debug)]
pub struct PendingWrite {
    data: Vec<u8>,
    pos: usize,
}

impl PendingWrite {
    /// All bytes.
    pub closed spec fn data(&self) -> Seq<u8> {
        self.data@
    }

    /// How many were taken.
    pub closed spec fn taken(&self) -> nat {
        self.pos as nat
    }

    pub open spec fn wf(&self) -> bool {
        self.taken() <= self.data().len()
    }

    pub fn new(data: Vec<u8>) -> (r: Self)
        ensures
            r.data() == data@,
            r.taken() == 0,
            r.wf(),
    {
        PendingWrite { data, pos: 0 }
    }

    /// The bytes that were not taken yet.
    pub fn rest(&self) -> (r: &[u8])
        requires
            self.wf(),
        ensures
            r@ == self.data().skip(self.taken() as int),
    {
        vstd::slice::slice_subrange(self.data.as_slice(), self.pos, self.data.len())
    }

    /// Takes note of bytes that were taken; no more than were offered.
    pub fn took(&mut self, n: usize)
        requires
            old(self).wf(),
            n <= old(self).data().len() - old(self).taken(),
        ensures
            final(self).wf(),
            final(self).data() == old(self).data(),
            final(self).taken() == old(self).taken() + n,
    {
        let _size: usize = self.data.len();
        self.pos = self.pos + n;
    }
}

/// Output of the command for the client.
pub fn pty_chunk(conn_id: u32, data: Vec<u8>) -> (r: Message)
    ensures
        r@ == (MessageView::Data { conn_id, data: data@ }),
{
    Message::Data { conn_id, data }
}

// What a terminal does, told by what happened.

/// The event can happen in the state.
pub open spec fn pty_expects(s: PtyState, event: PtyEventView) -> bool {
    match s.phase {
        PtyPhase::Running => event is SetupFailed || event is ChildExited || event is WriterEnded
            || event is SseDead || event is Resized,
        PtyPhase::Killed => event is ChildExited,
        PtyPhase::Draining => event is Drained || event is DrainTimedOut,
        PtyPhase::SayingExit => event is Sent,
        PtyPhase::SayingClose => event is Sent,
        PtyPhase::SayingFailure => event is Sent,
        PtyPhase::Ended => false,
    }
}

/// The events can happen one after the other.
pub open spec fn pty_possible(conn_id: u32, s: PtyState, events: Seq<PtyEventView>) -> bool
    decreases events.len(),
{
    events.len() == 0 || {
        &&& pty_expects(s, events[0])
        &&& pty_possible(conn_id, pty_step(conn_id, s, events[0]).0, events.skip(1))
    }
}

proof fn seen_so_far<T>(s: Seq<T>, x: T)
    requires
        s.len() > 0,
    ensures
        s.contains(x) <==> s.drop_last().contains(x) || s.last() == x,
{
    let past = s.drop_last();
    if past.contains(x) {
        let i = choose|i: int| 0 <= i < past.len() && past[i] == x;
        assert(s[i] == x);
    }
    if s.last() == x {
        assert(s[s.len() - 1] == x);
    }
    if s.contains(x) && s.last() != x {
        let i = choose|i: int| 0 <= i < s.len() && s[i] == x;
        assert(past[i] == x);
    }
}

proof fn pty_one_more(conn_id: u32, s: PtyState, events: Seq<PtyEventView>)
    requires
        events.len() > 0,
    ensures
        ({
            let (before, actions) = pty_run(conn_id, s, events.drop_last());
            let (after, action) = pty_step(conn_id, before, events.last());
            pty_run(conn_id, s, events) == (after, actions.push(action))
        }),
        pty_possible(conn_id, s, events) ==> pty_possible(conn_id, s, events.drop_last()) && pty_expects(
            pty_run(conn_id, s, events.drop_last()).0,
            events.last(),
        ),
    decreases events.len(),
{
    reveal_with_fuel(pty_run, 2);
    reveal_with_fuel(pty_possible, 2);
    let (next, action) = pty_step(conn_id, s, events[0]);
    let tail = events.skip(1);
    if events.len() == 1 {
        assert(events.drop_last() =~= Seq::<PtyEventView>::empty());
        assert(tail =~= Seq::<PtyEventView>::empty());
        assert(pty_run(conn_id, s, events).1 =~= Seq::<PtyActionView>::empty().push(action));
    } else {
        pty_one_more(conn_id, next, tail);
        assert(tail.drop_last() =~= events.drop_last().skip(1));
        let before = pty_run(conn_id, next, tail.drop_last());
        let last = pty_step(conn_id, before.0, events.last()).1;
        assert(seq![action] + before.1.push(last) =~= (seq![action] + before.1).push(last));
    }
}

/// The code that the command exited with; zero as long as it has not.
pub open spec fn exited_with(events: Seq<PtyEventView>) -> i32
    decreases events.len(),
{
    if events.len() == 0 {
        0
    } else {
        match events.last() {
            PtyEventView::ChildExited(code) => code,
            _ => exited_with(events.drop_last()),
        }
    }
}

/// The client went away while the command ran.
pub open spec fn went_away(events: Seq<PtyEventView>) -> bool {
    events.contains(PtyEventView::WriterEnded) || events.contains(PtyEventView::SseDead)
}

/// Whatever happened before, a terminal answers the latest event with this. A client that
/// went away has its command killed; the end of the command is followed by its last output,
/// that by its own exit code, and that, where it arrived, by `Close`. Both are worth fifty
/// attempts, or one to a client that went away. A terminal that cannot be set up is reported.
pub proof fn the_latest_event_decides_the_terminal(conn_id: u32, events: Seq<PtyEventView>)
    requires
        pty_possible(conn_id, pty_start(), events),
        events.len() > 0,
    ensures
        ({
            let (end, actions) = pty_run(conn_id, pty_start(), events);
            let attempts: u32 = if went_away(events) {
                1
            } else {
                50
            };
            &&& actions.len() == events.len()
            &&& events.last() is Sent ==> events.len() > 1
            &&& actions.last() == (match events.last() {
                PtyEventView::SetupFailed(e) => PtyActionView::Fail {
                    message: MessageView::Error {
                        conn_id: Some(conn_id),
                        message: "PTY setup failed: "@ + e,
                    },
                    attempts: 50,
                },
                PtyEventView::ChildExited(_) => PtyActionView::Drain,
                PtyEventView::WriterEnded | PtyEventView::SseDead => PtyActionView::Kill,
                PtyEventView::Resized { cols, rows } => PtyActionView::Resize { cols, rows },
                PtyEventView::Drained | PtyEventView::DrainTimedOut => PtyActionView::Finish {
                    message: MessageView::ExitStatus { conn_id, code: exited_with(events) },
                    attempts,
                },
                PtyEventView::Sent(ok) => if ok && (events[events.len() - 2] is Drained
                    || events[events.len() - 2] is DrainTimedOut) {
                    PtyActionView::Send { message: MessageView::Close { conn_id }, attempts }
                } else {
                    PtyActionView::End
                },
            })
            &&& end.client_gone <==> went_away(events)
            &&& end.code == exited_with(events)
            &&& end.phase == (match actions.last() {
                PtyActionView::Kill => PtyPhase::Killed,
                PtyActionView::Drain => PtyPhase::Draining,
                PtyActionView::Finish { .. } => PtyPhase::SayingExit,
                PtyActionView::Send { .. } => PtyPhase::SayingClose,
                PtyActionView::Fail { .. } => PtyPhase::SayingFailure,
                PtyActionView::End => PtyPhase::Ended,
                _ => PtyPhase::Running,
            })
        }),
    decreases events.len(),
{
    reveal_with_fuel(exited_with, 2);
    pty_one_more(conn_id, pty_start(), events);
    seen_so_far(events, PtyEventView::WriterEnded);
    seen_so_far(events, PtyEventView::SseDead);
    let past = events.drop_last();
    if past.len() > 0 {
        the_latest_event_decides_the_terminal(conn_id, past);
        assert(past.last() == events[events.len() - 2]);
    }
}

/// A terminal that is over does nothing more, and one that waits for something else does not
/// take what comes out of turn: a size after the end of the command goes nowhere.
pub proof fn terminals_keep_their_turn(conn_id: u32, s: PtyState, event: PtyEventView)
    requires
        match s.phase {
            PtyPhase::Running => event is Drained || event is DrainTimedOut || event is Sent,
            PtyPhase::Killed => !(event is ChildExited),
            PtyPhase::Draining => !(event is Drained || event is DrainTimedOut),
            PtyPhase::SayingExit | PtyPhase::SayingClose | PtyPhase::SayingFailure => !(event
                is Sent),
            PtyPhase::Ended => true,
        },
    ensures
        pty_step(conn_id, s, event) == (s, PtyActionView::Wait),
{
}

/// The last output of a command is read for two seconds at most.
pub proof fn draining_is_limited()
    ensures
        DRAIN_MS == 2000,
{
}

/// Only a failure stops the input of a terminal, and only a failure or the end of it its
/// output; what went through is counted as it is, and what did not is tried again.
pub proof fn bytes_are_tried_again(outcome: IoOutcome, n: usize)
    ensures
        write_next(outcome) == IoNext::Stop <==> outcome == IoOutcome::Failed,
        read_next(outcome) == IoNext::Stop <==> outcome == IoOutcome::Failed || outcome
            == IoOutcome::Bytes(0),
        write_next(outcome) == IoNext::Took(n) <==> outcome == IoOutcome::Bytes(n),
        n > 0 ==> (read_next(outcome) == IoNext::Took(n) <==> outcome == IoOutcome::Bytes(n)),
{
}

/// What is said of an event is what it holds, and what is said of an action is what it does.
pub proof fn terminals_say_what_happens(
    message: Message,
    text: String,
    a: u16,
    b: u16,
    ok: bool,
    code: i32,
    attempts: u32,
)
    ensures
        PtyEvent::SetupFailed(text)@ == PtyEventView::SetupFailed(text@),
        PtyEvent::ChildExited(code)@ == PtyEventView::ChildExited(code),
        PtyEvent::WriterEnded@ == PtyEventView::WriterEnded,
        PtyEvent::SseDead@ == PtyEventView::SseDead,
        (PtyEvent::Resized { cols: a, rows: b })@ == (PtyEventView::Resized { cols: a, rows: b }),
        PtyEvent::Drained@ == PtyEventView::Drained,
        PtyEvent::DrainTimedOut@ == PtyEventView::DrainTimedOut,
        PtyEvent::Sent(ok)@ == PtyEventView::Sent(ok),
        PtyAction::Wait@ == PtyActionView::Wait,
        (PtyAction::Resize { cols: a, rows: b })@ == (PtyActionView::Resize { cols: a, rows: b }),
        PtyAction::Kill@ == PtyActionView::Kill,
        PtyAction::Drain@ == PtyActionView::Drain,
        (PtyAction::Finish { message, attempts })@ == (PtyActionView::Finish {
            message: message@,
            attempts,
        }),
        (PtyAction::Send { message, attempts })@ == (PtyActionView::Send {
            message: message@,
            attempts,
        }),
        (PtyAction::Fail { message, attempts })@ == (PtyActionView::Fail {
            message: message@,
            attempts,
        }),
        PtyAction::End@ == PtyActionView::End,
{
}

/// A terminal starts out running, with its client there: its command can end, its client can
/// leave or change the size, or there is no terminal at all.
pub proof fn terminals_start_out_running(conn_id: u32, event: PtyEventView)
    ensures
        pty_possible(conn_id, pty_start(), seq![event]) <==> !(event is Drained || event
            is DrainTimedOut || event is Sent),
        !pty_start().client_gone,
        pty_start().code == 0,
{
    reveal_with_fuel(pty_possible, 2);
}

} // verus!
