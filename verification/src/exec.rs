//! The client's end of a remote command: keystrokes go out, output comes in, and the
//! command's exit code is the result.

use crate::protocol::{Message, MessageView};
use crate::tunnel::{TunnelEvent, TunnelEventView};
use vstd::prelude::*;

verus! {

broadcast use vstd::seq::group_seq_axioms;

/// The size of a terminal that does not say.
pub const DEFAULT_COLS: u16 = 80;

/// The size of a terminal that does not say.
pub const DEFAULT_ROWS: u16 = 24;

/// The character that ends the input of a terminal.
pub const END_OF_INPUT: u8 = 4;

/// A size with at least one column and one row.
pub open spec fn is_size(s: (u16, u16)) -> bool {
    s.0 > 0 && s.1 > 0
}

/// The first size that is one, or the default.
pub open spec fn first_size(sizes: Seq<(u16, u16)>) -> (u16, u16)
    decreases sizes.len(),
{
    if sizes.len() == 0 {
        (DEFAULT_COLS, DEFAULT_ROWS)
    } else if is_size(sizes[0]) {
        sizes[0]
    } else {
        first_size(sizes.skip(1))
    }
}

/// Columns and rows of the terminal, out of what its three standard streams say.
pub fn terminal_size(sizes: &[(u16, u16)]) -> (r: (u16, u16))
    ensures
        r == first_size(sizes@),
        is_size(r),
{
    let mut i: usize = 0;
    assert(sizes@.skip(0) =~= sizes@);
    while i < sizes.len()
        invariant
            i <= sizes@.len(),
            first_size(sizes@) == first_size(sizes@.skip(i as int)),
        decreases sizes@.len() - i,
    {
        let (cols, rows) = sizes[i];
        if cols > 0 && rows > 0 {
            return (cols, rows);
        }
        assert(sizes@.skip(i as int).skip(1) =~= sizes@.skip(i + 1));
        i += 1;
    }
    (DEFAULT_COLS, DEFAULT_ROWS)
}

/// The terminal type that is sent along: that of the environment, or
/// `xterm-256color` where it names none.
pub fn client_term(env: Option<String>) -> (r: String)
    ensures
        r@ == match env {
            Some(t) => t@,
            None => "xterm-256color"@,
        },
{
    match env {
        Some(t) => t,
        None => String::from_str("xterm-256color"),
    }
}

/// What happened.
#[derive(Debug)]
pub enum ExecEvent {
    /// The user typed something.
    Input(Vec<u8>),
    /// The user's input ended.
    InputEof,
    /// Reading the user's input failed.
    InputFailed,
    /// The tunnel delivered an event.
    Event(TunnelEvent),
    /// The tunnel dropped the connection.
    Dropped,
    /// Output was shown, or could not be.
    Written(bool),
    /// The terminal has a new size.
    Resized { cols: u16, rows: u16 },
    /// Input could not be queued: nothing can be sent any more.
    SenderClosed,
}

/// What happened, with its contents.
#[verifier::ext_equal]
pub enum ExecEventView {
    Input(Seq<u8>),
    InputEof,
    InputFailed,
    Event(TunnelEventView),
    Dropped,
    Written(bool),
    Resized { cols: u16, rows: u16 },
    SenderClosed,
}

impl View for ExecEvent {
    type V = ExecEventView;

    open spec fn view(&self) -> ExecEventView {
        match *self {
            ExecEvent::Input(data) => ExecEventView::Input(data@),
            ExecEvent::InputEof => ExecEventView::InputEof,
            ExecEvent::InputFailed => ExecEventView::InputFailed,
            ExecEvent::Event(e) => ExecEventView::Event(e@),
            ExecEvent::Dropped => ExecEventView::Dropped,
            ExecEvent::Written(ok) => ExecEventView::Written(ok),
            ExecEvent::Resized { cols, rows } => ExecEventView::Resized { cols, rows },
            ExecEvent::SenderClosed => ExecEventView::SenderClosed,
        }
    }
}

/// Why a command has no exit code.
#[derive(Debug)]
pub enum ExecError {
    /// The server reported an error.
    Remote(String),
    /// The connection ended before there was an exit code.
    NoExitStatus,
    /// Input could not be sent.
    SenderClosed,
}

impl ExecError {
    /// What the error says to a user.
    pub open spec fn text(&self) -> Seq<char> {
        match *self {
            ExecError::Remote(m) => "remote error: "@ + m@,
            ExecError::NoExitStatus =>
                "connection closed before the remote command reported an exit status"@,
            ExecError::SenderClosed => "sender channel closed"@,
        }
    }

    /// What the error says to a user.
    pub fn message(&self) -> (r: String)
        ensures
            r@ == self.text(),
    {
        match self {
            ExecError::Remote(m) => String::from_str("remote error: ").concat(m.as_str()),
            ExecError::NoExitStatus => String::from_str(
                "connection closed before the remote command reported an exit status",
            ),
            ExecError::SenderClosed => String::from_str("sender channel closed"),
        }
    }
}

/// How a command ended for the client.
#[verifier::ext_equal]
pub enum ExecResultView {
    Code(i32),
    Remote(Seq<char>),
    NoExitStatus,
    SenderClosed,
}

/// What an outcome says.
pub open spec fn result_view(r: Result<i32, ExecError>) -> ExecResultView {
    match r {
        Ok(code) => ExecResultView::Code(code),
        Err(ExecError::Remote(m)) => ExecResultView::Remote(m@),
        Err(ExecError::NoExitStatus) => ExecResultView::NoExitStatus,
        Err(ExecError::SenderClosed) => ExecResultView::SenderClosed,
    }
}

/// What the client knows of a running command.
#[derive(Debug, Clone, Copy, PartialEq, Eq, Structural)]
pub struct ExecState {
    pub ended: bool,
    /// The user's input goes on.
    pub input_open: bool,
    /// The last character that was sent ended a line, or there was none.
    pub at_line_start: bool,
    /// The exit code, once the server has sent it.
    pub exit: Option<i32>,
}

/// What to do next.
#[derive(Debug)]
pub enum ExecAction {
    Wait,
    /// Queue the message for sending, if that is possible.
    Send(Message),
    /// Queue the input for sending, and report `SenderClosed` where that is not possible.
    SendInput(Message),
    /// Show the output.
    Write(Vec<u8>),
    /// The command is over; what is queued is still sent where `flush`. Then tell the
    /// server to close.
    End { result: Result<i32, ExecError>, flush: bool },
}

/// What to do next, with its contents.
#[verifier::ext_equal]
pub enum ExecActionView {
    Wait,
    Send(MessageView),
    SendInput(MessageView),
    Write(Seq<u8>),
    End { result: ExecResultView, flush: bool },
}

impl View for ExecAction {
    type V = ExecActionView;

    open spec fn view(&self) -> ExecActionView {
        match *self {
            ExecAction::Wait => ExecActionView::Wait,
            ExecAction::Send(m) => ExecActionView::Send(m@),
            ExecAction::SendInput(m) => ExecActionView::SendInput(m@),
            ExecAction::Write(data) => ExecActionView::Write(data@),
            ExecAction::End { result, flush } => ExecActionView::End {
                result: result_view(result),
                flush,
            },
        }
    }
}

/// What ends the input of the remote terminal: the end character, after a line end
/// where a line is still open, for the character ends the input only on an empty line.
pub open spec fn end_of_input(at_line_start: bool) -> Seq<u8> {
    if at_line_start {
        seq![END_OF_INPUT]
    } else {
        seq![10u8, END_OF_INPUT]
    }
}

/// The end of the connection: the exit code if the server has sent it.
pub open spec fn connection_over(s: ExecState) -> (ExecState, ExecActionView) {
    (
        ExecState { ended: true, ..s },
        ExecActionView::End {
            result: match s.exit {
                Some(code) => ExecResultView::Code(code),
                None => ExecResultView::NoExitStatus,
            },
            flush: true,
        },
    )
}

/// A step: the next state, and what to do.
pub open spec fn exec_step(conn_id: u32, s: ExecState, event: ExecEventView) -> (
    ExecState,
    ExecActionView,
) {
    if s.ended {
        (s, ExecActionView::Wait)
    } else {
        match event {
            ExecEventView::Input(data) => if s.input_open && data.len() > 0 {
                (
                    ExecState { at_line_start: data.last() == 10, ..s },
                    ExecActionView::SendInput(MessageView::Data { conn_id, data }),
                )
            } else {
                (s, ExecActionView::Wait)
            },
            ExecEventView::InputEof => if s.input_open {
                (
                    ExecState { input_open: false, ..s },
                    ExecActionView::Send(
                        MessageView::Data { conn_id, data: end_of_input(s.at_line_start) },
                    ),
                )
            } else {
                (s, ExecActionView::Wait)
            },
            ExecEventView::InputFailed => (
                ExecState { input_open: false, ..s },
                ExecActionView::Wait,
            ),
            ExecEventView::Event(TunnelEventView::Data(data)) => (s, ExecActionView::Write(data)),
            ExecEventView::Event(TunnelEventView::Exit(code)) => (
                ExecState { exit: Some(code), ..s },
                ExecActionView::Wait,
            ),
            ExecEventView::Event(TunnelEventView::Error(m)) => (
                ExecState { ended: true, ..s },
                ExecActionView::End { result: ExecResultView::Remote(m), flush: false },
            ),
            ExecEventView::Event(TunnelEventView::Close) => connection_over(s),
            ExecEventView::Dropped => connection_over(s),
            ExecEventView::Written(ok) => if ok {
                (s, ExecActionView::Wait)
            } else {
                connection_over(s)
            },
            ExecEventView::Resized { cols, rows } => (
                s,
                ExecActionView::Send(MessageView::Resize { conn_id, cols, rows }),
            ),
            ExecEventView::SenderClosed => (
                ExecState { ended: true, ..s },
                ExecActionView::End { result: ExecResultView::SenderClosed, flush: false },
            ),
        }
    }
}

/// A remote command, seen from the client.
#[derive(Debug)]
pub struct ExecSession {
    conn_id: u32,
    state: ExecState,
}

/// The state at the start.
pub open spec fn exec_start() -> ExecState {
    ExecState { ended: false, input_open: true, at_line_start: true, exit: None }
}

impl ExecSession {
    /// The connection.
    pub closed spec fn conn_id(&self) -> u32 {
        self.conn_id
    }

    /// What is known.
    pub closed spec fn state(&self) -> ExecState {
        self.state
    }

    pub fn new(conn_id: u32) -> (r: Self)
        ensures
            r.conn_id() == conn_id,
            r.state() == exec_start(),
    {
        ExecSession {
            conn_id,
            state: ExecState { ended: false, input_open: true, at_line_start: true, exit: None },
        }
    }

    /// The request that starts the command.
    pub fn request(&self, cmd: Option<String>, cols: u16, rows: u16, term: String) -> (r: Message)
        ensures
            r@ == (MessageView::Exec {
                conn_id: self.conn_id(),
                cmd: crate::wire::text_of(cmd),
                cols,
                rows,
                term: term@,
            }),
    {
        Message::Exec { conn_id: self.conn_id, cmd, cols, rows, term }
    }

    /// The message that ends the command at the server, however it ended here.
    pub fn goodbye(&self) -> (r: Message)
        ensures
            r@ == (MessageView::Close { conn_id: self.conn_id() }),
    {
        Message::Close { conn_id: self.conn_id }
    }

    /// Whether the user's input is still read.
    pub fn input_open(&self) -> (r: bool)
        ensures
            r == self.state().input_open,
    {
        self.state.input_open
    }

    fn over(&mut self) -> (r: ExecAction)
        ensures
            final(self).conn_id() == old(self).conn_id(),
            (final(self).state(), r@) == connection_over(old(self).state()),
    {
        let result: Result<i32, ExecError> = match self.state.exit {
            Some(code) => Ok(code),
            None => Err(ExecError::NoExitStatus),
        };
        self.state = ExecState { ended: true, ..self.state };
        ExecAction::End { result, flush: true }
    }

    /// Takes what happened.
    pub fn on_event(&mut self, event: ExecEvent) -> (r: ExecAction)
        ensures
            final(self).conn_id() == old(self).conn_id(),
            (final(self).state(), r@) == exec_step(old(self).conn_id(), old(self).state(), event@),
    {
        let conn_id: u32 = self.conn_id;
        let s = self.state;
        if s.ended {
            return ExecAction::Wait;
        }
        match event {
            ExecEvent::Input(data) => if s.input_open && data.len() > 0 {
                let at_line_start = data[data.len() - 1] == 10;
                self.state = ExecState { at_line_start, ..s };
                ExecAction::SendInput(Message::Data { conn_id, data })
            } else {
                ExecAction::Wait
            },
            ExecEvent::InputEof => if s.input_open {
                let mut data: Vec<u8> = Vec::new();
                if !s.at_line_start {
                    data.push(10);
                }
                data.push(END_OF_INPUT);
                assert(data@ =~= end_of_input(s.at_line_start));
                self.state = ExecState { input_open: false, ..s };
                ExecAction::Send(Message::Data { conn_id, data })
            } else {
                ExecAction::Wait
            },
            ExecEvent::InputFailed => {
                self.state = ExecState { input_open: false, ..s };
                ExecAction::Wait
            },
            ExecEvent::Event(e) => match e {
                TunnelEvent::Data(data) => ExecAction::Write(data),
                TunnelEvent::Exit(code) => {
                    self.state = ExecState { exit: Some(code), ..s };
                    ExecAction::Wait
                },
                TunnelEvent::Error(m) => {
                    self.state = ExecState { ended: true, ..s };
                    ExecAction::End { result: Err(ExecError::Remote(m)), flush: false }
                },
                TunnelEvent::Close => self.over(),
            },
            ExecEvent::Dropped => self.over(),
            ExecEvent::Written(ok) => if ok {
                ExecAction::Wait
            } else {
                self.over()
            },
            ExecEvent::Resized { cols, rows } => ExecAction::Send(
                Message::Resize { conn_id, cols, rows },
            ),
            ExecEvent::SenderClosed => {
                self.state = ExecState { ended: true, ..s };
                ExecAction::End { result: Err(ExecError::SenderClosed), flush: false }
            },
        }
    }
}

/// What the client does over a series of events, and the state it ends up in.
pub open spec fn exec_run(conn_id: u32, s: ExecState, events: Seq<ExecEventView>) -> (
    ExecState,
    Seq<ExecActionView>,
)
    decreases events.len(),
{
    if events.len() == 0 {
        (s, Seq::empty())
    } else {
        let (next, action) = exec_step(conn_id, s, events[0]);
        let (end, actions) = exec_run(conn_id, next, events.skip(1));
        (end, seq![action] + actions)
    }
}

/// The command was reported to have ended with the code.
pub open spec fn reports(actions: Seq<ExecActionView>, code: i32) -> bool
    decreases actions.len(),
{
    actions.len() > 0 && ((actions[0] matches ExecActionView::End { result, .. } && result
        == ExecResultView::Code(code)) || reports(actions.skip(1), code))
}

/// A command is reported with an exit code only where the server has sent that code: a
/// connection that is lost before it never counts as success.
pub proof fn exit_codes_come_from_the_server(
    conn_id: u32,
    s: ExecState,
    events: Seq<ExecEventView>,
    code: i32,
)
    requires
        reports(exec_run(conn_id, s, events).1, code),
    ensures
        s.exit == Some(code) || events.contains(
            ExecEventView::Event(TunnelEventView::Exit(code)),
        ),
    decreases events.len(),
{
    let (next, action) = exec_step(conn_id, s, events[0]);
    let tail = events.skip(1);
    let rest = exec_run(conn_id, next, tail).1;
    assert((seq![action] + rest).skip(1) =~= rest);
    if reports(rest, code) {
        exit_codes_come_from_the_server(conn_id, next, tail, code);
        if next.exit == Some(code) {
            if s.exit != Some(code) {
                assert(events[0] == ExecEventView::Event(TunnelEventView::Exit(code)));
            }
        } else {
            let i = choose|i: int|
                0 <= i < tail.len() && tail[i] == ExecEventView::Event(TunnelEventView::Exit(code));
            assert(events[i + 1] == tail[i]);
        }
    }
}

// What a whole session does.

/// The event ends the session.
pub open spec fn ends_session(event: ExecEventView) -> bool {
    ||| event == ExecEventView::Event(TunnelEventView::Close)
    ||| event is Event && event->Event_0 is Error
    ||| event == ExecEventView::Dropped
    ||| event == ExecEventView::Written(false)
    ||| event == ExecEventView::SenderClosed
}

/// What the user typed, up to the end of the input or of the session.
pub open spec fn typed(events: Seq<ExecEventView>) -> Seq<u8>
    decreases events.len(),
{
    if events.len() == 0 || ends_session(events[0]) || events[0] is InputEof
        || events[0] is InputFailed {
        Seq::empty()
    } else {
        (match events[0] {
            ExecEventView::Input(data) => data,
            _ => Seq::empty(),
        }) + typed(events.skip(1))
    }
}

/// What the command printed, up to the end of the session.
pub open spec fn printed(events: Seq<ExecEventView>) -> Seq<u8>
    decreases events.len(),
{
    if events.len() == 0 || ends_session(events[0]) {
        Seq::empty()
    } else {
        (match events[0] {
            ExecEventView::Event(TunnelEventView::Data(data)) => data,
            _ => Seq::empty(),
        }) + printed(events.skip(1))
    }
}

/// The sizes that the terminal had, up to the end of the session.
pub open spec fn resized(events: Seq<ExecEventView>) -> Seq<(u16, u16)>
    decreases events.len(),
{
    if events.len() == 0 || ends_session(events[0]) {
        Seq::empty()
    } else {
        (match events[0] {
            ExecEventView::Resized { cols, rows } => seq![(cols, rows)],
            _ => Seq::empty(),
        }) + resized(events.skip(1))
    }
}

/// The bytes that were queued as input for the connection.
pub open spec fn keys_sent(conn_id: u32, actions: Seq<ExecActionView>) -> Seq<u8>
    decreases actions.len(),
{
    if actions.len() == 0 {
        Seq::empty()
    } else {
        (match actions[0] {
            ExecActionView::SendInput(MessageView::Data { conn_id: to, data }) => if to == conn_id {
                data
            } else {
                Seq::empty()
            },
            _ => Seq::empty(),
        }) + keys_sent(conn_id, actions.skip(1))
    }
}

/// The bytes that were shown.
pub open spec fn shown(actions: Seq<ExecActionView>) -> Seq<u8>
    decreases actions.len(),
{
    if actions.len() == 0 {
        Seq::empty()
    } else {
        (match actions[0] {
            ExecActionView::Write(data) => data,
            _ => Seq::empty(),
        }) + shown(actions.skip(1))
    }
}

/// The sizes that the server was told for the connection.
pub open spec fn sizes_sent(conn_id: u32, actions: Seq<ExecActionView>) -> Seq<(u16, u16)>
    decreases actions.len(),
{
    if actions.len() == 0 {
        Seq::empty()
    } else {
        (match actions[0] {
            ExecActionView::Send(MessageView::Resize { conn_id: to, cols, rows }) => if to
                == conn_id {
                seq![(cols, rows)]
            } else {
                Seq::empty()
            },
            _ => Seq::empty(),
        }) + sizes_sent(conn_id, actions.skip(1))
    }
}

/// Whatever happens in a session, the server gets every key that the user typed, in order
/// and without a gap; the user sees every byte that the command printed; and the server
/// learns every size of the terminal.
pub proof fn a_terminal_loses_nothing(conn_id: u32, s: ExecState, events: Seq<ExecEventView>)
    requires
        !s.ended,
    ensures
        ({
            let actions = exec_run(conn_id, s, events).1;
            &&& s.input_open ==> keys_sent(conn_id, actions) == typed(events)
            &&& !s.input_open ==> keys_sent(conn_id, actions).len() == 0
            &&& shown(actions) == printed(events)
            &&& sizes_sent(conn_id, actions) == resized(events)
        }),
    decreases events.len(),
{
    if events.len() > 0 {
        let (next, action) = exec_step(conn_id, s, events[0]);
        let rest = exec_run(conn_id, next, events.skip(1)).1;
        assert((seq![action] + rest).skip(1) =~= rest);
        if next.ended {
            nothing_follows_the_end(conn_id, next, events.skip(1));
            let actions = exec_run(conn_id, s, events).1;
            assert(keys_sent(conn_id, actions) =~= Seq::<u8>::empty());
            assert(shown(actions) =~= Seq::<u8>::empty());
            assert(sizes_sent(conn_id, actions) =~= Seq::<(u16, u16)>::empty());
        } else {
            a_terminal_loses_nothing(conn_id, next, events.skip(1));
            let actions = exec_run(conn_id, s, events).1;
            if s.input_open {
                assert(keys_sent(conn_id, actions) =~= typed(events));
            } else {
                assert(keys_sent(conn_id, actions) =~= Seq::<u8>::empty());
            }
            assert(shown(actions) =~= printed(events));
            assert(sizes_sent(conn_id, actions) =~= resized(events));
        }
    }
}

/// Nothing is done once a session has ended.
pub proof fn nothing_follows_the_end(conn_id: u32, s: ExecState, events: Seq<ExecEventView>)
    requires
        s.ended,
    ensures
        exec_run(conn_id, s, events).0 == s,
        forall|i: int|
            0 <= i < events.len() ==> #[trigger] exec_run(conn_id, s, events).1[i]
                == ExecActionView::Wait,
        exec_run(conn_id, s, events).1.len() == events.len(),
        keys_sent(conn_id, exec_run(conn_id, s, events).1).len() == 0,
        shown(exec_run(conn_id, s, events).1).len() == 0,
        sizes_sent(conn_id, exec_run(conn_id, s, events).1).len() == 0,
    decreases events.len(),
{
    if events.len() > 0 {
        let rest = exec_run(conn_id, s, events.skip(1)).1;
        let actions = exec_run(conn_id, s, events).1;
        assert(actions =~= seq![ExecActionView::Wait] + rest);
        assert(actions.skip(1) =~= rest);
        nothing_follows_the_end(conn_id, s, events.skip(1));
        assert forall|i: int| 0 <= i < events.len() implies #[trigger] actions[i]
            == ExecActionView::Wait by {
            if i > 0 {
                assert(actions[i] == rest[i - 1]);
            }
        }
    }
}

/// No event ends the session.
pub open spec fn goes_on(events: Seq<ExecEventView>) -> bool {
    forall|i: int| 0 <= i < events.len() ==> !ends_session(#[trigger] events[i])
}

/// The user's input has ended.
pub open spec fn input_is_over(events: Seq<ExecEventView>) -> bool {
    exists|i: int|
        0 <= i < events.len() && (#[trigger] events[i] is InputEof || events[i] is InputFailed)
}

/// The exit code that the server has sent last.
pub open spec fn latest_exit(events: Seq<ExecEventView>) -> Option<i32>
    decreases events.len(),
{
    if events.len() == 0 {
        None
    } else {
        match events.last() {
            ExecEventView::Event(TunnelEventView::Exit(code)) => Some(code),
            _ => latest_exit(events.drop_last()),
        }
    }
}

proof fn run_one_more(conn_id: u32, s: ExecState, events: Seq<ExecEventView>, e: ExecEventView)
    ensures
        ({
            let (end, actions) = exec_run(conn_id, s, events);
            let (next, action) = exec_step(conn_id, end, e);
            exec_run(conn_id, s, events.push(e)) == (next, actions.push(action))
        }),
    decreases events.len(),
{
    let (end, actions) = exec_run(conn_id, s, events);
    let (next, action) = exec_step(conn_id, end, e);
    if events.len() == 0 {
        assert(events.push(e).skip(1) =~= events);
        assert(exec_run(conn_id, next, events) == (next, Seq::<ExecActionView>::empty()));
        assert(exec_run(conn_id, s, events.push(e)).1 =~= actions.push(action));
    } else {
        let (first, done) = exec_step(conn_id, s, events[0]);
        run_one_more(conn_id, first, events.skip(1), e);
        assert(events.push(e).skip(1) =~= events.skip(1).push(e));
        assert(events.push(e)[0] == events[0]);
        assert(exec_run(conn_id, s, events.push(e)).1 =~= actions.push(action));
    }
}

proof fn typed_one_more(events: Seq<ExecEventView>, e: ExecEventView)
    requires
        goes_on(events),
    ensures
        typed(events.push(e)) == typed(events) + (if input_is_over(events) {
            Seq::<u8>::empty()
        } else {
            match e {
                ExecEventView::Input(data) => data,
                _ => Seq::empty(),
            }
        }),
    decreases events.len(),
{
    let all = events.push(e);
    if events.len() == 0 {
        assert(all.skip(1) =~= events);
        assert(typed(all) =~= typed(events) + match e {
            ExecEventView::Input(data) => data,
            _ => Seq::empty(),
        });
    } else {
        let rest = events.skip(1);
        assert(all.skip(1) =~= rest.push(e));
        assert(all[0] == events[0]);
        assert(goes_on(rest)) by {
            assert forall|i: int| 0 <= i < rest.len() implies !ends_session(#[trigger] rest[i]) by {
                assert(rest[i] == events[i + 1]);
            }
        }
        typed_one_more(rest, e);
        if events[0] is InputEof || events[0] is InputFailed {
            assert(input_is_over(events));
            assert(typed(all) =~= typed(events) + Seq::<u8>::empty());
        } else {
            assert(input_is_over(events) <==> input_is_over(rest)) by {
                if input_is_over(events) {
                    let i = choose|i: int|
                        0 <= i < events.len() && (#[trigger] events[i] is InputEof
                            || events[i] is InputFailed);
                    assert(rest[i - 1] == events[i]);
                }
                if input_is_over(rest) {
                    let i = choose|i: int|
                        0 <= i < rest.len() && (#[trigger] rest[i] is InputEof
                            || rest[i] is InputFailed);
                    assert(events[i + 1] == rest[i]);
                }
            }
            assert(typed(all) =~= typed(events) + (if input_is_over(events) {
                Seq::<u8>::empty()
            } else {
                match e {
                    ExecEventView::Input(data) => data,
                    _ => Seq::empty(),
                }
            }));
        }
    }
}

/// What a session that goes on knows: it runs, the input is open until it ends, a line is
/// open exactly where the last key typed did not end it, and the exit code is the last that
/// the server sent.
pub proof fn a_session_knows_its_events(conn_id: u32, events: Seq<ExecEventView>)
    requires
        goes_on(events),
    ensures
        ({
            let end = exec_run(conn_id, exec_start(), events).0;
            let keys = typed(events);
            &&& !end.ended
            &&& end.input_open == !input_is_over(events)
            &&& end.at_line_start == (keys.len() == 0 || keys.last() == 10)
            &&& end.exit == latest_exit(events)
        }),
    decreases events.len(),
{
    if events.len() > 0 {
        let before = events.drop_last();
        let e = events.last();
        assert(before.push(e) =~= events);
        assert(goes_on(before)) by {
            assert forall|i: int| 0 <= i < before.len() implies !ends_session(
                #[trigger] before[i],
            ) by {
                assert(before[i] == events[i]);
            }
        }
        a_session_knows_its_events(conn_id, before);
        run_one_more(conn_id, exec_start(), before, e);
        typed_one_more(before, e);
        assert(!ends_session(events[events.len() - 1]));
        let over = e is InputEof || e is InputFailed;
        assert(input_is_over(events) <==> input_is_over(before) || over) by {
            if input_is_over(events) && !over {
                let i = choose|i: int|
                    0 <= i < events.len() && (#[trigger] events[i] is InputEof
                        || events[i] is InputFailed);
                assert(before[i] == events[i]);
            }
            if input_is_over(before) {
                let i = choose|i: int|
                    0 <= i < before.len() && (#[trigger] before[i] is InputEof
                        || before[i] is InputFailed);
                assert(events[i] == before[i]);
            }
            if over {
                assert(events[events.len() - 1] == e);
            }
        }
    }
}

/// How a session ends: with the exit code that the server sent last where the connection
/// ends, and never with success where there is none; with the server's own words where it
/// reports an error. What is queued is still sent where the connection ended in order.
pub proof fn a_session_ends_with_its_exit_code(
    conn_id: u32,
    events: Seq<ExecEventView>,
    last: ExecEventView,
)
    requires
        goes_on(events),
    ensures
        ({
            let action = exec_run(conn_id, exec_start(), events.push(last)).1.last();
            &&& action is End <==> ends_session(last)
            &&& last == ExecEventView::Event(TunnelEventView::Close) || last
                == ExecEventView::Dropped || last == ExecEventView::Written(false) ==> action == (
            ExecActionView::End {
                result: match latest_exit(events) {
                    Some(code) => ExecResultView::Code(code),
                    None => ExecResultView::NoExitStatus,
                },
                flush: true,
            })
            &&& last is Event && last->Event_0 is Error ==> action == (ExecActionView::End {
                result: ExecResultView::Remote(last->Event_0->Error_0),
                flush: false,
            })
            &&& last == ExecEventView::SenderClosed ==> action == (ExecActionView::End {
                result: ExecResultView::SenderClosed,
                flush: false,
            })
        }),
{
    a_session_knows_its_events(conn_id, events);
    run_one_more(conn_id, exec_start(), events, last);
}

/// Where the user's input ends, the remote terminal is told so once: by the end character,
/// after a line end where the last line that was typed is still open.
pub proof fn the_end_of_input_closes_the_line(conn_id: u32, events: Seq<ExecEventView>)
    requires
        goes_on(events),
    ensures
        ({
            let action = exec_run(
                conn_id,
                exec_start(),
                events.push(ExecEventView::InputEof),
            ).1.last();
            let keys = typed(events);
            if input_is_over(events) {
                action == ExecActionView::Wait
            } else if keys.len() == 0 || keys.last() == 10 {
                action == ExecActionView::Send(MessageView::Data { conn_id, data: seq![4u8] })
            } else {
                action == ExecActionView::Send(
                    MessageView::Data { conn_id, data: seq![10u8, 4u8] },
                )
            }
        }),
{
    a_session_knows_its_events(conn_id, events);
    run_one_more(conn_id, exec_start(), events, ExecEventView::InputEof);
}

/// The size of the terminal is the first of those at hand that has columns and rows, and
/// eighty columns by twenty-four rows where none has.
pub proof fn the_first_size_counts(sizes: Seq<(u16, u16)>)
    ensures
        ({
            let r = first_size(sizes);
            ||| exists|i: int|
                {
                    &&& 0 <= i < sizes.len()
                    &&& #[trigger] sizes[i] == r
                    &&& r.0 > 0 && r.1 > 0
                    &&& forall|j: int|
                        0 <= j < i ==> (#[trigger] sizes[j]).0 == 0 || sizes[j].1 == 0
                }
            ||| r == (80u16, 24u16) && forall|j: int|
                0 <= j < sizes.len() ==> (#[trigger] sizes[j]).0 == 0 || sizes[j].1 == 0
        }),
    decreases sizes.len(),
{
    if sizes.len() > 0 {
        if sizes[0].0 > 0 && sizes[0].1 > 0 {
            assert(sizes[0] == first_size(sizes));
        } else {
            let rest = sizes.skip(1);
            the_first_size_counts(rest);
            assert forall|j: int| 1 <= j < sizes.len() implies #[trigger] sizes[j] == rest[j
                - 1] by {}
            let r = first_size(sizes);
            if exists|i: int|
                {
                    &&& 0 <= i < rest.len()
                    &&& #[trigger] rest[i] == r
                    &&& r.0 > 0 && r.1 > 0
                    &&& forall|j: int| 0 <= j < i ==> (#[trigger] rest[j]).0 == 0 || rest[j].1 == 0
                } {
                let i = choose|i: int|
                    {
                        &&& 0 <= i < rest.len()
                        &&& #[trigger] rest[i] == r
                        &&& r.0 > 0 && r.1 > 0
                        &&& forall|j: int|
                            0 <= j < i ==> (#[trigger] rest[j]).0 == 0 || rest[j].1 == 0
                    };
                assert(sizes[i + 1] == r);
            }
        }
    }
}

/// What a command that failed is reported with.
pub proof fn exec_errors_speak(m: String)
    ensures
        ExecError::Remote(m).text() == "remote error: "@ + m@,
        ExecError::NoExitStatus.text()
            == "connection closed before the remote command reported an exit status"@,
        ExecError::SenderClosed.text() == "sender channel closed"@,
{
}

/// What is said of an event is what it holds, and what is said of an action is what it does.
pub proof fn sessions_say_what_happens(
    event: TunnelEvent,
    message: Message,
    text: String,
    data: Vec<u8>,
    a: u16,
    b: u16,
    ok: bool,
    code: i32,
)
    ensures
        ExecEvent::Input(data)@ == ExecEventView::Input(data@),
        ExecEvent::InputEof@ == ExecEventView::InputEof,
        ExecEvent::InputFailed@ == ExecEventView::InputFailed,
        ExecEvent::Event(event)@ == ExecEventView::Event(event@),
        ExecEvent::Dropped@ == ExecEventView::Dropped,
        ExecEvent::Written(ok)@ == ExecEventView::Written(ok),
        (ExecEvent::Resized { cols: a, rows: b })@ == (ExecEventView::Resized { cols: a, rows: b }),
        ExecEvent::SenderClosed@ == ExecEventView::SenderClosed,
        ExecAction::Wait@ == ExecActionView::Wait,
        ExecAction::Send(message)@ == ExecActionView::Send(message@),
        ExecAction::SendInput(message)@ == ExecActionView::SendInput(message@),
        ExecAction::Write(data)@ == ExecActionView::Write(data@),
        (ExecAction::End { result: Ok(code), flush: ok })@ == (ExecActionView::End {
            result: ExecResultView::Code(code),
            flush: ok,
        }),
        (ExecAction::End { result: Err(ExecError::Remote(text)), flush: ok })@ == (
        ExecActionView::End { result: ExecResultView::Remote(text@), flush: ok }),
        (ExecAction::End { result: Err(ExecError::NoExitStatus), flush: ok })@ == (
        ExecActionView::End { result: ExecResultView::NoExitStatus, flush: ok }),
        (ExecAction::End { result: Err(ExecError::SenderClosed), flush: ok })@ == (
        ExecActionView::End { result: ExecResultView::SenderClosed, flush: ok }),
{
}

/// A session starts out on an empty line, with its input open and nothing known of its end.
pub proof fn sessions_start_out_open()
    ensures
        exec_start().input_open && exec_start().at_line_start,
        !exec_start().ended && exec_start().exit is None,
{
}

} // verus!
