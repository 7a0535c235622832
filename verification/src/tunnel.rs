//! The client's side of the tunnel: the connections that it carries, what to do with
//! what the server sends, and when to connect again.

use crate::crypto::Crypto;
use crate::delivery::DISPATCH_STALL_MS;
use crate::envelope;
use crate::envelope::EnvelopeError;
use crate::protocol::{Message, MessageView};
use crate::server;
use crate::session;
use crate::text;
use crate::uri;
use crate::uri::{Uri, UriView};
use std::collections::HashMap;
use vstd::prelude::*;

verus! {

broadcast use {vstd::seq::group_seq_axioms, vstd::std_specs::hash::group_hash_axioms};

/// Seconds that opening the stream may take.
pub const SSE_CONNECT_TIMEOUT_SECS: u64 = 15;

/// Seconds without a byte after which the stream is opened anew.
pub const SSE_READ_TIMEOUT_SECS: u64 = 30;

/// Seconds that a message which failed waits for the stream to be open again.
pub const RECONNECT_WAIT_SECS: u64 = 20;

/// Seconds before the stream is opened again after the server ended it.
pub const STREAM_END_PAUSE_SECS: u64 = 1;

/// Events that one connection may fall behind.
pub const CONN_CHANNEL_CAPACITY: usize = 256;

/// How long the end of a stalled connection may wait for its consumer, in
/// milliseconds. Nothing else waits for it.
pub const CLOSE_HANDOFF_MS: u64 = 60000;

/// The wait for the stream covers the time that opening it may take, and a stalled
/// connection gets more time for its end than it may hold up the others.
pub proof fn timeouts_fit_together()
    ensures
        RECONNECT_WAIT_SECS > SSE_CONNECT_TIMEOUT_SECS,
        SSE_READ_TIMEOUT_SECS == 2 * crate::sse::KEEPALIVE_SECS,
        CLOSE_HANDOFF_MS > DISPATCH_STALL_MS,
{
}

/// An event for one connection, as it comes out of the tunnel.
#[derive(Debug)]
pub enum TunnelEvent {
    Data(Vec<u8>),
    Close,
    Error(String),
    /// The remote command ended with this code.
    Exit(i32),
}

/// What an event says.
#[verifier::ext_equal]
pub enum TunnelEventView {
    Data(Seq<u8>),
    Close,
    Error(Seq<char>),
    Exit(i32),
}

impl View for TunnelEvent {
    type V = TunnelEventView;

    open spec fn view(&self) -> TunnelEventView {
        match *self {
            TunnelEvent::Data(data) => TunnelEventView::Data(data@),
            TunnelEvent::Close => TunnelEventView::Close,
            TunnelEvent::Error(m) => TunnelEventView::Error(m@),
            TunnelEvent::Exit(code) => TunnelEventView::Exit(code),
        }
    }
}

// The session id.

/// A number from `rand::random`. Nothing is known of it.
#[verifier::external_body]
fn random_u64() -> (r: u64) {
    rand::random::<u64>()
}

/// The id of a session: a number in sixteen hexadecimal digits.
pub fn session_id_of(n: u64) -> (r: String)
    ensures
        r@ == text::hex(n as nat, 16),
{
    text::hex_of(n, 16)
}

/// An id for a new session.
pub fn new_session_id() -> (r: String)
    ensures
        exists|n: u64| r@ == #[trigger] text::hex(n as nat, 16),
{
    session_id_of(random_u64())
}

proof fn hex_digits(n: nat, width: nat)
    ensures
        text::hex(n, width).len() == width,
        !text::hex(n, width).contains('/'),
    decreases width,
{
    if width > 0 {
        hex_digits(n / 16, (width - 1) as nat);
        let s = text::hex(n / 16, (width - 1) as nat);
        let d = text::digit(n % 16);
        assert(d != '/');
        assert forall|i: int| 0 <= i < s.push(d).len() implies s.push(d)[i] != '/' by {
            if i < s.len() {
                assert(s.contains(s[i]));
            }
        }
    }
}

// Addresses.

/// An address below the server's: its text without slashes at the end, the route, and
/// the session id.
pub open spec fn endpoint_text(base: UriView, route: Seq<char>, id: Seq<char>) -> Seq<char> {
    uri::without_trailing_slashes(uri::uri_text(base)) + route + id
}

fn endpoint(base: &Uri, route: &str, id: &str) -> (r: String)
    ensures
        r@ == endpoint_text(base@, route@, id@),
{
    let chars = text::chars_of(base.to_text().as_str());
    let mut to: usize = chars.len();
    assert(chars@.take(to as int) =~= chars@);
    while to > 0 && chars[to - 1] == '/'
        invariant
            to <= chars@.len(),
            uri::without_trailing_slashes(chars@.take(to as int)) == uri::without_trailing_slashes(
                chars@,
            ),
        decreases to,
    {
        assert(chars@.take(to as int).drop_last() =~= chars@.take(to - 1));
        to -= 1;
    }
    let mut out = text::string_of(vstd::slice::slice_subrange(chars.as_slice(), 0, to));
    assert(out@ =~= chars@.take(to as int));
    out.append(route);
    out.append(id);
    out
}

/// Where the stream of a session is opened.
pub fn stream_url(base: &Uri, session_id: &str) -> (r: String)
    ensures
        r@ == endpoint_text(base@, "/stream/"@, session_id@),
{
    endpoint(base, "/stream/", session_id)
}

/// Where messages of a session are handed in.
pub fn send_url(base: &Uri, session_id: &str) -> (r: String)
    ensures
        r@ == endpoint_text(base@, "/send/"@, session_id@),
{
    endpoint(base, "/send/", session_id)
}

/// Where the server is probed.
pub fn health_url(base: &Uri) -> (r: String)
    ensures
        r@ == endpoint_text(base@, "/health"@, Seq::empty()),
{
    let r = endpoint(base, "/health", "");
    proof {
        reveal_strlit("");
        assert(""@ =~= Seq::<char>::empty());
    }
    r
}

/// The path of the address, as the server's prefix: empty for the root.
pub open spec fn base_prefix(base: UriView) -> Seq<char> {
    if base.path == "/"@ {
        Seq::empty()
    } else {
        base.path
    }
}

/// A server address as it comes out of the configuration: normalized, and with an authority
/// that holds no slash.
pub open spec fn is_base(base: UriView) -> bool {
    &&& crate::config::is_server_url(base)
    &&& uri::trimmed_path(base.path) == base.path
    &&& !base.authority->0.contains('/')
}

/// An address below the server's differs from it in nothing but the path.
proof fn endpoint_path(base: UriView, route: Seq<char>, id: Seq<char>)
    requires
        is_base(base),
    ensures
        endpoint_text(base, route, id) == uri::uri_text(
            UriView { path: base_prefix(base) + route + id, ..base },
        ),
{
    reveal_strlit("/");
    reveal_strlit(":");
    reveal_strlit("//");
    reveal_with_fuel(uri::without_trailing_slashes, 2);
    let front = base.scheme->0 + ":"@ + ("//"@ + base.authority->0);
    let text = uri::uri_text(base);
    assert(text =~= front + base.path);
    text::last_index_is_last(base.authority->0, '@');
    assert(base.authority->0.contains(base.authority->0.last()));
    assert(front.last() == base.authority->0.last());
    uri::trimmed_path_end(base.path);
    if base.path == "/"@ {
        assert(text.drop_last() =~= front);
        assert(text.last() == '/');
    } else if base.path.len() == 0 {
        assert(text =~= front);
    } else {
        assert(text.last() == base.path.last());
    }
    assert(uri::without_trailing_slashes(text) =~= front + base_prefix(base));
    assert(endpoint_text(base, route, id) =~= uri::uri_text(
        UriView { path: base_prefix(base) + route + id, ..base },
    ));
}

/// Client and server meet: the client's addresses differ from the server's in nothing
/// but the path, and a server with the path of that address as its prefix takes them
/// for the stream and the sink of the session.
pub proof fn client_and_server_meet(base: UriView, n: u64)
    requires
        is_base(base),
    ensures
        ({
            let id = text::hex(n as nat, 16);
            let prefix = base_prefix(base);
            let stream = prefix + "/stream/"@ + id;
            let send = prefix + "/send/"@ + id;
            &&& endpoint_text(base, "/stream/"@, id) == uri::uri_text(
                UriView { path: stream, ..base },
            )
            &&& endpoint_text(base, "/send/"@, id) == uri::uri_text(UriView { path: send, ..base })
            &&& server::routed(prefix, server::Method::Get, stream) == server::RouteView::Stream(id)
            &&& server::routed(prefix, server::Method::Post, send) == server::RouteView::Send(id)
        }),
{
    hex_digits(n as nat, 16);
    server::session_routes(base_prefix(base), text::hex(n as nat, 16));
    endpoint_path(base, "/stream/"@, text::hex(n as nat, 16));
    endpoint_path(base, "/send/"@, text::hex(n as nat, 16));
}

// The health check.

/// The server's answer to a probe is the expected one, white space around it aside.
pub fn health_matches(body: &str, expected: &str) -> (r: bool)
    ensures
        r == (text::trimmed(body@) == text::trimmed(expected@)),
{
    let b = text::chars_of(body);
    let e = text::chars_of(expected);
    text::same(text::trim(b.as_slice()), text::trim(e.as_slice()))
}

/// A server that is configured to answer what the client expects passes its check: the
/// line end that the server adds does not matter.
pub proof fn health_check_passes(expected: Seq<char>)
    ensures
        text::trimmed(expected + "\n"@) == text::trimmed(expected),
{
    reveal_strlit("\n");
    text::trimmed_with_white_end(expected, '\n');
    assert(expected + "\n"@ =~= expected.push('\n'));
}

// Connections.

/// The connections of a client, by their ids. `T` takes events for a connection.
pub struct Tunnel<T> {
    session_id: String,
    response_channels: HashMap<u32, T>,
}

/// What a tunnel holds.
#[verifier::ext_equal]
pub struct TunnelView<T> {
    pub session_id: Seq<char>,
    pub channels: Map<u32, T>,
}

impl<T> View for Tunnel<T> {
    type V = TunnelView<T>;

    closed spec fn view(&self) -> TunnelView<T> {
        TunnelView { session_id: self.session_id@, channels: self.response_channels@ }
    }
}

/// What to do with a message from the server.
#[derive(Debug)]
pub enum Dispatch {
    /// Hand the event to the connection.
    Deliver { conn_id: u32, event: TunnelEvent },
    /// All connections were dropped, so many of them.
    Reset { dropped: usize },
    Nothing,
}

/// What to do with a message, with its contents.
#[verifier::ext_equal]
pub enum DispatchView {
    Deliver { conn_id: u32, event: TunnelEventView },
    Reset { dropped: nat },
    Nothing,
}

impl View for Dispatch {
    type V = DispatchView;

    open spec fn view(&self) -> DispatchView {
        match *self {
            Dispatch::Deliver { conn_id, event } => DispatchView::Deliver {
                conn_id,
                event: event@,
            },
            Dispatch::Reset { dropped } => DispatchView::Reset { dropped: dropped as nat },
            Dispatch::Nothing => DispatchView::Nothing,
        }
    }
}

/// What a message from the server does to the tunnel, and what is to be done with it.
/// Bytes, ends, errors and exit codes go to their connection; `Reset` drops all
/// connections, for the server knows none of them any more.
pub open spec fn dispatched<T>(t: TunnelView<T>, m: MessageView) -> (TunnelView<T>, DispatchView) {
    match m {
        MessageView::Data { conn_id, data } => (
            t,
            DispatchView::Deliver { conn_id, event: TunnelEventView::Data(data) },
        ),
        MessageView::Close { conn_id } => (
            t,
            DispatchView::Deliver { conn_id, event: TunnelEventView::Close },
        ),
        MessageView::Error { conn_id: Some(conn_id), message } => (
            t,
            DispatchView::Deliver { conn_id, event: TunnelEventView::Error(message) },
        ),
        MessageView::ExitStatus { conn_id, code } => (
            t,
            DispatchView::Deliver { conn_id, event: TunnelEventView::Exit(code) },
        ),
        MessageView::Reset => (
            TunnelView { channels: Map::empty(), ..t },
            DispatchView::Reset { dropped: t.channels.len() },
        ),
        _ => (t, DispatchView::Nothing),
    }
}

impl<T> Tunnel<T> {
    /// A tunnel without connections.
    pub fn new(session_id: String) -> (r: Self)
        ensures
            r@ == (TunnelView { session_id: session_id@, channels: Map::<u32, T>::empty() }),
    {
        Tunnel { session_id, response_channels: HashMap::new() }
    }

    /// The id of the session.
    pub fn session_id(&self) -> (r: &str)
        ensures
            r@ == self@.session_id,
    {
        self.session_id.as_str()
    }

    /// Adds a connection.
    pub fn register_connection(&mut self, conn_id: u32, channel: T)
        ensures
            final(self)@ == (TunnelView {
                channels: old(self)@.channels.insert(conn_id, channel),
                ..old(self)@
            }),
    {
        let _ = self.response_channels.insert(conn_id, channel);
    }

    /// Drops a connection.
    pub fn unregister_connection(&mut self, conn_id: u32)
        ensures
            final(self)@ == (TunnelView {
                channels: old(self)@.channels.remove(conn_id),
                ..old(self)@
            }),
    {
        let _ = self.response_channels.remove(&conn_id);
    }

    /// What takes the events of a connection.
    pub fn channel(&self, conn_id: u32) -> (r: Option<&T>)
        ensures
            match r {
                Some(t) => session::at(self@.channels, conn_id) == Some(*t),
                None => session::at(self@.channels, conn_id) is None,
            },
    {
        self.response_channels.get(&conn_id)
    }

    /// How many connections there are.
    pub fn connections(&self) -> (r: usize)
        ensures
            r == self@.channels.len(),
    {
        self.response_channels.len()
    }

    /// Starts a new session: all connections are dropped.
    pub fn rotate(&mut self, session_id: String)
        ensures
            final(self)@ == (TunnelView {
                session_id: session_id@,
                channels: Map::<u32, T>::empty(),
            }),
    {
        self.session_id = session_id;
        self.response_channels.clear();
    }

    /// Takes a message from the server.
    pub fn on_message(&mut self, message: Message) -> (r: Dispatch)
        ensures
            (final(self)@, r@) == dispatched(old(self)@, message@),
    {
        match message {
            Message::Data { conn_id, data } => Dispatch::Deliver {
                conn_id,
                event: TunnelEvent::Data(data),
            },
            Message::Close { conn_id } => Dispatch::Deliver { conn_id, event: TunnelEvent::Close },
            Message::Error { conn_id, message } => match conn_id {
                Some(conn_id) => Dispatch::Deliver {
                    conn_id,
                    event: TunnelEvent::Error(message),
                },
                None => Dispatch::Nothing,
            },
            Message::ExitStatus { conn_id, code } => Dispatch::Deliver {
                conn_id,
                event: TunnelEvent::Exit(code),
            },
            Message::Reset => {
                let dropped: usize = self.response_channels.len();
                self.response_channels.clear();
                Dispatch::Reset { dropped }
            },
            _ => Dispatch::Nothing,
        }
    }

    /// Takes the data of an event of the stream. What cannot be opened, or is no
    /// message, is dropped.
    pub fn handle_sse_message(&mut self, crypto: &Crypto, encrypted: &[u8]) -> (r: Result<
        Dispatch,
        EnvelopeError,
    >)
        ensures
            match r {
                Ok(d) => exists|m: MessageView|
                    #[trigger] envelope::holds(crypto.key(), encrypted@, m) && (
                        final(self)@,
                        d@,
                    ) == dispatched(old(self)@, m),
                Err(e) => {
                    &&& final(self)@ == old(self)@
                    &&& forall|m: MessageView|
                        !#[trigger] envelope::holds(crypto.key(), encrypted@, m)
                    &&& e == EnvelopeError::Undecryptable <==> crate::crypto::opened(
                        crypto.key(),
                        encrypted@,
                    ) is None
                },
            },
    {
        match envelope::open(crypto, encrypted) {
            Ok(m) => {
                let d = self.on_message(m);
                assert(envelope::holds(crypto.key(), encrypted@, m@));
                Ok(d)
            },
            Err(e) => Err(e),
        }
    }
}

/// What the server sends for a connection is handed to it, and to no other: data, the end,
/// an error and an exit code go to the connection that they name, everything else to none.
/// And only `Reset` changes which connections there are.
pub proof fn messages_reach_their_connection<T>(
    t: TunnelView<T>,
    m: MessageView,
    conn_id: u32,
    event: TunnelEventView,
)
    ensures
        ({
            let (after, d) = dispatched(t, m);
            &&& after.session_id == t.session_id
            &&& m != MessageView::Reset ==> after == t
            &&& m == MessageView::Reset ==> after.channels == Map::<u32, T>::empty()
            &&& d == (DispatchView::Deliver { conn_id, event }) <==> m == match event {
                TunnelEventView::Data(data) => MessageView::Data { conn_id, data },
                TunnelEventView::Close => MessageView::Close { conn_id },
                TunnelEventView::Error(message) => MessageView::Error {
                    conn_id: Some(conn_id),
                    message,
                },
                TunnelEventView::Exit(code) => MessageView::ExitStatus { conn_id, code },
            }
        }),
{
}

// Handing an event to its connection.

/// The outcome of waiting for room in the queue of a connection.
#[derive(Debug, Clone, Copy, PartialEq, Eq, Structural)]
pub enum Reserve {
    Ready,
    /// The connection is gone.
    Gone,
    /// There was no room for `DISPATCH_STALL_MS`.
    Stalled,
}

/// What to do with the event.
#[derive(Debug, Clone, Copy, PartialEq, Eq, Structural)]
pub enum DispatchStep {
    Send,
    Ignore,
    /// Let it wait for up to `CLOSE_HANDOFF_MS` on its own, and tell `handed_off` whether
    /// that was in vain.
    HandOff,
    /// Let it go: the connection was dropped.
    Drop,
}

/// What to do with an event, by what came of waiting for room for it.
///
/// A connection that stalls is dropped, so that it does not hold up the others; but
/// `Close` is handed off, for everything before it is in the queue already, and
/// dropping the connection would destroy a complete response.
pub open spec fn dispatch_step(event: TunnelEventView, reserve: Reserve) -> DispatchStep {
    match reserve {
        Reserve::Ready => DispatchStep::Send,
        Reserve::Gone => DispatchStep::Ignore,
        Reserve::Stalled => if event == TunnelEventView::Close {
            DispatchStep::HandOff
        } else {
            DispatchStep::Drop
        },
    }
}

impl<T> Tunnel<T> {
    /// Decides what to do with an event for a connection. A connection that is to be
    /// dropped is gone with that, and nothing else changes.
    pub fn dispatch_event(&mut self, conn_id: u32, event: &TunnelEvent, reserve: Reserve) -> (r:
        DispatchStep)
        ensures
            r == dispatch_step(event@, reserve),
            final(self)@ == (if r == DispatchStep::Drop {
                TunnelView { channels: old(self)@.channels.remove(conn_id), ..old(self)@ }
            } else {
                old(self)@
            }),
    {
        match reserve {
            Reserve::Ready => DispatchStep::Send,
            Reserve::Gone => DispatchStep::Ignore,
            Reserve::Stalled => match event {
                TunnelEvent::Close => DispatchStep::HandOff,
                _ => {
                    self.unregister_connection(conn_id);
                    DispatchStep::Drop
                },
            },
        }
    }

    /// Takes what came of an event that was handed off: the connection is dropped where
    /// there was no room for it in time, and stays otherwise.
    pub fn handed_off(&mut self, conn_id: u32, in_time: bool)
        ensures
            final(self)@ == (if in_time {
                old(self)@
            } else {
                TunnelView { channels: old(self)@.channels.remove(conn_id), ..old(self)@ }
            }),
    {
        if !in_time {
            self.unregister_connection(conn_id);
        }
    }
}

/// Whatever becomes of an event, no connection is lost but its own, and that only where it
/// stalled.
pub proof fn a_stall_costs_one_connection<T>(
    t: TunnelView<T>,
    conn_id: u32,
    event: TunnelEventView,
    reserve: Reserve,
    other: u32,
)
    ensures
        ({
            let after = if dispatch_step(event, reserve) == DispatchStep::Drop {
                t.channels.remove(conn_id)
            } else {
                t.channels
            };
            &&& other != conn_id ==> session::at(after, other) == session::at(t.channels, other)
            &&& reserve != Reserve::Stalled || event == TunnelEventView::Close ==> after
                == t.channels
            &&& reserve == Reserve::Stalled && event != TunnelEventView::Close ==> session::at(
                after,
                conn_id,
            ) is None
        }),
{
}

// One attempt at the stream.

/// What is known of an open stream.
#[derive(Debug)]
pub struct StreamAttempt {
    is_reconnect: bool,
    signaled: bool,
    got_data: bool,
}

/// The position of the event that makes a stream ready: on the first attempt the first
/// that carries a message, for that is the server's `Reset` for a new session; on a
/// later one the first of all, for there is no `Reset` to wait for.
pub open spec fn ready_at(is_reconnect: bool, carried: Seq<bool>) -> Option<int>
    decreases carried.len(),
{
    if carried.len() == 0 {
        None
    } else {
        match ready_at(is_reconnect, carried.drop_last()) {
            Some(i) => Some(i),
            None => if is_reconnect || carried.last() {
                Some(carried.len() - 1)
            } else {
                None
            },
        }
    }
}

impl StreamAttempt {
    /// The stream was open before.
    pub closed spec fn is_reconnect(&self) -> bool {
        self.is_reconnect
    }

    /// The stream is ready.
    pub closed spec fn signaled(&self) -> bool {
        self.signaled
    }

    /// Something has arrived.
    pub closed spec fn got_data(&self) -> bool {
        self.got_data
    }

    /// This is where the events that have arrived so far lead: whether each carried a
    /// message.
    pub open spec fn has_seen(&self, carried: Seq<bool>) -> bool {
        &&& self.signaled() == (ready_at(self.is_reconnect(), carried) is Some)
        &&& self.got_data() == (carried.len() > 0)
    }

    pub fn new(is_reconnect: bool) -> (r: Self)
        ensures
            r.is_reconnect() == is_reconnect,
            r.has_seen(Seq::empty()),
    {
        StreamAttempt { is_reconnect, signaled: false, got_data: false }
    }

    /// Takes an event, and whether it carried a message. Says whether those who wait for
    /// the stream are to be told now.
    pub fn on_event(&mut self, had_data: bool) -> (r: bool)
        ensures
            final(self).is_reconnect() == old(self).is_reconnect(),
            forall|carried: Seq<bool>| #[trigger]
                old(self).has_seen(carried) ==> {
                    &&& final(self).has_seen(carried.push(had_data))
                    &&& r == (ready_at(old(self).is_reconnect(), carried.push(had_data)) == Some(
                        carried.len() as int,
                    ))
                },
            final(self).got_data(),
    {
        proof {
            assert forall|carried: Seq<bool>| #[trigger] old(self).has_seen(carried) implies ready_at(
                old(self).is_reconnect(),
                carried.push(had_data),
            ) == (match ready_at(old(self).is_reconnect(), carried) {
                Some(i) => Some(i),
                None => if old(self).is_reconnect() || had_data {
                    Some(carried.len() as int)
                } else {
                    None
                },
            }) && (ready_at(old(self).is_reconnect(), carried) is Some ==> ready_at(
                old(self).is_reconnect(),
                carried,
            )->0 < carried.len()) by {
                assert(carried.push(had_data).drop_last() =~= carried);
                ready_at_bounds(old(self).is_reconnect(), carried);
            }
        }
        self.got_data = true;
        if !self.signaled && (had_data || self.is_reconnect) {
            self.signaled = true;
            true
        } else {
            false
        }
    }

    /// Whether something has arrived.
    pub fn has_data(&self) -> (r: bool)
        ensures
            r == self.got_data(),
    {
        self.got_data
    }
}

proof fn ready_at_bounds(is_reconnect: bool, carried: Seq<bool>)
    ensures
        ready_at(is_reconnect, carried) is Some ==> 0 <= ready_at(is_reconnect, carried)->0
            < carried.len(),
    decreases carried.len(),
{
    if carried.len() > 0 {
        ready_at_bounds(is_reconnect, carried.drop_last());
    }
}

/// A client that connects for the first time is not ready before a message has arrived:
/// a keep-alive comment that comes first does not count.
pub proof fn comments_do_not_make_ready(carried: Seq<bool>)
    requires
        forall|i: int| 0 <= i < carried.len() ==> !#[trigger] carried[i],
    ensures
        ready_at(false, carried) is None,
    decreases carried.len(),
{
    if carried.len() > 0 {
        assert forall|i: int| 0 <= i < carried.drop_last().len() implies !#[trigger] carried.drop_last()[i] by {
            assert(!carried[i]);
        }
        comments_do_not_make_ready(carried.drop_last());
        assert(!carried[carried.len() - 1]);
    }
}

/// A stream that was opened for a session that has since been replaced is of no use:
/// the session ids tell.
pub fn session_replaced(opened_for: &str, current: &str) -> (r: bool)
    ensures
        r == (opened_for@ != current@),
{
    !text::same_str(opened_for, current)
}

// Connecting again.

/// How an attempt at the stream ended.
#[derive(Debug, Clone, Copy, PartialEq, Eq, Structural)]
pub enum AttemptEnd {
    /// The client wants another stream.
    Forced,
    /// It could not be opened, or broke.
    Failed,
    /// The server ended it, or fell silent.
    Ended,
}

/// What to do next.
#[derive(Debug, Clone, Copy, PartialEq, Eq, Structural)]
pub enum ReconnectStep {
    /// Connect again at once.
    Now,
    /// Connect again after so many seconds.
    After(u64),
    /// Give up, after so many attempts in a row that got no data.
    GiveUp(u32),
}

/// When to connect again.
#[derive(Debug)]
pub struct Reconnect {
    interval: u64,
    max_attempts: Option<u32>,
    failures: u32,
}

/// How many of the latest attempts got no data, without a break.
pub open spec fn failed_run(got_data: Seq<bool>) -> nat
    decreases got_data.len(),
{
    if got_data.len() == 0 || got_data.last() {
        0
    } else {
        failed_run(got_data.drop_last()) + 1
    }
}

/// What follows an attempt, where so many in a row have got no data.
pub open spec fn reconnect_step(
    interval: u64,
    max_attempts: Option<u32>,
    failures: u32,
    end: AttemptEnd,
    got_data: bool,
) -> ReconnectStep {
    if !got_data && max_attempts is Some && failures >= max_attempts->0 {
        ReconnectStep::GiveUp(failures)
    } else {
        match end {
            AttemptEnd::Forced => ReconnectStep::Now,
            AttemptEnd::Failed => ReconnectStep::After(interval),
            AttemptEnd::Ended => ReconnectStep::After(STREAM_END_PAUSE_SECS),
        }
    }
}

impl Reconnect {
    /// Seconds between attempts.
    pub closed spec fn interval(&self) -> u64 {
        self.interval
    }

    /// The number of failed attempts in a row after which to give up.
    pub closed spec fn max_attempts(&self) -> Option<u32> {
        self.max_attempts
    }

    /// Failed attempts in a row.
    pub closed spec fn failures(&self) -> u32 {
        self.failures
    }

    pub fn new(interval: u64, max_attempts: Option<u32>) -> (r: Self)
        ensures
            r.interval() == interval,
            r.max_attempts() == max_attempts,
            r.failures() == failed_run(Seq::empty()),
    {
        Reconnect { interval, max_attempts, failures: 0 }
    }

    /// Takes the end of an attempt, and whether it got any data. Data starts the count
    /// of failures anew; beyond `u32::MAX` they are no longer counted.
    pub fn attempt_ended(&mut self, end: AttemptEnd, got_data: bool) -> (r: ReconnectStep)
        ensures
            final(self).interval() == old(self).interval(),
            final(self).max_attempts() == old(self).max_attempts(),
            forall|past: Seq<bool>|
                old(self).failures() == #[trigger] failed_run(past) && old(self).failures()
                    < u32::MAX ==> final(self).failures() == failed_run(past.push(got_data)),
            got_data ==> final(self).failures() == 0,
            r == reconnect_step(
                old(self).interval(),
                old(self).max_attempts(),
                final(self).failures(),
                end,
                got_data,
            ),
            r == (match final(self).max_attempts() {
                Some(max) if !got_data && final(self).failures() >= max => ReconnectStep::GiveUp(
                    final(self).failures(),
                ),
                _ => match end {
                    AttemptEnd::Forced => ReconnectStep::Now,
                    AttemptEnd::Failed => ReconnectStep::After(final(self).interval()),
                    AttemptEnd::Ended => ReconnectStep::After(STREAM_END_PAUSE_SECS),
                },
            }),
    {
        proof {
            assert forall|past: Seq<bool>| old(self).failures() == #[trigger] failed_run(
                past,
            ) implies failed_run(past.push(got_data)) == if got_data {
                0
            } else {
                failed_run(past) + 1
            } by {
                assert(past.push(got_data).drop_last() =~= past);
            }
        }
        if got_data {
            self.failures = 0;
        } else if self.failures < u32::MAX {
            self.failures = self.failures + 1;
        }
        if let Some(max) = self.max_attempts {
            if !got_data && self.failures >= max {
                return ReconnectStep::GiveUp(self.failures);
            }
        }
        match end {
            AttemptEnd::Forced => ReconnectStep::Now,
            AttemptEnd::Failed => ReconnectStep::After(self.interval),
            AttemptEnd::Ended => ReconnectStep::After(STREAM_END_PAUSE_SECS),
        }
    }
}

/// What the client says when it gives up: how many attempts failed.
pub fn give_up_message(failures: u32) -> (r: String)
    ensures
        r@ == "giving up after "@ + text::decimal(failures as nat)
            + " consecutive attempt(s) without data"@,
{
    String::from_str("giving up after ").concat(text::decimal_of(failures as u64).as_str()).concat(
        " consecutive attempt(s) without data",
    )
}

/// An attempt that gets data starts the count anew, however many failed before it: only
/// an unbroken run of failures counts.
pub proof fn data_resets_the_budget(past: Seq<bool>, since: Seq<bool>)
    ensures
        failed_run(past.push(true) + since) <= since.len(),
    decreases since.len(),
{
    let all = past.push(true) + since;
    if since.len() == 0 {
        assert(all =~= past.push(true));
    } else {
        data_resets_the_budget(past, since.drop_last());
        assert(all.drop_last() =~= past.push(true) + since.drop_last());
    }
}

/// Attempts without data add up, one by one.
pub proof fn failures_add_up(past: Seq<bool>, n: nat)
    ensures
        failed_run(past + Seq::new(n, |i: int| false)) == failed_run(past) + n,
    decreases n,
{
    let all = past + Seq::new(n, |i: int| false);
    if n == 0 {
        assert(all =~= past);
    } else {
        failures_add_up(past, (n - 1) as nat);
        assert(all.drop_last() =~= past + Seq::new((n - 1) as nat, |i: int| false));
    }
}

// Handing in a message.

/// What to do after handing in a message.
#[derive(Debug, Clone, Copy, PartialEq, Eq, Structural)]
pub enum PostStep {
    Done,
    /// Have the stream opened again, wait for it for up to `RECONNECT_WAIT_SECS`, and
    /// hand the message in once more, under the session id as it is then.
    ReconnectAndRetry,
    Fail,
}

/// What follows an attempt to hand in a message.
pub open spec fn post_step(retried: bool, taken: bool) -> PostStep {
    match (taken, retried) {
        (true, _) => PostStep::Done,
        (false, false) => PostStep::ReconnectAndRetry,
        (false, true) => PostStep::Fail,
    }
}

/// A message that could not be handed in is handed in once more.
pub fn after_post(retried: bool, taken: bool) -> (r: PostStep)
    ensures
        r == post_step(retried, taken),
        taken ==> r == PostStep::Done,
        !taken && !retried ==> r == PostStep::ReconnectAndRetry,
        !taken && retried ==> r == PostStep::Fail,
{
    if taken {
        PostStep::Done
    } else if retried {
        PostStep::Fail
    } else {
        PostStep::ReconnectAndRetry
    }
}

/// What a response to a message holds.
pub open spec fn reply_of(status: u16, body: Seq<u8>) -> Result<Option<Seq<u8>>, Seq<u8>> {
    if status / 100 != 2 {
        Err(body)
    } else if body.len() == 0 {
        Ok(None)
    } else {
        Ok(Some(body))
    }
}

/// What the server's response to a message holds: a body, if it is not empty. A status
/// other than success is an error, with the body.
pub fn post_result(status: u16, body: Vec<u8>) -> (r: Result<Option<Vec<u8>>, Vec<u8>>)
    ensures
        reply_of(status, body@) == (match r {
            Ok(None) => Ok::<Option<Seq<u8>>, Seq<u8>>(None),
            Ok(Some(b)) => Ok(Some(b@)),
            Err(b) => Err(b@),
        }),
        match r {
            Ok(None) => 200 <= status < 300 && body@.len() == 0,
            Ok(Some(b)) => 200 <= status < 300 && b@ == body@ && body@.len() > 0,
            Err(b) => !(200 <= status < 300) && b@ == body@,
        },
{
    if !(200 <= status && status < 300) {
        return Err(body);
    }
    if body.len() == 0 {
        Ok(None)
    } else {
        Ok(Some(body))
    }
}

/// The message in the server's response, if there is one.
pub fn read_reply(crypto: &Crypto, reply: Option<Vec<u8>>) -> (r: Result<
    Option<Message>,
    EnvelopeError,
>)
    ensures
        match reply {
            Some(data) if data@.len() > 0 => match r {
                Ok(Some(m)) => envelope::holds(crypto.key(), data@, m@),
                Ok(None) => false,
                Err(e) => {
                    &&& forall|m: MessageView|
                        !#[trigger] envelope::holds(crypto.key(), data@, m)
                    &&& e == EnvelopeError::Undecryptable <==> crate::crypto::opened(
                        crypto.key(),
                        data@,
                    ) is None
                },
            },
            _ => r is Ok && r->Ok_0 is None,
        },
{
    match reply {
        Some(data) => if data.len() > 0 {
            match envelope::open(crypto, data.as_slice()) {
                Ok(m) => Ok(Some(m)),
                Err(e) => Err(e),
            }
        } else {
            Ok(None)
        },
        None => Ok(None),
    }
}

/// What came of a request for a connection.
#[derive(Debug)]
pub enum Answer {
    /// The connection is open.
    Established,
    /// The server could not open it, for this reason.
    Refused(String),
    /// The server sent something else.
    Unexpected,
    /// The server sent nothing.
    Empty,
    /// The request failed, or its reply could not be read, for this reason.
    Failed(String),
}

/// The message says that a request was granted.
pub open spec fn is_ack(m: MessageView) -> bool {
    m matches MessageView::Data { data, .. } && data.len() == 0
}

/// Reads the reply to a request for a connection: no data for success, or an error.
pub fn answer_of(reply: Result<Option<Message>, String>) -> (r: Answer)
    ensures
        r is Established <==> (reply matches Ok(Some(m)) && is_ack(m@)),
        r is Refused <==> (reply matches Ok(Some(m)) && m@ is Error),
        match (reply, r) {
            (Ok(Some(Message::Data { data, .. })), Answer::Established) => data@.len() == 0,
            (Ok(Some(Message::Data { data, .. })), Answer::Unexpected) => data@.len() > 0,
            (Ok(Some(Message::Error { message, .. })), Answer::Refused(m)) => m@ == message@,
            (Ok(Some(Message::Data { .. })), _) | (Ok(Some(Message::Error { .. })), _) => false,
            (Ok(Some(_)), a) => a is Unexpected,
            (Ok(None), a) => a is Empty,
            (Err(e), Answer::Failed(m)) => m@ == e@,
            (Err(_), _) => false,
        },
{
    match reply {
        Ok(Some(Message::Data { data, .. })) => if data.len() == 0 {
            Answer::Established
        } else {
            Answer::Unexpected
        },
        Ok(Some(Message::Error { message, .. })) => Answer::Refused(message),
        Ok(Some(_)) => Answer::Unexpected,
        Ok(None) => Answer::Empty,
        Err(e) => Answer::Failed(e),
    }
}

/// What is said of a request for a connection to the target that did not open it; `seen`
/// is what the server sent instead of an answer.
pub open spec fn connect_error_text(
    answer: Answer,
    target: Seq<char>,
    seen: Seq<char>,
) -> Option<Seq<char>> {
    match answer {
        Answer::Established => None,
        Answer::Refused(m) => Some("server could not connect to "@ + target + ": "@ + m@),
        Answer::Unexpected => Some(
            "unexpected CONNECT response for "@ + target + ": "@ + seen,
        ),
        Answer::Empty => Some("empty CONNECT response for "@ + target),
        Answer::Failed(e) => Some("CONNECT request for "@ + target + " failed: "@ + e@),
    }
}

/// Why there is no connection to `host:port`, unless there is one.
pub fn connect_error(answer: &Answer, host: &str, port: u16, seen: &str) -> (r: Option<String>)
    ensures
        uri::said(r) == connect_error_text(
            *answer,
            host@ + seq![':'] + text::decimal(port as nat),
            seen@,
        ),
{
    let target = server::target_of(host, port);
    match answer {
        Answer::Established => None,
        Answer::Refused(m) => Some(
            String::from_str("server could not connect to ").concat(target.as_str()).concat(
                ": ",
            ).concat(m.as_str()),
        ),
        Answer::Unexpected => Some(
            String::from_str("unexpected CONNECT response for ").concat(target.as_str()).concat(
                ": ",
            ).concat(seen),
        ),
        Answer::Empty => Some(
            String::from_str("empty CONNECT response for ").concat(target.as_str()),
        ),
        Answer::Failed(e) => Some(
            String::from_str("CONNECT request for ").concat(target.as_str()).concat(
                " failed: ",
            ).concat(e.as_str()),
        ),
    }
}

/// Reads the reply to a request for a command or a transfer: only an error stops it.
pub fn refusal_of(reply: Option<Message>) -> (r: Option<String>)
    ensures
        match (reply, r) {
            (Some(Message::Error { message, .. }), Some(m)) => m@ == message@,
            (Some(Message::Error { .. }), None) => false,
            (_, m) => m is None,
        },
{
    match reply {
        Some(Message::Error { message, .. }) => Some(message),
        _ => None,
    }
}

// What the client does, told by what it is given.

/// How long the client waits: fifteen seconds for a stream to open, thirty for it to speak,
/// twenty for it to be back, one after its end, a minute for a last event; and how many events
/// may wait for a connection.
pub proof fn waits_are_limited()
    ensures
        SSE_CONNECT_TIMEOUT_SECS == 15,
        SSE_READ_TIMEOUT_SECS == 30,
        RECONNECT_WAIT_SECS == 20,
        STREAM_END_PAUSE_SECS == 1,
        CONN_CHANNEL_CAPACITY == 256,
        CLOSE_HANDOFF_MS == 60000,
{
}

/// An address below the server's is the text of the server's address up to the slashes at its
/// end, then the route, then the id.
pub proof fn addresses_are_put_together(
    base: UriView,
    front: Seq<char>,
    slashes: Seq<char>,
    route: Seq<char>,
    id: Seq<char>,
)
    requires
        uri::uri_text(base) == front + slashes,
        front.len() > 0 ==> front.last() != '/',
        forall|i: int| 0 <= i < slashes.len() ==> #[trigger] slashes[i] == '/',
    ensures
        endpoint_text(base, route, id) == front + route + id,
{
    slashes_are_cut(front, slashes);
}

proof fn slashes_are_cut(front: Seq<char>, slashes: Seq<char>)
    requires
        front.len() > 0 ==> front.last() != '/',
        forall|i: int| 0 <= i < slashes.len() ==> #[trigger] slashes[i] == '/',
    ensures
        uri::without_trailing_slashes(front + slashes) == front,
    decreases slashes.len(),
{
    let s = front + slashes;
    if slashes.len() == 0 {
        assert(s =~= front);
    } else {
        let fewer = slashes.drop_last();
        assert(s.last() == slashes[slashes.len() - 1]);
        assert(s.drop_last() =~= front + fewer);
        assert forall|i: int| 0 <= i < fewer.len() implies #[trigger] fewer[i] == '/' by {
            assert(slashes[i] == '/');
        }
        slashes_are_cut(front, fewer);
    }
}

/// `Reset` drops every connection and says how many there were; nothing else does, and what
/// is for no connection does nothing at all.
pub proof fn a_reset_drops_all<T>(t: TunnelView<T>, m: MessageView)
    ensures
        dispatched(t, MessageView::Reset) == (
            TunnelView { session_id: t.session_id, channels: Map::<u32, T>::empty() },
            DispatchView::Reset { dropped: t.channels.len() },
        ),
        m != MessageView::Reset ==> dispatched(t, m).0 == t,
        !(m is Data || m is Close || m is ExitStatus || m is Reset || (m is Error
            && m->Error_conn_id is Some)) ==> dispatched(t, m).1 == DispatchView::Nothing,
{
}

/// An event for which there is room is sent, one for a connection that is gone is ignored,
/// and where there was no room in time only the end of the response is worth a longer wait.
pub proof fn events_wait_for_room(event: TunnelEventView)
    ensures
        dispatch_step(event, Reserve::Ready) == DispatchStep::Send,
        dispatch_step(event, Reserve::Gone) == DispatchStep::Ignore,
        dispatch_step(TunnelEventView::Close, Reserve::Stalled) == DispatchStep::HandOff,
        !(event is Close) ==> dispatch_step(event, Reserve::Stalled) == DispatchStep::Drop,
{
}

/// A stream that was open before is ready with its first event; a new one with the first
/// event that carries a message, and not before.
pub proof fn streams_are_ready_once(carried: Seq<bool>, i: int)
    requires
        0 <= i < carried.len(),
    ensures
        ready_at(true, carried) == Some(0int),
        ready_at(false, carried) == Some(i) <==> carried[i] && forall|j: int|
            0 <= j < i ==> !#[trigger] carried[j],
        ready_at(true, Seq::empty()) is None,
    decreases carried.len(),
{
    reveal_with_fuel(ready_at, 2);
    let past = carried.drop_last();
    ready_at_bounds(false, past);
    ready_at_bounds(false, carried);
    if past.len() > 0 {
        streams_are_ready_once(past, 0);
        if i < past.len() {
            streams_are_ready_once(past, i);
            assert(past[i] == carried[i]);
            if carried[i] && forall|j: int| 0 <= j < i ==> !#[trigger] carried[j] {
                assert forall|j: int| 0 <= j < i implies !#[trigger] past[j] by {
                    assert(!carried[j]);
                }
            }
            if ready_at(false, carried) == Some(i) {
                assert(ready_at(false, past) == Some(i));
                assert forall|j: int| 0 <= j < i implies !#[trigger] carried[j] by {
                    assert(!past[j]);
                }
            }
        } else {
            if ready_at(false, past) is Some {
                let k = ready_at(false, past)->0;
                streams_are_ready_once(past, k);
                assert(past[k] == carried[k]);
                assert(carried[k]);
            } else {
                none_carried(past);
                assert forall|j: int| 0 <= j < i implies !#[trigger] carried[j] by {
                    assert(!past[j]);
                }
            }
        }
    }
}

proof fn none_carried(carried: Seq<bool>)
    requires
        ready_at(false, carried) is None,
    ensures
        forall|j: int| 0 <= j < carried.len() ==> !#[trigger] carried[j],
    decreases carried.len(),
{
    if carried.len() > 0 {
        let past = carried.drop_last();
        none_carried(past);
        assert forall|j: int| 0 <= j < carried.len() implies !#[trigger] carried[j] by {
            if j < past.len() {
                assert(!past[j]);
            }
        }
    }
}

/// Only the attempts since the last data count, and each of them once.
pub proof fn failures_are_counted_from_the_last_data(past: Seq<bool>, n: nat)
    ensures
        failed_run(past.push(true) + Seq::new(n, |i: int| false)) == n,
        failed_run(Seq::new(n, |i: int| false)) == n,
        failed_run(Seq::empty()) == 0,
{
    failures_add_up(past.push(true), n);
    let none = Seq::<bool>::empty();
    failures_add_up(none, n);
    assert(none + Seq::new(n, |i: int| false) =~= Seq::new(n, |i: int| false));
}

/// A connection that was not opened is named with the reason; one that was opened is not.
pub proof fn failed_connections_are_explained(m: String, target: Seq<char>, seen: Seq<char>)
    ensures
        connect_error_text(Answer::Established, target, seen) is None,
        connect_error_text(Answer::Refused(m), target, seen) == Some(
            "server could not connect to "@ + target + ": "@ + m@,
        ),
        connect_error_text(Answer::Unexpected, target, seen) == Some(
            "unexpected CONNECT response for "@ + target + ": "@ + seen,
        ),
        connect_error_text(Answer::Empty, target, seen) == Some(
            "empty CONNECT response for "@ + target,
        ),
        connect_error_text(Answer::Failed(m), target, seen) == Some(
            "CONNECT request for "@ + target + " failed: "@ + m@,
        ),
{
}

/// A message is handed in twice at most, the second time only where the first failed, and it
/// has failed only where both did.
pub proof fn messages_are_handed_in_twice_at_most(first: bool, second: bool)
    ensures
        post_step(false, first) == PostStep::Done <==> first,
        post_step(false, first) == PostStep::ReconnectAndRetry <==> !first,
        post_step(true, second) == PostStep::Done <==> second,
        post_step(true, second) == PostStep::Fail <==> !second,
{
}

/// A response is a success where its status is from 200 to 299, whatever it holds; and it
/// holds its body, unless that is empty.
pub proof fn responses_hold_their_body(status: u16, body: Seq<u8>)
    ensures
        reply_of(status, body) is Ok <==> 200 <= status <= 299,
        reply_of(status, body) is Err ==> reply_of(status, body)->Err_0 == body,
        reply_of(status, body) is Ok ==> (reply_of(status, body)->Ok_0 is None <==> body.len()
            == 0),
        reply_of(status, body) is Ok && body.len() > 0 ==> reply_of(status, body)->Ok_0 == Some(
            body,
        ),
{
}

/// The client gives up only where there is a limit, and exactly when as many attempts in a
/// row as that have got no data; one that got data is never the last. A stream that the
/// client itself gave up is opened again at once, one that broke after the interval, and one
/// that the server ended after a second.
pub proof fn the_client_gives_up_at_its_limit(
    interval: u64,
    max: u32,
    failures: u32,
    end: AttemptEnd,
    got_data: bool,
)
    ensures
        reconnect_step(interval, Some(max), failures, end, false) is GiveUp <==> failures >= max,
        !(reconnect_step(interval, Some(max), failures, end, true) is GiveUp),
        !(reconnect_step(interval, None, failures, end, got_data) is GiveUp),
        failures >= max ==> reconnect_step(interval, Some(max), failures, end, false)
            == ReconnectStep::GiveUp(failures),
        reconnect_step(interval, None, failures, AttemptEnd::Forced, got_data)
            == ReconnectStep::Now,
        reconnect_step(interval, None, failures, AttemptEnd::Failed, got_data)
            == ReconnectStep::After(interval),
        reconnect_step(interval, None, failures, AttemptEnd::Ended, got_data)
            == ReconnectStep::After(1),
        failures < max || got_data ==> reconnect_step(interval, Some(max), failures, end, got_data)
            == reconnect_step(interval, None, failures, end, got_data),
{
}

/// What is said of an event is what it holds.
pub proof fn events_say_what_they_hold(
    conn_id: u32,
    event: TunnelEvent,
    text: String,
    data: Vec<u8>,
    code: i32,
    dropped: usize,
)
    ensures
        TunnelEvent::Data(data)@ == TunnelEventView::Data(data@),
        TunnelEvent::Close@ == TunnelEventView::Close,
        TunnelEvent::Error(text)@ == TunnelEventView::Error(text@),
        TunnelEvent::Exit(code)@ == TunnelEventView::Exit(code),
        (Dispatch::Deliver { conn_id, event })@ == (DispatchView::Deliver {
            conn_id,
            event: event@,
        }),
        (Dispatch::Reset { dropped })@ == (DispatchView::Reset { dropped: dropped as nat }),
        Dispatch::Nothing@ == DispatchView::Nothing,
{
}

/// What the server says to a connection that it opened is taken for that, and nothing else
/// is: neither its refusal nor bytes that came too early.
pub proof fn only_an_ack_is_an_ack(conn_id: u32, data: Seq<u8>, why: Seq<char>, m: MessageView)
    ensures
        is_ack(MessageView::Data { conn_id, data: Seq::empty() }),
        is_ack(MessageView::Data { conn_id, data }) <==> data.len() == 0,
        !is_ack(server::refusal(conn_id, why)),
        !(m is Data) ==> !is_ack(m),
{
}

/// An attempt has got something exactly where an event came, whatever it carried; and those
/// who wait were told exactly where one of the events so far made the stream ready.
pub proof fn attempts_know_what_came(a: StreamAttempt, carried: Seq<bool>)
    requires
        a.has_seen(carried),
    ensures
        a.got_data() <==> carried.len() != 0,
        a.signaled() <==> carried.len() != 0 && (a.is_reconnect() || exists|i: int|
            0 <= i < carried.len() && #[trigger] carried[i]),
{
    if carried.len() != 0 {
        streams_are_ready_once(carried, 0);
        if ready_at(false, carried) is Some {
            ready_at_bounds(false, carried);
            streams_are_ready_once(carried, ready_at(false, carried)->0);
            assert(carried[ready_at(false, carried)->0]);
        } else {
            none_carried(carried);
        }
    }
}

} // verus!
