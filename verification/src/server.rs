//! The server's rules: which request goes where, what a message from the client asks
//! for, and what is answered.

use crate::crypto;
use crate::crypto::Crypto;
use crate::envelope;
use crate::envelope::EnvelopeError;
use crate::protocol;
use crate::protocol::{Message, MessageView};
use crate::session;
use crate::session::{Session, SessionView, Sessions};
use crate::text;
use crate::uri;
use crate::uri::Uri;
use crate::wire;
use vstd::prelude::*;

verus! {

broadcast use vstd::seq::group_seq_axioms;

// Responses.

/// A response to an HTTP request.
#[derive(Debug)]
pub struct HttpReply {
    pub status: u16,
    pub headers: Vec<(String, String)>,
    pub body: Vec<u8>,
}

/// What a response says.
#[verifier::ext_equal]
pub struct HttpReplyView {
    pub status: u16,
    pub headers: Seq<(Seq<char>, Seq<char>)>,
    pub body: Seq<u8>,
}

/// What header lines say.
pub open spec fn header_view(h: Seq<(String, String)>) -> Seq<(Seq<char>, Seq<char>)> {
    h.map_values(|p: (String, String)| (p.0@, p.1@))
}

impl View for HttpReply {
    type V = HttpReplyView;

    open spec fn view(&self) -> HttpReplyView {
        HttpReplyView {
            status: self.status,
            headers: header_view(self.headers@),
            body: self.body@,
        }
    }
}

/// A response with a text and no headers.
pub open spec fn plain(status: u16, msg: Seq<char>) -> HttpReplyView {
    HttpReplyView { status, headers: Seq::empty(), body: vstd::utf8::encode_utf8(msg) }
}

/// A response with one header.
pub open spec fn with_header(
    status: u16,
    name: Seq<char>,
    value: Seq<char>,
    body: Seq<u8>,
) -> HttpReplyView {
    HttpReplyView { status, headers: seq![(name, value)], body }
}

fn plain_reply(status: u16, msg: &str) -> (r: HttpReply)
    ensures
        r@ == plain(status, msg@),
{
    let mut body: Vec<u8> = Vec::new();
    body.extend_from_slice(msg.as_bytes());
    assert(body@ =~= vstd::utf8::encode_utf8(msg@));
    let r = HttpReply { status, headers: Vec::new(), body };
    assert(r@.headers =~= Seq::<(Seq<char>, Seq<char>)>::empty());
    r
}

fn reply_with(status: u16, name: &str, value: &str, body: Vec<u8>) -> (r: HttpReply)
    ensures
        r@ == with_header(status, name@, value@, body@),
{
    let mut headers: Vec<(String, String)> = Vec::new();
    headers.push((String::from_str(name), String::from_str(value)));
    let r = HttpReply { status, headers, body };
    assert(r@.headers =~= seq![(name@, value@)]);
    r
}

/// 200 with a text.
pub fn ok_response(msg: &str) -> (r: HttpReply)
    ensures
        r@ == plain(200, msg@),
{
    plain_reply(200, msg)
}

/// 503 with a text.
pub fn service_unavailable_response(msg: &str) -> (r: HttpReply)
    ensures
        r@ == plain(503, msg@),
{
    plain_reply(503, msg)
}

/// The answer to a message for a session that the server does not know.
pub fn unknown_session_response() -> (r: HttpReply)
    ensures
        r@ == plain(503, "unknown session"@),
{
    service_unavailable_response("unknown session")
}

/// The answer to a request that goes nowhere.
pub fn not_found_response() -> (r: HttpReply)
    ensures
        r@ == plain(200, "not found"@),
{
    ok_response("not found")
}

/// The answer to a message that could not be read off the network.
pub fn bad_request_response() -> (r: HttpReply)
    ensures
        r@ == plain(200, "bad request"@),
{
    ok_response("bad request")
}

/// The answer to a message that asks for nothing in return.
pub fn done_response() -> (r: HttpReply)
    ensures
        r@ == plain(200, ""@),
{
    ok_response("")
}

/// The answer to a health probe: the configured text on a line of its own.
pub fn health_response(health_body: &str) -> (r: HttpReply)
    ensures
        r@ == plain(200, health_body@ + "\n"@),
{
    ok_response(String::from_str(health_body).concat("\n").as_str())
}

/// The file that is served at the root: the configured one, unless there is a
/// redirect.
pub fn root_file<'a>(root_redirect: &Option<Uri>, root_html: &'a Option<String>) -> (r: Option<
    &'a str,
>)
    ensures
        match r {
            Some(p) => root_redirect is None && root_html is Some && p@ == root_html->0@,
            None => root_redirect is Some || root_html is None,
        },
{
    if root_redirect.is_some() {
        return None;
    }
    match root_html {
        Some(p) => Some(p.as_str()),
        None => None,
    }
}

/// What the root answers: the redirect where there is one, else the content of the
/// root file where it could be read, else the health text.
pub open spec fn root_reply(
    redirect: Option<uri::UriView>,
    content: Option<Seq<char>>,
    health_body: Seq<char>,
) -> HttpReplyView {
    match (redirect, content) {
        (Some(u), _) => with_header(301, "Location"@, uri::uri_text(u), Seq::empty()),
        (None, Some(c)) => with_header(
            200,
            "Content-Type"@,
            "text/html; charset=utf-8"@,
            vstd::utf8::encode_utf8(c),
        ),
        (None, None) => plain(200, health_body + "\n"@),
    }
}

/// What the root answers, given the content of `root_file` where it could be read.
pub fn root_response(
    root_redirect: &Option<Uri>,
    content: Option<String>,
    health_body: &str,
) -> (r: HttpReply)
    ensures
        r@ == root_reply(uri::said_uri(*root_redirect), uri::said(content), health_body@),
{
    if let Some(u) = root_redirect {
        let to = u.to_text();
        let nothing: Vec<u8> = Vec::new();
        assert(nothing@ =~= Seq::<u8>::empty());
        return reply_with(301, "Location", to.as_str(), nothing);
    }
    match content {
        Some(c) => {
            let mut body: Vec<u8> = Vec::new();
            body.extend_from_slice(c.as_str().as_bytes());
            assert(body@ =~= vstd::utf8::encode_utf8(c@));
            reply_with(200, "Content-Type", "text/html; charset=utf-8", body)
        },
        None => health_response(health_body),
    }
}

/// The headers of a stream: no caching, no buffering on the way.
pub open spec fn stream_header_view() -> Seq<(Seq<char>, Seq<char>)> {
    seq![
        ("Content-Type"@, "text/event-stream"@),
        ("Cache-Control"@, "no-cache"@),
        ("Connection"@, "keep-alive"@),
        ("X-Accel-Buffering"@, "no"@),
    ]
}

/// The headers of a stream.
pub fn stream_headers() -> (r: Vec<(String, String)>)
    ensures
        header_view(r@) == stream_header_view(),
{
    let mut headers: Vec<(String, String)> = Vec::new();
    headers.push((String::from_str("Content-Type"), String::from_str("text/event-stream")));
    headers.push((String::from_str("Cache-Control"), String::from_str("no-cache")));
    headers.push((String::from_str("Connection"), String::from_str("keep-alive")));
    headers.push((String::from_str("X-Accel-Buffering"), String::from_str("no")));
    assert(header_view(headers@) =~= stream_header_view());
    headers
}

/// The response is the sealed message as a byte stream, or says `error` where the
/// message is too long.
pub open spec fn is_encrypted_reply(key: Seq<u8>, r: HttpReplyView, m: MessageView) -> bool {
    if envelope::too_long(m) {
        r == plain(200, "error"@)
    } else {
        &&& r.status == 200
        &&& r.headers == seq![("Content-Type"@, "application/octet-stream"@)]
        &&& envelope::carries(key, r.body, m)
    }
}

/// A response that carries a sealed message.
pub fn encrypted_response(crypto: &Crypto, msg: &Message) -> (r: HttpReply)
    ensures
        is_encrypted_reply(crypto.key(), r@, msg@),
{
    match envelope::seal(crypto, msg) {
        Some(data) => reply_with(200, "Content-Type", "application/octet-stream", data),
        None => ok_response("error"),
    }
}

/// The response to a ping: a sealed pong, with no header.
pub fn pong_response(crypto: &Crypto) -> (r: HttpReply)
    ensures
        r@.status == 200,
        r@.headers == Seq::<(Seq<char>, Seq<char>)>::empty(),
        envelope::carries(crypto.key(), r@.body, MessageView::Pong),
{
    proof {
        let m = MessageView::Pong;
        assert(protocol::joined(protocol::fields(m)) =~= Seq::<u8>::empty());
        wire::le_bytes_len(protocol::tag(m) as nat, 4);
    }
    match envelope::seal(crypto, &Message::Pong) {
        Some(body) => {
            let r = HttpReply { status: 200, headers: Vec::new(), body };
            assert(r@.headers =~= Seq::<(Seq<char>, Seq<char>)>::empty());
            r
        },
        None => ok_response(""),
    }
}

// Routing.

/// The method of a request, as far as it matters.
#[derive(Debug, Clone, Copy, PartialEq, Eq, Structural)]
pub enum Method {
    Get,
    Post,
    Other,
}

/// Where a request goes.
#[derive(Debug, PartialEq, Eq)]
pub enum Route {
    Health,
    Root,
    /// Opens the stream of a session.
    Stream(String),
    /// Hands in a message for a session.
    Send(String),
    NotFound,
}

/// Where a request goes, with the session id as text.
#[verifier::ext_equal]
pub enum RouteView {
    Health,
    Root,
    Stream(Seq<char>),
    Send(Seq<char>),
    NotFound,
}

impl View for Route {
    type V = RouteView;

    open spec fn view(&self) -> RouteView {
        match *self {
            Route::Health => RouteView::Health,
            Route::Root => RouteView::Root,
            Route::Stream(id) => RouteView::Stream(id@),
            Route::Send(id) => RouteView::Send(id@),
            Route::NotFound => RouteView::NotFound,
        }
    }
}

/// The text without any copies of the other at its front.
pub open spec fn without_front(s: Seq<char>, front: Seq<char>) -> Seq<char>
    decreases s.len(),
{
    if front.len() > 0 && front.is_prefix_of(s) {
        without_front(s.skip(front.len() as int), front)
    } else {
        s
    }
}

/// Where a request below the prefix goes.
pub open spec fn route_below(method: Method, path: Seq<char>) -> RouteView {
    if method == Method::Get && (path.len() == 0 || path == "/"@) {
        RouteView::Root
    } else if method == Method::Get && path == "/health"@ {
        RouteView::Health
    } else if method == Method::Get && "/stream/"@.is_prefix_of(path) {
        RouteView::Stream(without_front(path, "/stream/"@))
    } else if method == Method::Post && "/send/"@.is_prefix_of(path) {
        RouteView::Send(without_front(path, "/send/"@))
    } else {
        RouteView::NotFound
    }
}

/// Where a request goes. The bare root and the bare health probe are answered whatever
/// the prefix; everything else must start with the prefix and is routed by what
/// follows it.
pub open spec fn routed(prefix: Seq<char>, method: Method, path: Seq<char>) -> RouteView {
    if method == Method::Get && path == "/health"@ {
        RouteView::Health
    } else if method == Method::Get && path == "/"@ {
        RouteView::Root
    } else if prefix.is_prefix_of(path) {
        route_below(method, path.skip(prefix.len() as int))
    } else {
        RouteView::NotFound
    }
}

/// The path of the prefix; empty where there is none.
pub open spec fn prefix_path(prefix: Option<uri::UriView>) -> Seq<char> {
    match prefix {
        Some(u) => u.path,
        None => Seq::empty(),
    }
}

fn strip_front(s: &[char], front: &str) -> (r: String)
    ensures
        r@ == without_front(s@, front@),
{
    let f = text::chars_of(front);
    if f.len() == 0 {
        return text::string_of(s);
    }
    let mut rest: &[char] = s;
    while text::starts_with(rest, f.as_slice())
        invariant
            f@ == front@,
            f@.len() > 0,
            without_front(rest@, front@) == without_front(s@, front@),
        decreases rest@.len(),
    {
        rest = vstd::slice::slice_subrange(rest, f.len(), rest.len());
    }
    text::string_of(rest)
}

fn is_text(s: &[char], t: &str) -> (r: bool)
    ensures
        r == (s@ == t@),
{
    let t = text::chars_of(t);
    text::same(s, t.as_slice())
}

/// Finds where a request goes.
pub fn route(prefix: &Option<Uri>, method: Method, path: &str) -> (r: Route)
    ensures
        r@ == routed(prefix_path(uri::said_uri(*prefix)), method, path@),
{
    let all = text::chars_of(path);
    let full: &[char] = all.as_slice();
    if method == Method::Get && is_text(full, "/health") {
        return Route::Health;
    }
    if method == Method::Get && is_text(full, "/") {
        return Route::Root;
    }
    let below: &[char] = match prefix {
        None => {
            proof {
                assert(Seq::<char>::empty().is_prefix_of(full@)) by {
                    assert(Seq::<char>::empty() =~= full@.subrange(0, 0));
                }
                assert(full@.skip(0) =~= full@);
            }
            full
        },
        Some(p) => match text::strip_prefix(full, p.path.as_str()) {
            Some(rest) => rest,
            None => {
                return Route::NotFound;
            },
        },
    };
    if method == Method::Get && (below.len() == 0 || is_text(below, "/")) {
        return Route::Root;
    }
    if method == Method::Get && is_text(below, "/health") {
        return Route::Health;
    }
    if method == Method::Get && text::strip_prefix(below, "/stream/").is_some() {
        return Route::Stream(strip_front(below, "/stream/"));
    }
    if method == Method::Post && text::strip_prefix(below, "/send/").is_some() {
        return Route::Send(strip_front(below, "/send/"));
    }
    Route::NotFound
}

/// The health probe is answered whatever the prefix.
pub proof fn health_is_always_answered(prefix: Seq<char>)
    ensures
        routed(prefix, Method::Get, "/health"@) == RouteView::Health,
{
}

/// So is the bare root.
pub proof fn root_is_always_answered(prefix: Seq<char>)
    ensures
        routed(prefix, Method::Get, "/"@) == RouteView::Root,
{
    reveal_strlit("/");
    reveal_strlit("/health");
}

/// A session id that holds no slash comes through unchanged, below any prefix: what a
/// client sends to its session reaches that session, and so does its stream.
pub proof fn session_routes(prefix: Seq<char>, id: Seq<char>)
    requires
        id.len() > 0,
        !id.contains('/'),
    ensures
        routed(prefix, Method::Get, prefix + "/stream/"@ + id) == RouteView::Stream(id),
        routed(prefix, Method::Post, prefix + "/send/"@ + id) == RouteView::Send(id),
{
    reveal_strlit("/");
    reveal_strlit("/health");
    reveal_strlit("/stream/");
    reveal_strlit("/send/");
    let stream = prefix + "/stream/"@ + id;
    let send = prefix + "/send/"@ + id;
    assert(stream.len() != 1);
    if stream == "/health"@ {
        assert(stream.len() == 7);
        assert(false);
    }
    assert(prefix.is_prefix_of(stream)) by {
        assert(prefix =~= stream.subrange(0, prefix.len() as int));
    }
    assert(prefix.is_prefix_of(send)) by {
        assert(prefix =~= send.subrange(0, prefix.len() as int));
    }
    let below1 = stream.skip(prefix.len() as int);
    let below2 = send.skip(prefix.len() as int);
    assert(below1 =~= "/stream/"@ + id);
    assert(below2 =~= "/send/"@ + id);
    front_stripped_once("/stream/"@, id);
    front_stripped_once("/send/"@, id);
    assert(below1.len() > 8);
}

proof fn front_stripped_once(front: Seq<char>, id: Seq<char>)
    requires
        front.len() > 0,
        front[0] == '/',
        !id.contains('/'),
    ensures
        front.is_prefix_of(front + id),
        without_front(front + id, front) == id,
{
    let s = front + id;
    assert(front =~= s.subrange(0, front.len() as int));
    assert(s.skip(front.len() as int) =~= id);
    if front.is_prefix_of(id) {
        assert(id.subrange(0, front.len() as int)[0] == front[0]);
        assert(id.contains(id[0]));
    }
    assert(without_front(id, front) == id);
}

// Messages from the client.

/// The answer to a body that is no message.
pub fn body_error_response(e: EnvelopeError) -> (r: HttpReply)
    ensures
        r@ == plain(
            200,
            if e == EnvelopeError::Undecryptable {
                "decrypt error"@
            } else {
                "deserialize error"@
            },
        ),
{
    match e {
        EnvelopeError::Undecryptable => ok_response("decrypt error"),
        EnvelopeError::Unreadable => ok_response("deserialize error"),
    }
}

/// Reads the message in the body of a request, or yields the answer to a body that is
/// none: it was not sealed with the key, or what it opens to is no message.
pub fn read_message(crypto: &Crypto, body: &[u8]) -> (r: Result<Message, HttpReply>)
    ensures
        match r {
            Ok(m) => envelope::holds(crypto.key(), body@, m@),
            Err(reply) => {
                &&& forall|m: MessageView| !#[trigger] envelope::holds(crypto.key(), body@, m)
                &&& reply@ == plain(
                    200,
                    if crypto::opened(crypto.key(), body@) is None {
                        "decrypt error"@
                    } else {
                        "deserialize error"@
                    },
                )
            },
        },
{
    match envelope::open(crypto, body) {
        Ok(m) => Ok(m),
        Err(e) => Err(body_error_response(e)),
    }
}

/// Receives a request with a message: the session that it is for, and the message. The
/// session is looked up first; a request for one that the server does not know is answered
/// so, whatever its body holds.
pub fn receive<'a, H>(sessions: &'a Sessions<H>, id: &str, crypto: &Crypto, body: &[u8]) -> (r:
    Result<(&'a H, Message), HttpReply>)
    ensures
        match r {
            Ok((session, m)) => {
                &&& sessions.at(id@) == Some(*session)
                &&& envelope::holds(crypto.key(), body@, m@)
            },
            Err(reply) => if sessions.at(id@) is None {
                reply@ == plain(503, "unknown session"@)
            } else {
                &&& forall|m: MessageView| !#[trigger] envelope::holds(crypto.key(), body@, m)
                &&& reply@ == plain(
                    200,
                    if crypto::opened(crypto.key(), body@) is None {
                        "decrypt error"@
                    } else {
                        "deserialize error"@
                    },
                )
            },
        },
{
    match sessions.get(id) {
        None => Err(unknown_session_response()),
        Some(session) => match read_message(crypto, body) {
            Ok(m) => Ok((session, m)),
            Err(reply) => Err(reply),
        },
    }
}

/// What a message asks of the server.
#[allow(inconsistent_fields)]
#[derive(Debug)]
pub enum Action<A> {
    /// Answer with an empty 200.
    Done,
    /// Answer with this message.
    Answer(Message),
    /// Answer with a pong.
    Pong,
    /// Connect to the target, hand the outcome to `Session::opened`, and answer with what
    /// that yields.
    Connect { conn_id: u32, host: String, port: u16 },
    /// Hand the bytes to the connection, if it is there; answer with an empty 200.
    Deliver { conn_id: u32, data: Vec<u8> },
    /// Fire the signal, if there is one; answer with an empty 200.
    Stop { signal: Option<A> },
    /// Start a command in a terminal, hand the outcome to `Session::started`, and answer
    /// with what that yields.
    Exec { conn_id: u32, cmd: Option<String>, cols: u16, rows: u16, term: String },
    /// Hand the size to the terminal, if it is there; answer with an empty 200.
    Resize { conn_id: u32, cols: u16, rows: u16 },
    /// Start sending an archive of the paths, and acknowledge.
    Pull { conn_id: u32, paths: Vec<String>, level: i32 },
    /// Start unpacking an archive, register its sink, and acknowledge.
    Push { conn_id: u32, path: String },
}

/// What a message asks of the server, with its contents.
#[allow(inconsistent_fields)]
#[verifier::ext_equal]
pub enum ActionView<A> {
    Done,
    Answer(MessageView),
    Pong,
    Connect { conn_id: u32, host: Seq<char>, port: u16 },
    Deliver { conn_id: u32, data: Seq<u8> },
    Stop { signal: Option<A> },
    Exec { conn_id: u32, cmd: Option<Seq<char>>, cols: u16, rows: u16, term: Seq<char> },
    Resize { conn_id: u32, cols: u16, rows: u16 },
    Pull { conn_id: u32, paths: Seq<Seq<char>>, level: i32 },
    Push { conn_id: u32, path: Seq<char> },
}

impl<A> View for Action<A> {
    type V = ActionView<A>;

    open spec fn view(&self) -> ActionView<A> {
        match *self {
            Action::Done => ActionView::Done,
            Action::Answer(m) => ActionView::Answer(m@),
            Action::Pong => ActionView::Pong,
            Action::Connect { conn_id, host, port } => ActionView::Connect {
                conn_id,
                host: host@,
                port,
            },
            Action::Deliver { conn_id, data } => ActionView::Deliver { conn_id, data: data@ },
            Action::Stop { signal } => ActionView::Stop { signal },
            Action::Exec { conn_id, cmd, cols, rows, term } => ActionView::Exec {
                conn_id,
                cmd: wire::text_of(cmd),
                cols,
                rows,
                term: term@,
            },
            Action::Resize { conn_id, cols, rows } => ActionView::Resize { conn_id, cols, rows },
            Action::Pull { conn_id, paths, level } => ActionView::Pull {
                conn_id,
                paths: wire::texts(paths@),
                level,
            },
            Action::Push { conn_id, path } => ActionView::Push { conn_id, path: path@ },
        }
    }
}

/// The refusal of something that is switched off.
pub open spec fn refusal(conn_id: u32, why: Seq<char>) -> MessageView {
    MessageView::Error { conn_id: Some(conn_id), message: why }
}

/// What a message does to the session of its client, and what it asks for.
///
/// `Close` lets go of the sink only, so that the connection goes on in the other
/// direction; `Abort` lets go of both. Commands and transfers are refused where they
/// are switched off. Nothing else changes the session at once.
pub open spec fn handled<W, A, R, S>(
    s: SessionView<W, A, R, S>,
    m: MessageView,
    allow_exec: bool,
    allow_transfer: bool,
) -> (SessionView<W, A, R, S>, ActionView<A>) {
    match m {
        MessageView::Connect { conn_id, host, port } => (
            s,
            ActionView::Connect { conn_id, host, port },
        ),
        MessageView::Data { conn_id, data } => (s, ActionView::Deliver { conn_id, data }),
        MessageView::Close { conn_id } => (
            SessionView { writers: s.writers.remove(conn_id), ..s },
            ActionView::Done,
        ),
        MessageView::Abort { conn_id } => (
            SessionView {
                writers: s.writers.remove(conn_id),
                aborts: s.aborts.remove(conn_id),
                ..s
            },
            ActionView::Stop { signal: session::at(s.aborts, conn_id) },
        ),
        MessageView::Exec { conn_id, cmd, cols, rows, term } => if allow_exec {
            (s, ActionView::Exec { conn_id, cmd, cols, rows, term })
        } else {
            (s, ActionView::Answer(refusal(conn_id, "remote exec is disabled on this server"@)))
        },
        MessageView::Resize { conn_id, cols, rows } => (
            s,
            ActionView::Resize { conn_id, cols, rows },
        ),
        MessageView::Pull { conn_id, paths, level } => if allow_transfer {
            (s, ActionView::Pull { conn_id, paths, level })
        } else {
            (s, ActionView::Answer(refusal(conn_id, "file transfer is disabled on this server"@)))
        },
        MessageView::Push { conn_id, path } => if allow_transfer {
            (s, ActionView::Push { conn_id, path })
        } else {
            (s, ActionView::Answer(refusal(conn_id, "file transfer is disabled on this server"@)))
        },
        MessageView::Ping => (s, ActionView::Pong),
        _ => (s, ActionView::Done),
    }
}

/// Decides what a message from the client asks for.
pub fn handle_send<W, A, R, S>(
    session: &mut Session<W, A, R, S>,
    message: Message,
    allow_exec: bool,
    allow_transfer: bool,
) -> (r: Action<A>)
    ensures
        (final(session)@, r@) == handled(old(session)@, message@, allow_exec, allow_transfer),
{
    match message {
        Message::Connect { conn_id, host, port } => Action::Connect { conn_id, host, port },
        Message::Data { conn_id, data } => Action::Deliver { conn_id, data },
        Message::Close { conn_id } => {
            session.release_writer(conn_id);
            Action::Done
        },
        Message::Abort { conn_id } => {
            let signal = session.take_abort(conn_id);
            Action::Stop { signal }
        },
        Message::Exec { conn_id, cmd, cols, rows, term } => if allow_exec {
            Action::Exec { conn_id, cmd, cols, rows, term }
        } else {
            Action::Answer(failure(conn_id, "remote exec is disabled on this server"))
        },
        Message::Resize { conn_id, cols, rows } => Action::Resize { conn_id, cols, rows },
        Message::Pull { conn_id, paths, level } => if allow_transfer {
            Action::Pull { conn_id, paths, level }
        } else {
            Action::Answer(failure(conn_id, "file transfer is disabled on this server"))
        },
        Message::Push { conn_id, path } => if allow_transfer {
            Action::Push { conn_id, path }
        } else {
            Action::Answer(failure(conn_id, "file transfer is disabled on this server"))
        },
        Message::Ping => Action::Pong,
        _ => Action::Done,
    }
}

/// An error for a connection.
pub fn failure(conn_id: u32, why: &str) -> (r: Message)
    ensures
        r@ == refusal(conn_id, why@),
{
    Message::Error { conn_id: Some(conn_id), message: String::from_str(why) }
}

/// An error for a connection that says what failed and how.
pub fn failure_of(conn_id: u32, what: &str, how: &str) -> (r: Message)
    ensures
        r@ == refusal(conn_id, what@ + how@),
{
    Message::Error { conn_id: Some(conn_id), message: String::from_str(what).concat(how) }
}

/// The acknowledgement that a connection is open: no data.
pub fn ack(conn_id: u32) -> (r: Message)
    ensures
        r@ == (MessageView::Data { conn_id, data: Seq::<u8>::empty() }),
{
    let data: Vec<u8> = Vec::new();
    assert(data@ =~= Seq::<u8>::empty());
    Message::Data { conn_id, data }
}

/// What was tried when a connection or a command was to be opened.
#[derive(Debug, Clone, Copy, PartialEq, Eq, Structural)]
pub enum OpenStep {
    Connect,
    OpenPty,
    Spawn,
    PtyWriter,
}

/// What failed, in words.
pub open spec fn step_text(step: OpenStep) -> Seq<char> {
    match step {
        OpenStep::Connect => "Connect failed: "@,
        OpenStep::OpenPty => "openpty failed: "@,
        OpenStep::Spawn => "spawn failed: "@,
        OpenStep::PtyWriter => "pty writer failed: "@,
    }
}

/// What the client is told of a connection or a command that was to be opened: the
/// acknowledgement, or what failed and how.
pub fn open_outcome(conn_id: u32, failed: Option<(OpenStep, String)>) -> (r: Message)
    ensures
        r@ == match failed {
            None => MessageView::Data { conn_id, data: Seq::<u8>::empty() },
            Some((step, how)) => refusal(conn_id, step_text(step) + how@),
        },
{
    match failed {
        None => ack(conn_id),
        Some((step, how)) => match step {
            OpenStep::Connect => failure_of(conn_id, "Connect failed: ", how.as_str()),
            OpenStep::OpenPty => failure_of(conn_id, "openpty failed: ", how.as_str()),
            OpenStep::Spawn => failure_of(conn_id, "spawn failed: ", how.as_str()),
            OpenStep::PtyWriter => failure_of(conn_id, "pty writer failed: ", how.as_str()),
        },
    }
}

impl<W, A, R, S> Session<W, A, R, S> {
    /// Takes the outcome of connecting to a target: its sink and the signal that stops it,
    /// or what failed and how. Exactly a connection that was opened is registered. Yields
    /// what the client is told.
    pub fn opened(&mut self, conn_id: u32, outcome: Result<(W, A), (OpenStep, String)>) -> (r:
        Message)
        ensures
            match outcome {
                Ok((writer, abort)) => {
                    &&& final(self)@ == (SessionView {
                        writers: old(self)@.writers.insert(conn_id, writer),
                        aborts: old(self)@.aborts.insert(conn_id, abort),
                        ..old(self)@
                    })
                    &&& r@ == (MessageView::Data { conn_id, data: Seq::<u8>::empty() })
                },
                Err((step, how)) => {
                    &&& final(self)@ == old(self)@
                    &&& r@ == refusal(conn_id, step_text(step) + how@)
                },
            },
    {
        match outcome {
            Ok((writer, abort)) => {
                self.register_tcp(conn_id, writer, abort);
                open_outcome(conn_id, None)
            },
            Err(failed) => open_outcome(conn_id, Some(failed)),
        }
    }

    /// Takes the outcome of starting a command: its sink and the sink for the sizes of its
    /// terminal, or what failed and how. Exactly a command that was started is registered.
    /// Yields what the client is told.
    pub fn started(&mut self, conn_id: u32, outcome: Result<(W, R), (OpenStep, String)>) -> (r:
        Message)
        ensures
            match outcome {
                Ok((writer, resizer)) => {
                    &&& final(self)@ == (SessionView {
                        writers: old(self)@.writers.insert(conn_id, writer),
                        resizers: old(self)@.resizers.insert(conn_id, resizer),
                        ..old(self)@
                    })
                    &&& r@ == (MessageView::Data { conn_id, data: Seq::<u8>::empty() })
                },
                Err((step, how)) => {
                    &&& final(self)@ == old(self)@
                    &&& r@ == refusal(conn_id, step_text(step) + how@)
                },
            },
    {
        match outcome {
            Ok((writer, resizer)) => {
                self.register_pty(conn_id, writer, resizer);
                open_outcome(conn_id, None)
            },
            Err(failed) => open_outcome(conn_id, Some(failed)),
        }
    }
}

/// The address to connect to: `host:port`.
pub fn target_of(host: &str, port: u16) -> (r: String)
    ensures
        r@ == host@ + seq![':'] + text::decimal(port as nat),
{
    let mut out = String::from_str(host);
    out.push(':');
    out.append(text::decimal_of(port as u64).as_str());
    assert(out@ =~= host@ + seq![':'] + text::decimal(port as nat));
    out
}

/// Opening the stream of a session that was not there: the client is told to forget
/// its connections.
pub fn stream_greeting(was_new: bool) -> (r: Option<Message>)
    ensures
        was_new ==> r is Some && r->0@ == MessageView::Reset,
        !was_new ==> r is None,
{
    if was_new {
        Some(Message::Reset)
    } else {
        None
    }
}

/// What is run for an `Exec`.
#[derive(Debug)]
pub struct Command {
    pub program: String,
    pub args: Vec<String>,
    /// The value of `TERM`.
    pub term: String,
}

/// Program, arguments and terminal type of the command that an `Exec` asks for.
pub open spec fn command_of(cmd: Option<Seq<char>>, shell: Seq<char>, term: Seq<char>) -> (
    Seq<char>,
    Seq<Seq<char>>,
    Seq<char>,
) {
    (
        if cmd is None && shell.len() > 0 {
            shell
        } else {
            "/bin/sh"@
        },
        if cmd is Some {
            seq!["-c"@, cmd->0]
        } else {
            Seq::empty()
        },
        if term.len() == 0 {
            "xterm-256color"@
        } else {
            term
        },
    )
}

/// The command that an `Exec` asks for: a shell that runs the given text, or else the
/// login shell, which is `/bin/sh` where the environment names none. The terminal type
/// is `xterm-256color` where the client names none.
pub fn exec_command(cmd: Option<String>, shell: &str, term: &str) -> (r: Command)
    ensures
        (r.program@, wire::texts(r.args@), r.term@) == command_of(uri::said(cmd), shell@, term@),
        match cmd {
            Some(c) => {
                &&& r.program@ == "/bin/sh"@
                &&& wire::texts(r.args@) == seq!["-c"@, c@]
            },
            None => {
                &&& r.program@ == if shell@.len() == 0 {
                    "/bin/sh"@
                } else {
                    shell@
                }
                &&& r.args@.len() == 0
            },
        },
        r.term@ == if term@.len() == 0 {
            "xterm-256color"@
        } else {
            term@
        },
{
    let term = if term.is_empty() {
        String::from_str("xterm-256color")
    } else {
        String::from_str(term)
    };
    match cmd {
        Some(c) => {
            let mut args: Vec<String> = Vec::new();
            args.push(String::from_str("-c"));
            args.push(c);
            assert(wire::texts(args@) =~= seq!["-c"@, c@]);
            Command { program: String::from_str("/bin/sh"), args, term }
        },
        None => {
            let program = if shell.is_empty() {
                String::from_str("/bin/sh")
            } else {
                String::from_str(shell)
            };
            Command { program, args: Vec::new(), term }
        },
    }
}

// What holds of all messages.

/// What a session holds for one connection.
pub open spec fn connection<W, A, R, S>(s: SessionView<W, A, R, S>, id: u32) -> (
    Option<W>,
    Option<A>,
    Option<R>,
) {
    (session::at(s.writers, id), session::at(s.aborts, id), session::at(s.resizers, id))
}

/// A message for one connection leaves all others as they are, and no message adds a
/// connection or changes the stream by itself.
pub proof fn connections_are_independent<W, A, R, S>(
    s: SessionView<W, A, R, S>,
    m: MessageView,
    allow_exec: bool,
    allow_transfer: bool,
    other: u32,
)
    requires
        !(m matches MessageView::Close { conn_id } && conn_id == other),
        !(m matches MessageView::Abort { conn_id } && conn_id == other),
    ensures
        ({
            let after = handled(s, m, allow_exec, allow_transfer).0;
            connection(after, other) == connection(s, other) && after.sse == s.sse
        }),
{
}

/// A client that has finished sending keeps its connection: `Close` ends the sink and
/// nothing else.
pub proof fn close_ends_one_direction<W, A, R, S>(
    s: SessionView<W, A, R, S>,
    conn_id: u32,
    allow_exec: bool,
    allow_transfer: bool,
)
    ensures
        ({
            let after = handled(s, MessageView::Close { conn_id }, allow_exec, allow_transfer).0;
            &&& session::at(after.writers, conn_id) is None
            &&& session::at(after.aborts, conn_id) == session::at(s.aborts, conn_id)
            &&& session::at(after.resizers, conn_id) == session::at(s.resizers, conn_id)
        }),
{
}

/// A client that has given a connection up releases both directions: its sink is gone
/// and its signal is fired, once.
pub proof fn abort_releases_both_directions<W, A, R, S>(
    s: SessionView<W, A, R, S>,
    conn_id: u32,
    allow_exec: bool,
    allow_transfer: bool,
)
    ensures
        ({
            let m = MessageView::Abort { conn_id };
            let (after, action) = handled(s, m, allow_exec, allow_transfer);
            &&& session::at(after.writers, conn_id) is None
            &&& session::at(after.aborts, conn_id) is None
            &&& action == (ActionView::Stop { signal: session::at(s.aborts, conn_id) })
            &&& handled(after, m, allow_exec, allow_transfer) == (
                after,
                ActionView::<A>::Stop { signal: None },
            )
        }),
{
    let m = MessageView::Abort { conn_id };
    let after = handled(s, m, allow_exec, allow_transfer).0;
    assert(after.writers.remove(conn_id) =~= after.writers);
    assert(after.aborts.remove(conn_id) =~= after.aborts);
}

/// Where commands are switched off no message starts one, and where transfers are
/// switched off no message starts one: it is answered with an error for its
/// connection, and the session stays as it is.
pub proof fn what_is_switched_off_is_refused<W, A, R, S>(
    s: SessionView<W, A, R, S>,
    m: MessageView,
    allow_exec: bool,
    allow_transfer: bool,
)
    ensures
        ({
            let (after, action) = handled(s, m, allow_exec, allow_transfer);
            &&& !allow_exec ==> !(action is Exec)
            &&& !allow_transfer ==> !(action is Pull || action is Push)
            &&& m is Exec && !allow_exec ==> after == s && action is Answer
                && action->Answer_0 is Error
            &&& (m is Pull || m is Push) && !allow_transfer ==> after == s && action is Answer
                && action->Answer_0 is Error
        }),
{
}

/// A message asks for exactly what it says. A connection is for its host and port, bytes go
/// to its connection, a command is run as it is written in a terminal of its size and type,
/// an archive is packed of exactly its paths, in order and at its level, or unpacked at
/// exactly its path, and a size is that of its terminal; a ping is answered with a pong, and
/// what only the server sends asks for nothing.
pub proof fn messages_ask_for_what_they_say<W, A, R, S>(
    s: SessionView<W, A, R, S>,
    conn_id: u32,
    host: Seq<char>,
    port: u16,
    data: Seq<u8>,
    cmd: Option<Seq<char>>,
    cols: u16,
    rows: u16,
    term: Seq<char>,
    paths: Seq<Seq<char>>,
    level: i32,
    path: Seq<char>,
    allow_exec: bool,
    allow_transfer: bool,
)
    ensures
        handled(s, MessageView::Connect { conn_id, host, port }, allow_exec, allow_transfer) == (
            s,
            ActionView::<A>::Connect { conn_id, host, port },
        ),
        handled(s, MessageView::Data { conn_id, data }, allow_exec, allow_transfer) == (
            s,
            ActionView::<A>::Deliver { conn_id, data },
        ),
        handled(s, MessageView::Exec { conn_id, cmd, cols, rows, term }, true, allow_transfer) == (
            s,
            ActionView::<A>::Exec { conn_id, cmd, cols, rows, term },
        ),
        handled(s, MessageView::Resize { conn_id, cols, rows }, allow_exec, allow_transfer) == (
            s,
            ActionView::<A>::Resize { conn_id, cols, rows },
        ),
        handled(s, MessageView::Pull { conn_id, paths, level }, allow_exec, true) == (
            s,
            ActionView::<A>::Pull { conn_id, paths, level },
        ),
        handled(s, MessageView::Push { conn_id, path }, allow_exec, true) == (
            s,
            ActionView::<A>::Push { conn_id, path },
        ),
        handled(s, MessageView::Ping, allow_exec, allow_transfer) == (s, ActionView::<A>::Pong),
        handled(s, MessageView::Pong, allow_exec, allow_transfer) == (s, ActionView::<A>::Done),
        handled(s, MessageView::Reset, allow_exec, allow_transfer) == (s, ActionView::<A>::Done),
{
}

/// What is switched off is refused in words for the connection that asked.
pub proof fn refusals_say_why<W, A, R, S>(
    s: SessionView<W, A, R, S>,
    m: MessageView,
    conn_id: u32,
    allow_exec: bool,
    allow_transfer: bool,
)
    ensures
        ({
            let action = handled(s, m, allow_exec, allow_transfer).1;
            &&& !allow_exec && m is Exec && m->Exec_conn_id == conn_id ==> action
                == ActionView::<A>::Answer(
                MessageView::Error {
                    conn_id: Some(conn_id),
                    message: "remote exec is disabled on this server"@,
                },
            )
            &&& !allow_transfer && ((m is Pull && m->Pull_conn_id == conn_id) || (m is Push
                && m->Push_conn_id == conn_id)) ==> action == ActionView::<A>::Answer(
                MessageView::Error {
                    conn_id: Some(conn_id),
                    message: "file transfer is disabled on this server"@,
                },
            )
        }),
{
}

/// `Close` answers with nothing and takes the sink of its connection, and nothing else;
/// `Abort` takes the signal as well and fires it. Every other message leaves the session as
/// it is.
pub proof fn only_close_and_abort_change_a_session<W, A, R, S>(
    s: SessionView<W, A, R, S>,
    m: MessageView,
    conn_id: u32,
    allow_exec: bool,
    allow_transfer: bool,
)
    ensures
        ({
            let (after, action) = handled(s, m, allow_exec, allow_transfer);
            &&& m == (MessageView::Close { conn_id }) ==> {
                &&& after.writers == s.writers.remove(conn_id)
                &&& after.aborts == s.aborts
                &&& action == ActionView::<A>::Done
            }
            &&& m == (MessageView::Abort { conn_id }) ==> {
                &&& after.writers == s.writers.remove(conn_id)
                &&& after.aborts == s.aborts.remove(conn_id)
                &&& action is Stop
                &&& action->signal == (if s.aborts.contains_key(conn_id) {
                    Some(s.aborts[conn_id])
                } else {
                    None
                })
            }
            &&& after.resizers == s.resizers
            &&& after.sse == s.sse
            &&& !(m is Close) && !(m is Abort) ==> after == s
        }),
{
}

/// A request reaches a stream or a sink, the root or the probe only at its own address and
/// with its own method; below a prefix that is the prefix with the route behind it.
pub proof fn routes_have_one_address(prefix: Seq<char>, method: Method, path: Seq<char>)
    ensures
        match routed(prefix, method, path) {
            RouteView::Health => method == Method::Get && (path == "/health"@ || path == prefix
                + "/health"@),
            RouteView::Root => method == Method::Get && (path == "/"@ || path == prefix || path
                == prefix + "/"@),
            RouteView::Stream(id) => {
                &&& method == Method::Get
                &&& (prefix + "/stream/"@).is_prefix_of(path)
                &&& !"/stream/"@.is_prefix_of(id)
                &&& id.len() <= path.len()
                &&& id == path.skip(path.len() - id.len())
            },
            RouteView::Send(id) => {
                &&& method == Method::Post
                &&& (prefix + "/send/"@).is_prefix_of(path)
                &&& !"/send/"@.is_prefix_of(id)
                &&& id.len() <= path.len()
                &&& id == path.skip(path.len() - id.len())
            },
            RouteView::NotFound => {
                &&& method == Method::Get ==> path != "/health"@ && path != "/"@ && path != prefix
                    && path != prefix + "/"@ && path != prefix + "/health"@ && !(prefix
                    + "/stream/"@).is_prefix_of(path)
                &&& method == Method::Post ==> !(prefix + "/send/"@).is_prefix_of(path)
            },
        },
{
    reveal_strlit("/");
    reveal_strlit("/health");
    reveal_strlit("/stream/");
    reveal_strlit("/send/");
    let n = prefix.len() as int;
    if prefix.is_prefix_of(path) {
        let below = path.skip(n);
        assert(path =~= prefix + below) by {
            assert(prefix =~= path.subrange(0, n));
        }
        if below.len() == 0 {
            assert(path =~= prefix);
        }
        front_is_gone(below, "/stream/"@);
        front_is_gone(below, "/send/"@);
        below_the_prefix(prefix, below, "/stream/"@);
        below_the_prefix(prefix, below, "/send/"@);
        let id1 = without_front(below, "/stream/"@);
        let id2 = without_front(below, "/send/"@);
        assert(below.skip(below.len() - id1.len()) =~= path.skip(path.len() - id1.len()));
        assert(below.skip(below.len() - id2.len()) =~= path.skip(path.len() - id2.len()));
        assert(prefix.skip(n) =~= Seq::<char>::empty());
        assert((prefix + "/"@).skip(n) =~= "/"@);
        assert((prefix + "/health"@).skip(n) =~= "/health"@);
    } else {
        longer_prefix(prefix, "/stream/"@, path);
        longer_prefix(prefix, "/send/"@, path);
        assert(prefix.is_prefix_of(prefix)) by {
            assert(prefix =~= prefix.subrange(0, n));
        }
        assert(prefix.is_prefix_of(prefix + "/"@)) by {
            assert(prefix =~= (prefix + "/"@).subrange(0, n));
        }
        assert(prefix.is_prefix_of(prefix + "/health"@)) by {
            assert(prefix =~= (prefix + "/health"@).subrange(0, n));
        }
    }
}

proof fn longer_prefix(a: Seq<char>, b: Seq<char>, s: Seq<char>)
    ensures
        (a + b).is_prefix_of(s) ==> a.is_prefix_of(s),
{
    if (a + b).is_prefix_of(s) {
        let n = (a + b).len() as int;
        assert forall|i: int| 0 <= i < a.len() implies a[i] == s[i] by {
            assert((a + b)[i] == s.subrange(0, n)[i]);
        }
        assert(a =~= s.subrange(0, a.len() as int));
    }
}

proof fn below_the_prefix(prefix: Seq<char>, below: Seq<char>, front: Seq<char>)
    ensures
        front.is_prefix_of(below) <==> (prefix + front).is_prefix_of(prefix + below),
{
    let n = prefix.len() as int;
    let m = front.len() as int;
    let path = prefix + below;
    if front.is_prefix_of(below) {
        assert forall|i: int| 0 <= i < m implies front[i] == below[i] by {
            assert(front[i] == below.subrange(0, m)[i]);
        }
        assert(prefix + front =~= path.subrange(0, n + m));
    }
    if (prefix + front).is_prefix_of(path) {
        assert forall|i: int| 0 <= i < m implies front[i] == below[i] by {
            assert((prefix + front)[n + i] == path.subrange(0, n + m)[n + i]);
        }
        assert(front =~= below.subrange(0, m));
    }
}

proof fn front_is_gone(s: Seq<char>, front: Seq<char>)
    requires
        front.len() > 0,
    ensures
        ({
            let r = without_front(s, front);
            &&& r.len() <= s.len()
            &&& r == s.skip(s.len() - r.len())
            &&& !front.is_prefix_of(r)
        }),
    decreases s.len(),
{
    let r = without_front(s, front);
    if front.is_prefix_of(s) {
        let rest = s.skip(front.len() as int);
        front_is_gone(rest, front);
        assert(rest.skip(rest.len() - r.len()) =~= s.skip(s.len() - r.len()));
    } else {
        assert(s.skip(0) =~= s);
    }
}

/// What the root answers: a redirect wins over a file, a file over the health text. The
/// redirect names its address and nothing else; the file is sent as it is, as HTML; the
/// health text stands on a line of its own.
pub proof fn the_root_answers_in_order(
    redirect: Option<uri::UriView>,
    content: Option<Seq<char>>,
    health_body: Seq<char>,
)
    ensures
        ({
            let r = root_reply(redirect, content, health_body);
            &&& redirect is Some ==> {
                &&& r.status == 301
                &&& r.headers == seq![("Location"@, uri::uri_text(redirect->0))]
                &&& r.body.len() == 0
            }
            &&& redirect is None && content is Some ==> {
                &&& r.status == 200
                &&& r.headers == seq![("Content-Type"@, "text/html; charset=utf-8"@)]
                &&& r.body == vstd::utf8::encode_utf8(content->0)
            }
            &&& redirect is None && content is None ==> {
                &&& r.status == 200
                &&& r.headers.len() == 0
                &&& r.body == vstd::utf8::encode_utf8(health_body + "\n"@)
            }
        }),
{
}

/// A sealed answer is what the client opens: where the message is not too long, it has the
/// status 200, and a client with the key reads exactly that message out of its body.
pub proof fn sealed_answers_are_read(
    key: Seq<u8>,
    r: HttpReplyView,
    m: MessageView,
    read: MessageView,
)
    requires
        is_encrypted_reply(key, r, m),
        !envelope::too_long(m),
    ensures
        r.status == 200,
        r.headers == seq![("Content-Type"@, "application/octet-stream"@)],
        envelope::holds(key, r.body, read) <==> read == m,
{
    envelope::what_is_sealed_is_opened(key, r.body, m, read);
}

/// What failed is named in words.
pub proof fn failed_steps_are_named()
    ensures
        step_text(OpenStep::Connect) == "Connect failed: "@,
        step_text(OpenStep::OpenPty) == "openpty failed: "@,
        step_text(OpenStep::Spawn) == "spawn failed: "@,
        step_text(OpenStep::PtyWriter) == "pty writer failed: "@,
{
}

/// The headers of a stream keep everything between server and client from caching or
/// holding it back.
pub proof fn streams_are_not_held_back()
    ensures
        stream_header_view().contains(("Content-Type"@, "text/event-stream"@)),
        stream_header_view().contains(("Cache-Control"@, "no-cache"@)),
        stream_header_view().contains(("Connection"@, "keep-alive"@)),
        stream_header_view().contains(("X-Accel-Buffering"@, "no"@)),
        stream_header_view().len() == 4,
{
    let h = stream_header_view();
    assert(h[0] == ("Content-Type"@, "text/event-stream"@));
    assert(h[1] == ("Cache-Control"@, "no-cache"@));
    assert(h[2] == ("Connection"@, "keep-alive"@));
    assert(h[3] == ("X-Accel-Buffering"@, "no"@));
}

/// A plain answer holds its text and no header.
pub proof fn plain_answers_hold_their_text(status: u16, msg: Seq<char>)
    ensures
        plain(status, msg).status == status,
        plain(status, msg).headers.len() == 0,
        plain(status, msg).body == vstd::utf8::encode_utf8(msg),
        vstd::utf8::decode_utf8(plain(status, msg).body) == msg,
{
    vstd::utf8::encode_utf8_decode_utf8(msg);
}

/// A command is run by `/bin/sh -c`, whatever the login shell is, and as one argument. Without
/// one it is the login shell that runs, or `/bin/sh`, without arguments. The terminal type
/// depends on neither.
pub proof fn commands_run_in_a_shell(c: Seq<char>, shell: Seq<char>, term: Seq<char>)
    ensures
        command_of(Some(c), shell, term).0 == "/bin/sh"@,
        command_of(Some(c), shell, term).1 == seq!["-c"@, c],
        command_of(None, Seq::empty(), term).0 == "/bin/sh"@,
        shell.len() > 0 ==> command_of(None, shell, term).0 == shell,
        command_of(None, shell, term).1.len() == 0,
        term.len() > 0 ==> command_of(Some(c), shell, term).2 == term,
        command_of(Some(c), shell, Seq::empty()).2 == "xterm-256color"@,
        command_of(Some(c), shell, term).2 == command_of(None, shell, term).2,
{
}

/// What an action says is what it holds, field by field.
pub proof fn actions_say_their_fields<A>(
    conn_id: u32,
    text: String,
    maybe: Option<String>,
    list: Vec<String>,
    data: Vec<u8>,
    message: Message,
    signal: Option<A>,
    a: u16,
    b: u16,
    level: i32,
)
    ensures
        Action::<A>::Done@ == ActionView::<A>::Done,
        Action::<A>::Pong@ == ActionView::<A>::Pong,
        Action::<A>::Answer(message)@ == ActionView::<A>::Answer(message@),
        (Action::<A>::Connect { conn_id, host: text, port: a })@ == (ActionView::<A>::Connect {
            conn_id,
            host: text@,
            port: a,
        }),
        (Action::<A>::Deliver { conn_id, data })@ == (ActionView::<A>::Deliver {
            conn_id,
            data: data@,
        }),
        (Action::<A>::Stop { signal })@ == (ActionView::<A>::Stop { signal }),
        (Action::<A>::Exec { conn_id, cmd: maybe, cols: a, rows: b, term: text })@ == (
        ActionView::<A>::Exec { conn_id, cmd: uri::said(maybe), cols: a, rows: b, term: text@ }),
        (Action::<A>::Resize { conn_id, cols: a, rows: b })@ == (ActionView::<A>::Resize {
            conn_id,
            cols: a,
            rows: b,
        }),
        (Action::<A>::Pull { conn_id, paths: list, level })@ == (ActionView::<A>::Pull {
            conn_id,
            paths: list@.map_values(|s: String| s@),
            level,
        }),
        (Action::<A>::Push { conn_id, path: text })@ == (ActionView::<A>::Push {
            conn_id,
            path: text@,
        }),
{
}

} // verus!
