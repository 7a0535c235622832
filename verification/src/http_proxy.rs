//! The HTTP side of the local proxy: reading the head of a request, finding its
//! target, and rewriting it for the origin server.

use crate::text;
use crate::wire;
use vstd::prelude::*;

verus! {

broadcast use vstd::seq::group_seq_axioms;

/// A head that is not complete after this many bytes is refused.
pub const MAX_HEAD: usize = 16384;

/// The port of a CONNECT request, and of an `https` address, that names none.
pub const HTTPS_PORT: u16 = 443;

/// The port of an `http` address that names none.
pub const HTTP_PORT: u16 = 80;

/// Sent where the tunnel could not reach the target.
pub const BAD_GATEWAY: &'static str = "HTTP/1.1 502 Bad Gateway\r\n\r\n";

/// Sent once a CONNECT request has its tunnel.
pub const ESTABLISHED: &'static str = "HTTP/1.1 200 Connection Established\r\n\r\n";

/// Why a request was refused.
#[derive(Debug)]
pub enum HttpProxyError {
    HeadersTooLarge,
    NotUtf8,
    MissingUri,
    InvalidAuthorityPort(String),
    InvalidUriPort(String),
}

impl HttpProxyError {
    /// What the error says to a user.
    pub open spec fn text(&self) -> Seq<char> {
        match *self {
            HttpProxyError::HeadersTooLarge => "HTTP headers too large"@,
            HttpProxyError::NotUtf8 => "Non-UTF-8 in HTTP headers"@,
            HttpProxyError::MissingUri => "Missing HTTP URI"@,
            HttpProxyError::InvalidAuthorityPort(p) => "Invalid port in CONNECT authority: "@ + p@,
            HttpProxyError::InvalidUriPort(p) => "Invalid port in URI: "@ + p@,
        }
    }

    /// What the error says to a user.
    pub fn message(&self) -> (r: String)
        ensures
            r@ == self.text(),
    {
        match self {
            HttpProxyError::HeadersTooLarge => String::from_str("HTTP headers too large"),
            HttpProxyError::NotUtf8 => String::from_str("Non-UTF-8 in HTTP headers"),
            HttpProxyError::MissingUri => String::from_str("Missing HTTP URI"),
            HttpProxyError::InvalidAuthorityPort(p) => String::from_str(
                "Invalid port in CONNECT authority: ",
            ).concat(p.as_str()),
            HttpProxyError::InvalidUriPort(p) => String::from_str("Invalid port in URI: ").concat(
                p.as_str(),
            ),
        }
    }
}

// Reading the head.

/// The bytes end with an empty line.
pub open spec fn ends_head(b: Seq<u8>) -> bool {
    let n = b.len();
    n >= 4 && b[n - 4] == 13 && b[n - 3] == 10 && b[n - 2] == 13 && b[n - 1] == 10
}

/// What to do after a byte of the head.
#[derive(Debug, Clone, Copy, PartialEq, Eq, Structural)]
pub enum HeadStep {
    /// Read another byte.
    More,
    /// The head is complete.
    Complete,
    /// The head is too large.
    TooLarge,
}

/// Collects the head of a request byte by byte, so that nothing behind it is taken
/// from the stream.
#[derive(Debug)]
pub struct HeadReader {
    bytes: Vec<u8>,
}

impl View for HeadReader {
    type V = Seq<u8>;

    closed spec fn view(&self) -> Seq<u8> {
        self.bytes@
    }
}

impl HeadReader {
    /// The head goes on: no empty line yet, and not too large.
    pub open spec fn unfinished(&self) -> bool {
        &&& self@.len() <= MAX_HEAD
        &&& forall|n: int| 0 <= n <= self@.len() ==> !ends_head(#[trigger] self@.take(n))
    }

    pub fn new() -> (r: Self)
        ensures
            r@ == Seq::<u8>::empty(),
            r.unfinished(),
    {
        HeadReader { bytes: Vec::new() }
    }

    /// Takes the next byte. The head is complete at the first empty line; it is too
    /// large once it has more than 16384 bytes without one.
    pub fn push(&mut self, byte: u8) -> (r: HeadStep)
        requires
            old(self).unfinished(),
        ensures
            final(self)@ == old(self)@.push(byte),
            r == HeadStep::Complete <==> ends_head(final(self)@),
            r == HeadStep::TooLarge <==> !ends_head(final(self)@) && final(self)@.len() > MAX_HEAD,
            r == HeadStep::More <==> final(self).unfinished(),
            forall|n: int| 0 <= n < final(self)@.len() ==> !ends_head(#[trigger] final(self)@.take(n)),
    {
        let ghost before = self@;
        self.bytes.push(byte);
        let n: usize = self.bytes.len();
        proof {
            assert forall|k: int| 0 <= k < self@.len() implies !ends_head(
                #[trigger] self@.take(k),
            ) by {
                assert(self@.take(k) =~= before.take(k));
            }
            assert(self@.take(self@.len() as int) =~= self@);
        }
        if n >= 4 && self.bytes[n - 4] == 13 && self.bytes[n - 3] == 10 && self.bytes[n - 2] == 13
            && self.bytes[n - 1] == 10 {
            HeadStep::Complete
        } else if n > MAX_HEAD {
            HeadStep::TooLarge
        } else {
            HeadStep::More
        }
    }

    /// The bytes that were read.
    pub fn into_bytes(self) -> (r: Vec<u8>)
        ensures
            r@ == self@,
    {
        self.bytes
    }
}

// Taking the head apart.

/// The position of the first line end, or -1 where there is none.
pub open spec fn line_end(s: Seq<char>) -> int
    decreases s.len(),
{
    if s.len() < 2 {
        -1
    } else if s[0] == '\r' && s[1] == '\n' {
        0
    } else {
        let i = line_end(s.skip(1));
        if i < 0 {
            -1
        } else {
            i + 1
        }
    }
}

proof fn line_end_bounds(s: Seq<char>)
    ensures
        -1 <= line_end(s),
        line_end(s) + 2 <= s.len() || line_end(s) == -1,
    decreases s.len(),
{
    if s.len() >= 2 && !(s[0] == '\r' && s[1] == '\n') {
        line_end_bounds(s.skip(1));
    }
}

/// The lines of a text, without the line ends between them.
pub open spec fn lines(s: Seq<char>) -> Seq<Seq<char>>
    decreases s.len(),
{
    let i = line_end(s);
    if i < 0 || i + 2 > s.len() {
        seq![s]
    } else {
        seq![s.take(i)] + lines(s.skip(i + 2))
    }
}

/// The lines that are not empty.
pub open spec fn filled(ls: Seq<Seq<char>>) -> Seq<Seq<char>>
    decreases ls.len(),
{
    if ls.len() == 0 {
        ls
    } else if ls[0].len() == 0 {
        filled(ls.skip(1))
    } else {
        seq![ls[0]] + filled(ls.skip(1))
    }
}

/// The lines, each with a line end.
pub open spec fn header_block(ls: Seq<Seq<char>>) -> Seq<char>
    decreases ls.len(),
{
    if ls.len() == 0 {
        Seq::empty()
    } else {
        ls[0] + "\r\n"@ + header_block(ls.skip(1))
    }
}

/// The head of a request: its first line in three parts, and its header lines.
#[derive(Debug)]
pub struct RequestHead {
    pub method: String,
    pub uri: String,
    pub version: String,
    /// The header lines, without their line ends.
    pub headers: Vec<String>,
}

/// What a request head says.
#[verifier::ext_equal]
pub struct RequestHeadView {
    pub method: Seq<char>,
    pub uri: Seq<char>,
    pub version: Seq<char>,
    pub headers: Seq<Seq<char>>,
}

impl View for RequestHead {
    type V = RequestHeadView;

    open spec fn view(&self) -> RequestHeadView {
        RequestHeadView {
            method: self.method@,
            uri: self.uri@,
            version: self.version@,
            headers: wire::texts(self.headers@),
        }
    }
}

/// The request head in a text: the first line up to its first space, from there to
/// its second, and the rest, which is `HTTP/1.1` where there is none; then the header
/// lines. There is none where the first line has no space.
pub open spec fn request_head(s: Seq<char>) -> Option<RequestHeadView> {
    let ls = lines(s);
    let first = ls[0];
    let i = text::first_index(first, ' ');
    let rest = first.skip(i + 1);
    let j = text::first_index(rest, ' ');
    if i == first.len() {
        None
    } else {
        Some(
            RequestHeadView {
                method: first.take(i),
                uri: rest.take(j),
                version: if j == rest.len() {
                    "HTTP/1.1"@
                } else {
                    rest.skip(j + 1)
                },
                headers: filled(ls.skip(1)),
            },
        )
    }
}

fn find_line_end(s: &[char]) -> (r: Option<usize>)
    ensures
        match r {
            Some(i) => i == line_end(s@) && i + 2 <= s@.len(),
            None => line_end(s@) == -1,
        },
{
    let mut i: usize = 0;
    assert(s@.skip(0) =~= s@);
    while s.len() - i >= 2
        invariant
            i <= s@.len(),
            line_end(s@) == if line_end(s@.skip(i as int)) < 0 {
                -1
            } else {
                i + line_end(s@.skip(i as int))
            },
        decreases s@.len() - i,
    {
        if s[i] == '\r' && s[i + 1] == '\n' {
            return Some(i);
        }
        assert(s@.skip(i as int).skip(1) =~= s@.skip(i + 1));
        i += 1;
    }
    None
}

/// The lines of a text that are not empty.
fn collect_headers(s: &[char]) -> (r: Vec<String>)
    ensures
        wire::texts(r@) == filled(lines(s@)),
{
    let mut out: Vec<String> = Vec::new();
    let mut rest: &[char] = s;
    let mut done = false;
    assert(wire::texts(out@) + filled(lines(rest@)) =~= filled(lines(s@)));
    while !done
        invariant
            !done ==> wire::texts(out@) + filled(lines(rest@)) == filled(lines(s@)),
            done ==> wire::texts(out@) == filled(lines(s@)),
        decreases rest@.len() + (if done { 0int } else { 1 }),
    {
        let ghost ls = lines(rest@);
        let ghost before = wire::texts(out@);
        let size: usize = rest.len();
        proof {
            line_end_bounds(rest@);
        }
        let (line, next) = match find_line_end(rest) {
            Some(i) => {
                proof {
                    assert(ls.skip(1) =~= lines(rest@.skip(i + 2)));
                }
                (
                    vstd::slice::slice_subrange(rest, 0, i),
                    vstd::slice::slice_subrange(rest, i + 2, size),
                )
            },
            None => {
                proof {
                    assert(ls.skip(1) =~= Seq::<Seq<char>>::empty());
                }
                done = true;
                (rest, rest)
            },
        };
        assert(line@ =~= ls[0]);
        if line.len() > 0 {
            out.push(text::string_of(line));
            assert(wire::texts(out@) =~= before + seq![ls[0]]);
        }
        proof {
            assert(wire::texts(out@) + filled(ls.skip(1)) =~= before + filled(ls));
            if done {
                assert(wire::texts(out@) + filled(ls.skip(1)) =~= wire::texts(out@));
            }
        }
        rest = next;
    }
    out
}

/// Takes the head of a request apart. Bytes that are no UTF-8, or a first line
/// without a space, are refused.
pub fn parse_head(head: Vec<u8>) -> (r: Result<RequestHead, HttpProxyError>)
    ensures
        match r {
            Ok(h) => {
                &&& vstd::utf8::valid_utf8(head@)
                &&& request_head(vstd::utf8::decode_utf8(head@)) == Some(h@)
            },
            Err(HttpProxyError::NotUtf8) => !vstd::utf8::valid_utf8(head@),
            Err(HttpProxyError::MissingUri) => {
                &&& vstd::utf8::valid_utf8(head@)
                &&& request_head(vstd::utf8::decode_utf8(head@)) is None
            },
            Err(_) => false,
        },
{
    match text::utf8_text(head) {
        Err(_) => Err(HttpProxyError::NotUtf8),
        Ok(s) => match parse_head_text(s.as_str()) {
            Some(h) => Ok(h),
            None => Err(HttpProxyError::MissingUri),
        },
    }
}

/// Takes the text of a request head apart.
pub fn parse_head_text(s: &str) -> (r: Option<RequestHead>)
    ensures
        match r {
            Some(h) => request_head(s@) == Some(h@),
            None => request_head(s@) is None,
        },
{
    let all = text::chars_of(s);
    let chars: &[char] = all.as_slice();
    let len: usize = chars.len();
    proof {
        line_end_bounds(chars@);
    }
    let (first, headers) = match find_line_end(chars) {
        Some(i) => {
            proof {
                assert(lines(chars@).skip(1) =~= lines(chars@.skip(i + 2)));
            }
            let h = collect_headers(vstd::slice::slice_subrange(chars, i + 2, len));
            (vstd::slice::slice_subrange(chars, 0, i), h)
        },
        None => {
            proof {
                assert(lines(chars@).skip(1) =~= Seq::<Seq<char>>::empty());
            }
            let h: Vec<String> = Vec::new();
            assert(wire::texts(h@) =~= filled(lines(chars@).skip(1)));
            (chars, h)
        },
    };
    assert(first@ =~= lines(chars@)[0]);
    let size: usize = first.len();
    let i: usize = match text::find(first, ' ') {
        Some(i) => i,
        None => {
            return None;
        },
    };
    let rest = vstd::slice::slice_subrange(first, i + 1, size);
    let rest_size: usize = rest.len();
    let method = text::string_of(vstd::slice::slice_subrange(first, 0, i));
    match text::find(rest, ' ') {
        Some(j) => {
            let uri = text::string_of(vstd::slice::slice_subrange(rest, 0, j));
            let version = text::string_of(vstd::slice::slice_subrange(rest, j + 1, rest_size));
            Some(RequestHead { method, uri, version, headers })
        },
        None => {
            let uri = text::string_of(rest);
            proof {
                assert(rest@.take(rest@.len() as int) =~= rest@);
            }
            Some(RequestHead { method, uri, version: String::from_str("HTTP/1.1"), headers })
        },
    }
}

// Finding the target.

/// The host and port in `host:port`, split at the last colon, or the whole text with
/// the default port where there is no colon. There is none where what follows the
/// colon is no port.
pub open spec fn host_port(s: Seq<char>, default_port: u16) -> Option<(Seq<char>, u16)> {
    let i = text::last_index(s, ':');
    let port = text::number(s.skip(i + 1));
    if i < 0 {
        Some((s, default_port))
    } else if port is Some && port->0 <= u16::MAX {
        Some((s.take(i), port->0 as u16))
    } else {
        None
    }
}

/// What stands behind the last colon.
pub open spec fn port_text(s: Seq<char>) -> Seq<char> {
    s.skip(text::last_index(s, ':') + 1)
}

/// An address without its scheme, and whether that was `https`.
pub open spec fn without_scheme(uri: Seq<char>) -> (Seq<char>, bool) {
    if "https://"@.is_prefix_of(uri) {
        (uri.skip("https://"@.len() as int), true)
    } else if "http://"@.is_prefix_of(uri) {
        (uri.skip("http://"@.len() as int), false)
    } else {
        (uri, false)
    }
}

/// The part of an address that names host and port.
pub open spec fn uri_authority(uri: Seq<char>) -> Seq<char> {
    let rest = without_scheme(uri).0;
    rest.take(text::first_index(rest, '/'))
}

/// Host, port and path of an absolute address: what stands between the scheme and the
/// first slash, and the address from that slash on. Without a slash the path is `/`;
/// without a port it is that of the scheme, where `http` is assumed.
pub open spec fn http_uri(uri: Seq<char>) -> Option<(Seq<char>, u16, Seq<char>)> {
    let (rest, secure) = without_scheme(uri);
    let slash = text::first_index(rest, '/');
    let path = if slash == rest.len() {
        "/"@
    } else {
        rest.skip(slash)
    };
    match host_port(
        uri_authority(uri),
        if secure {
            HTTPS_PORT
        } else {
            HTTP_PORT
        },
    ) {
        Some((host, port)) => Some((host, port, path)),
        None => None,
    }
}

/// Splits `host:port`; hands back what stands where the port should be if it is none.
fn split_host_port(s: &[char], default_port: u16) -> (r: Result<(String, u16), String>)
    ensures
        match r {
            Ok((host, port)) => host_port(s@, default_port) == Some((host@, port)),
            Err(p) => host_port(s@, default_port) is None && p@ == port_text(s@),
        },
{
    let size: usize = s.len();
    match text::find_last(s, ':') {
        None => Ok((text::string_of(s), default_port)),
        Some(i) => {
            let port = vstd::slice::slice_subrange(s, i + 1, size);
            match text::parse_u16(port) {
                Some(p) => Ok((text::string_of(vstd::slice::slice_subrange(s, 0, i)), p)),
                None => Err(text::string_of(port)),
            }
        },
    }
}

/// Parse `host:port` from a CONNECT authority. Defaults to port 443.
pub fn parse_authority(authority: &str) -> (r: Result<(String, u16), HttpProxyError>)
    ensures
        match r {
            Ok((host, port)) => host_port(authority@, HTTPS_PORT) == Some((host@, port)),
            Err(HttpProxyError::InvalidAuthorityPort(p)) => {
                &&& host_port(authority@, HTTPS_PORT) is None
                &&& p@ == port_text(authority@)
            },
            Err(_) => false,
        },
{
    let chars = text::chars_of(authority);
    match split_host_port(chars.as_slice(), HTTPS_PORT) {
        Ok(x) => Ok(x),
        Err(p) => Err(HttpProxyError::InvalidAuthorityPort(p)),
    }
}

/// Parse `http://host:port/path` into (host, port, path). Defaults to port 80 for
/// `http://` and 443 for `https://`.
pub fn parse_http_uri(uri: &str) -> (r: Result<(String, u16, String), HttpProxyError>)
    ensures
        match r {
            Ok((host, port, path)) => http_uri(uri@) == Some((host@, port, path@)),
            Err(HttpProxyError::InvalidUriPort(p)) => {
                &&& http_uri(uri@) is None
                &&& p@ == port_text(uri_authority(uri@))
            },
            Err(_) => false,
        },
{
    let chars = text::chars_of(uri);
    let (default_port, rest) = match text::strip_prefix(chars.as_slice(), "https://") {
        Some(rest) => (HTTPS_PORT, rest),
        None => match text::strip_prefix(chars.as_slice(), "http://") {
            Some(rest) => (HTTP_PORT, rest),
            None => (HTTP_PORT, chars.as_slice()),
        },
    };
    let (authority, path) = match text::find(rest, '/') {
        Some(i) => (
            vstd::slice::slice_subrange(rest, 0, i),
            text::string_of(vstd::slice::slice_subrange(rest, i, rest.len())),
        ),
        None => {
            proof {
                assert(rest@.take(rest@.len() as int) =~= rest@);
            }
            (rest, String::from_str("/"))
        },
    };
    match split_host_port(authority, default_port) {
        Ok((host, port)) => Ok((host, port, path)),
        Err(p) => Err(HttpProxyError::InvalidUriPort(p)),
    }
}

/// A host and a port written as `host:port` are read back, whatever the host.
pub proof fn host_port_round_trip(host: Seq<char>, port: u16, default_port: u16)
    ensures
        host_port(host + seq![':'] + text::decimal(port as nat), default_port) == Some(
            (host, port),
        ),
{
    let digits = text::decimal(port as nat);
    let s = host + seq![':'] + digits;
    text::number_of_decimal(port as nat);
    text::last_index_is_last(s, ':');
    let i = text::last_index(s, ':');
    assert(s[host.len() as int] == ':');
    assert(i >= host.len());
    if i > host.len() {
        assert(s[i] == digits[i - host.len() - 1]);
    }
    assert(s.take(i) =~= host);
    assert(s.skip(i + 1) =~= digits);
}

/// An authority without a colon gets the default port.
pub proof fn host_without_port(host: Seq<char>, default_port: u16)
    requires
        !host.contains(':'),
    ensures
        host_port(host, default_port) == Some((host, default_port)),
{
    text::last_index_is_last(host, ':');
}

// What to do with a request.

/// What a request asks of the proxy.
#[derive(Debug)]
pub enum Plan {
    /// Open a tunnel to the target and say so.
    Connect { host: String, port: u16 },
    /// Open a tunnel to the target and send it the rewritten request.
    Forward { host: String, port: u16, request: Vec<u8> },
}

/// The name of the field in a header line, in small letters.
pub open spec fn field_name(line: Seq<char>) -> Seq<char> {
    text::lower(line.take(text::first_index(line, ':')))
}

/// The header line concerns the connection to the proxy and nothing behind it: it has one
/// of the names that are always meant for the next hop. What a `Connection` line lists goes
/// on.
///
/// `Transfer-Encoding` is not among them: the body goes on in the framing in which it
/// came, so the origin server has to know that framing.
pub open spec fn is_hop_by_hop(line: Seq<char>) -> bool {
    let name = field_name(line);
    ||| name == "connection"@
    ||| name == "keep-alive"@
    ||| name == "proxy-authenticate"@
    ||| name == "proxy-authorization"@
    ||| name == "proxy-connection"@
    ||| name == "te"@
    ||| name == "trailer"@
    ||| name == "upgrade"@
}

/// The header lines that go on to the origin server, in their order.
pub open spec fn end_to_end(headers: Seq<Seq<char>>) -> Seq<Seq<char>>
    decreases headers.len(),
{
    if headers.len() == 0 {
        headers
    } else if is_hop_by_hop(headers[0]) {
        end_to_end(headers.skip(1))
    } else {
        seq![headers[0]] + end_to_end(headers.skip(1))
    }
}

/// The request for the origin server: the path in place of the absolute address, and no
/// header line about the connection to the proxy.
pub open spec fn origin_request(head: RequestHeadView, path: Seq<char>) -> Seq<char> {
    head.method + " "@ + path + " "@ + head.version + "\r\n"@ + header_block(
        end_to_end(head.headers),
    ) + "\r\n"@
}

fn is_named(name: &[char], t: &str) -> (r: bool)
    ensures
        r == (name@ == t@),
{
    text::same(name, text::chars_of(t).as_slice())
}

fn hop_by_hop(line: &str) -> (r: bool)
    ensures
        r == is_hop_by_hop(line@),
{
    let chars = text::chars_of(line);
    let end: usize = match text::find(chars.as_slice(), ':') {
        Some(i) => i,
        None => chars.len(),
    };
    let lower = text::lower_of(vstd::slice::slice_subrange(chars.as_slice(), 0, end));
    let name: &[char] = lower.as_slice();
    is_named(name, "connection") || is_named(name, "keep-alive") || is_named(
        name,
        "proxy-authenticate",
    ) || is_named(name, "proxy-authorization") || is_named(name, "proxy-connection") || is_named(
        name,
        "te",
    ) || is_named(name, "trailer") || is_named(name, "upgrade")
}

/// The header lines for the origin server, each with a line end.
fn origin_headers(headers: &Vec<String>) -> (r: String)
    ensures
        r@ == header_block(end_to_end(wire::texts(headers@))),
{
    let ghost all = wire::texts(headers@);
    let ghost whole = header_block(end_to_end(all));
    let mut out = String::new();
    let mut i: usize = 0;
    assert(all.skip(0) =~= all);
    assert(out@ + whole =~= whole);
    while i < headers.len()
        invariant
            i <= headers@.len(),
            all == wire::texts(headers@),
            out@ + header_block(end_to_end(all.skip(i as int))) == whole,
        decreases headers@.len() - i,
    {
        let ghost rest = all.skip(i as int);
        let ghost before = out@;
        assert(rest[0] == headers@[i as int]@);
        assert(rest.skip(1) =~= all.skip(i + 1));
        if !hop_by_hop(headers[i].as_str()) {
            out.append(headers[i].as_str());
            out.append("\r\n");
            proof {
                let later = end_to_end(rest.skip(1));
                assert((seq![rest[0]] + later).skip(1) =~= later);
                assert(out@ + header_block(later) =~= before + header_block(end_to_end(rest)));
            }
        }
        i += 1;
    }
    assert(all.skip(i as int) =~= Seq::<Seq<char>>::empty());
    assert(out@ =~= whole);
    out
}

/// The method is CONNECT, in capital or small letters.
pub open spec fn is_connect(method: Seq<char>) -> bool {
    text::lower(method) == "connect"@
}

/// Decides what to do with a request: CONNECT opens a tunnel to the authority that it
/// names; everything else goes, rewritten, to the host in its address.
pub fn plan(head: &RequestHead) -> (r: Result<Plan, HttpProxyError>)
    ensures
        match r {
            Ok(Plan::Connect { host, port }) => {
                &&& is_connect(head.method@)
                &&& host_port(head.uri@, HTTPS_PORT) == Some((host@, port))
            },
            Ok(Plan::Forward { host, port, request }) => {
                &&& !is_connect(head.method@)
                &&& http_uri(head.uri@) is Some
                &&& ({
                    let target = http_uri(head.uri@)->0;
                    &&& target.0 == host@
                    &&& target.1 == port
                    &&& request@ == vstd::utf8::encode_utf8(origin_request(head@, target.2))
                })
            },
            Err(HttpProxyError::InvalidAuthorityPort(p)) => {
                &&& is_connect(head.method@)
                &&& host_port(head.uri@, HTTPS_PORT) is None
                &&& p@ == port_text(head.uri@)
            },
            Err(HttpProxyError::InvalidUriPort(p)) => {
                &&& !is_connect(head.method@)
                &&& http_uri(head.uri@) is None
                &&& p@ == port_text(uri_authority(head.uri@))
            },
            Err(_) => false,
        },
{
    let method = text::lower_of(text::chars_of(head.method.as_str()).as_slice());
    let connect = text::chars_of("connect");
    if text::same(method.as_slice(), connect.as_slice()) {
        match parse_authority(head.uri.as_str()) {
            Ok((host, port)) => Ok(Plan::Connect { host, port }),
            Err(e) => Err(e),
        }
    } else {
        match parse_http_uri(head.uri.as_str()) {
            Ok((host, port, path)) => {
                let mut line = String::new();
                line.append(head.method.as_str());
                line.append(" ");
                line.append(path.as_str());
                line.append(" ");
                line.append(head.version.as_str());
                line.append("\r\n");
                line.append(origin_headers(&head.headers).as_str());
                line.append("\r\n");
                assert(line@ =~= origin_request(head@, path@));
                let mut request: Vec<u8> = Vec::new();
                request.extend_from_slice(line.as_str().as_bytes());
                assert(request@ =~= vstd::utf8::encode_utf8(line@));
                Ok(Plan::Forward { host, port, request })
            },
            Err(e) => Err(e),
        }
    }
}

// What holds of all requests.

/// A text within a line.
pub open spec fn one_line(s: Seq<char>) -> bool {
    !s.contains('\r')
}

proof fn line_ends_there(line: Seq<char>, rest: Seq<char>)
    requires
        one_line(line),
    ensures
        line_end(line + "\r\n"@ + rest) == line.len(),
        lines(line + "\r\n"@ + rest) == seq![line] + lines(rest),
    decreases line.len(),
{
    reveal_strlit("\r\n");
    let s = line + "\r\n"@ + rest;
    if line.len() > 0 {
        assert(line.contains(line[0]));
        assert forall|c: char| line.skip(1).contains(c) implies line.contains(c) by {
            let i = choose|i: int| 0 <= i < line.skip(1).len() && line.skip(1)[i] == c;
            assert(line[i + 1] == c);
        }
        line_ends_there(line.skip(1), rest);
        assert(s.skip(1) =~= line.skip(1) + "\r\n"@ + rest);
        assert(s[0] == line[0]);
    } else {
        assert(s[0] == '\r' && s[1] == '\n');
    }
    let n = line.len() as int;
    assert(s.take(n) =~= line);
    assert(s.skip(n + 2) =~= rest);
}

proof fn block_is_read_back(headers: Seq<Seq<char>>)
    requires
        forall|i: int|
            0 <= i < headers.len() ==> (#[trigger] headers[i]).len() > 0 && one_line(headers[i]),
    ensures
        filled(lines(header_block(headers) + "\r\n"@)) == headers,
    decreases headers.len(),
{
    reveal_strlit("\r\n");
    let none = Seq::<char>::empty();
    if headers.len() == 0 {
        let text = header_block(headers) + "\r\n"@;
        line_ends_there(none, none);
        assert(text =~= none + "\r\n"@ + none);
        assert(lines(none) =~= seq![none]);
        let ls = seq![none] + seq![none];
        assert(ls.skip(1) =~= seq![none]);
        assert(seq![none].skip(1) =~= Seq::<Seq<char>>::empty());
        reveal_with_fuel(filled, 3);
        assert(filled(ls) =~= headers);
    } else {
        let first = headers[0];
        let rest = headers.skip(1);
        assert forall|i: int| 0 <= i < rest.len() implies (#[trigger] rest[i]).len() > 0
            && one_line(rest[i]) by {
            assert(rest[i] == headers[i + 1]);
        }
        block_is_read_back(rest);
        let later = header_block(rest) + "\r\n"@;
        line_ends_there(first, later);
        assert(header_block(headers) + "\r\n"@ =~= first + "\r\n"@ + later);
        let ls = seq![first] + lines(later);
        assert(ls.skip(1) =~= lines(later));
        assert(filled(ls) =~= headers);
    }
}

/// The text of a request head with the given parts.
pub open spec fn head_text(
    method: Seq<char>,
    address: Seq<char>,
    version: Seq<char>,
    headers: Seq<Seq<char>>,
) -> Seq<char> {
    method + " "@ + address + " "@ + version + "\r\n"@ + header_block(headers) + "\r\n"@
}

/// The head of a request is taken apart into the parts that it was put together from, and
/// what the origin server gets differs from it in nothing but the address and the header
/// lines about the connection to the proxy: method, version and all other header lines are
/// the same, in the same order and the same letters.
pub proof fn only_address_and_hop_change(
    method: Seq<char>,
    address: Seq<char>,
    version: Seq<char>,
    headers: Seq<Seq<char>>,
    path: Seq<char>,
)
    requires
        one_line(method) && !method.contains(' '),
        one_line(address) && !address.contains(' '),
        one_line(version),
        forall|i: int|
            0 <= i < headers.len() ==> (#[trigger] headers[i]).len() > 0 && one_line(headers[i]),
    ensures
        ({
            let head = RequestHeadView { method, uri: address, version, headers };
            &&& request_head(head_text(method, address, version, headers)) == Some(head)
            &&& origin_request(head, path) == head_text(method, path, version, end_to_end(headers))
        }),
{
    reveal_strlit(" ");
    let first = method + " "@ + address + " "@ + version;
    let block = header_block(headers) + "\r\n"@;
    let text = head_text(method, address, version, headers);
    assert(text =~= first + "\r\n"@ + block);
    assert(one_line(first)) by {
        if first.contains('\r') {
            let i = choose|i: int| 0 <= i < first.len() && first[i] == '\r';
            let m = method.len();
            let a = address.len();
            if i < m {
                assert(method.contains(method[i]));
            } else if i == m || i == m + 1 + a {
            } else if i < m + 1 + a {
                assert(address.contains(address[i - m - 1]));
            } else {
                assert(version.contains(version[i - m - a - 2]));
            }
        }
    }
    line_ends_there(first, block);
    let ls = lines(text);
    assert(ls[0] == first);
    assert(ls.skip(1) =~= lines(block));
    block_is_read_back(headers);
    let rest = address + " "@ + version;
    text::first_index_is_first(first, ' ');
    text::first_index_is_first(rest, ' ');
    let i = text::first_index(first, ' ');
    assert(first[method.len() as int] == ' ');
    if i < method.len() {
        assert(method.contains(method[i]));
    }
    assert(first.take(i) =~= method);
    assert(first.skip(i + 1) =~= rest);
    let j = text::first_index(rest, ' ');
    assert(rest[address.len() as int] == ' ');
    if j < address.len() {
        assert(address.contains(address[j]));
    }
    assert(rest.take(j) =~= address);
    assert(rest.skip(j + 1) =~= version);
    let head = RequestHeadView { method, uri: address, version, headers };
    assert(origin_request(head, path) =~= head_text(method, path, version, end_to_end(headers)));
}

/// A header line goes on to the origin server exactly where it does not concern the
/// connection to the proxy.
pub proof fn hop_by_hop_lines_stay(headers: Seq<Seq<char>>, line: Seq<char>)
    ensures
        end_to_end(headers).contains(line) <==> headers.contains(line) && !is_hop_by_hop(line),
    decreases headers.len(),
{
    if headers.len() > 0 {
        let first = headers[0];
        let rest = headers.skip(1);
        hop_by_hop_lines_stay(rest, line);
        assert(headers =~= seq![first] + rest);
        first_or_later(first, rest, line);
        first_or_later(first, end_to_end(rest), line);
    }
}

proof fn first_or_later(first: Seq<char>, rest: Seq<Seq<char>>, line: Seq<char>)
    ensures
        (seq![first] + rest).contains(line) <==> line == first || rest.contains(line),
{
    let all = seq![first] + rest;
    if all.contains(line) {
        let i = choose|i: int| 0 <= i < all.len() && all[i] == line;
        if i > 0 {
            assert(rest[i - 1] == line);
        }
    }
    if line == first {
        assert(all[0] == line);
    }
    if rest.contains(line) {
        let i = choose|i: int| 0 <= i < rest.len() && rest[i] == line;
        assert(all[i + 1] == line);
    }
}

/// An absolute address is taken apart into the host, the port and the path that it was put
/// together from; without a port it has that of its scheme.
pub proof fn addresses_are_taken_apart(
    secure: bool,
    host: Seq<char>,
    port: Option<u16>,
    path: Seq<char>,
)
    requires
        !host.contains('/'),
        port is None ==> !host.contains(':'),
        path.len() > 0 && path[0] == '/',
    ensures
        ({
            let scheme = if secure {
                "https://"@
            } else {
                "http://"@
            };
            let authority = match port {
                Some(p) => host + seq![':'] + text::decimal(p as nat),
                None => host,
            };
            http_uri(scheme + authority + path) == Some(
                (
                    host,
                    match port {
                        Some(p) => p,
                        None => if secure {
                            HTTPS_PORT
                        } else {
                            HTTP_PORT
                        },
                    },
                    path,
                ),
            )
        }),
{
    reveal_strlit("https://");
    reveal_strlit("http://");
    let scheme = if secure {
        "https://"@
    } else {
        "http://"@
    };
    let authority = match port {
        Some(p) => host + seq![':'] + text::decimal(p as nat),
        None => host,
    };
    let address = scheme + authority + path;
    let rest = authority + path;
    let default_port = if secure {
        HTTPS_PORT
    } else {
        HTTP_PORT
    };
    assert(scheme.is_prefix_of(address)) by {
        assert(scheme =~= address.subrange(0, scheme.len() as int));
    }
    assert(address.skip(scheme.len() as int) =~= rest);
    if !secure {
        assert(!"https://"@.is_prefix_of(address)) by {
            if "https://"@.is_prefix_of(address) {
                assert(address.subrange(0, 8)[4] == "https://"@[4]);
                assert(address[4] == scheme[4]);
            }
        }
    }
    match port {
        Some(p) => {
            host_port_round_trip(host, p, default_port);
            text::number_of_decimal(p as nat);
        },
        None => {
            host_without_port(host, default_port);
        },
    }
    text::first_index_is_first(rest, '/');
    let slash = text::first_index(rest, '/');
    assert(rest[authority.len() as int] == '/');
    if slash < authority.len() {
        assert(authority[slash] == '/');
        if slash < host.len() {
            assert(host.contains(host[slash]));
        } else if slash > host.len() {
            let digits = text::decimal(port->0 as nat);
            assert(authority[slash] == digits[slash - host.len() - 1]);
        }
    }
    assert(rest.take(slash) =~= authority);
    assert(rest.skip(slash) =~= path);
}

/// A header line is kept from the origin server exactly where the name before its colon is,
/// in any letter case, one of the eight that concern the connection to the proxy. Every
/// other line, such as one about the body, goes on.
pub proof fn eight_names_stay(headers: Seq<Seq<char>>, name: Seq<char>, value: Seq<char>)
    requires
        !name.contains(':'),
        headers.contains(name + seq![':'] + value),
    ensures
        !end_to_end(headers).contains(name + seq![':'] + value) <==> set![
            "connection"@,
            "keep-alive"@,
            "proxy-authenticate"@,
            "proxy-authorization"@,
            "proxy-connection"@,
            "te"@,
            "trailer"@,
            "upgrade"@,
        ].contains(text::lower(name)),
{
    let line = name + seq![':'] + value;
    name_before_colon(name, value);
    hop_by_hop_lines_stay(headers, line);
}

proof fn name_before_colon(name: Seq<char>, value: Seq<char>)
    requires
        !name.contains(':'),
    ensures
        field_name(name + seq![':'] + value) == text::lower(name),
{
    let line = name + seq![':'] + value;
    text::first_index_is_first(line, ':');
    let i = text::first_index(line, ':');
    assert(line[name.len() as int] == ':');
    if i < name.len() {
        assert(name.contains(name[i]));
    }
    assert(line.take(i) =~= name);
}

/// Lines about what is sent rather than about the connection always go on: whose they are,
/// how long the body is, what it holds and how it is framed.
pub proof fn lines_about_the_message_go_on(
    headers: Seq<Seq<char>>,
    name: Seq<char>,
    value: Seq<char>,
)
    requires
        !name.contains(':'),
        headers.contains(name + seq![':'] + value),
        set![
            "host"@,
            "content-length"@,
            "content-type"@,
            "transfer-encoding"@,
            "expect"@,
            "authorization"@,
            "cookie"@,
        ].contains(text::lower(name)),
    ensures
        end_to_end(headers).contains(name + seq![':'] + value),
{
    eight_names_stay(headers, name, value);
    let l = text::lower(name);
    reveal_strlit("host");
    reveal_strlit("content-length");
    reveal_strlit("content-type");
    reveal_strlit("transfer-encoding");
    reveal_strlit("expect");
    reveal_strlit("authorization");
    reveal_strlit("cookie");
    reveal_strlit("connection");
    reveal_strlit("keep-alive");
    reveal_strlit("proxy-authenticate");
    reveal_strlit("proxy-authorization");
    reveal_strlit("proxy-connection");
    reveal_strlit("te");
    reveal_strlit("trailer");
    reveal_strlit("upgrade");
    assert(l.len() == 4 || l.len() == 6 || l.len() == 12 || l.len() == 13 || l.len() == 14
        || l.len() == 17);
}

/// The lines that go on keep their order and their number: those of two lists, one after the
/// other, are those of the first and then those of the second.
pub proof fn header_order_is_kept(a: Seq<Seq<char>>, b: Seq<Seq<char>>)
    ensures
        end_to_end(a + b) == end_to_end(a) + end_to_end(b),
        header_block(a + b) == header_block(a) + header_block(b),
        filled(a + b) == filled(a) + filled(b),
    decreases a.len(),
{
    if a.len() == 0 {
        assert(a + b =~= b);
        assert(end_to_end(a) + end_to_end(b) =~= end_to_end(b));
        assert(header_block(a) + header_block(b) =~= header_block(b));
        assert(filled(a) + filled(b) =~= filled(b));
    } else {
        assert((a + b).skip(1) =~= a.skip(1) + b);
        assert((a + b)[0] == a[0]);
        header_order_is_kept(a.skip(1), b);
        assert(end_to_end(a + b) =~= end_to_end(a) + end_to_end(b));
        assert(header_block(a + b) =~= header_block(a) + header_block(b));
        assert(filled(a + b) =~= filled(a) + filled(b));
    }
}

/// A single line: it goes on as it is, or not at all; in a request it ends with a line end.
pub proof fn lines_go_on_whole(line: Seq<char>)
    ensures
        end_to_end(seq![line]) == seq![line] || end_to_end(seq![line]).len() == 0,
        header_block(seq![line]) == line + "\r\n"@,
        line.len() > 0 ==> filled(seq![line]) == seq![line],
        line.len() == 0 ==> filled(seq![line]).len() == 0,
{
    let none = Seq::<Seq<char>>::empty();
    assert(seq![line].skip(1) =~= none);
    reveal_with_fuel(end_to_end, 2);
    reveal_with_fuel(header_block, 2);
    reveal_with_fuel(filled, 2);
    assert(seq![line] + none =~= seq![line]);
    assert(line + "\r\n"@ + Seq::<char>::empty() =~= line + "\r\n"@);
}

/// A request for the origin server starts with the method, the path and the version, and
/// ends with an empty line; the header lines stand between.
pub proof fn requests_have_three_parts(head: RequestHeadView, path: Seq<char>)
    ensures
        ({
            let line = head.method + " "@ + path + " "@ + head.version + "\r\n"@;
            let r = origin_request(head, path);
            let n = line.len() as int;
            &&& line.is_prefix_of(r)
            &&& r.len() >= n + 2
            &&& r.skip(r.len() - 2) == "\r\n"@
            &&& r.subrange(n, r.len() - 2) == header_block(end_to_end(head.headers))
        }),
{
    reveal_strlit("\r\n");
    let line = head.method + " "@ + path + " "@ + head.version + "\r\n"@;
    let r = origin_request(head, path);
    let n = line.len() as int;
    assert(line =~= r.subrange(0, n));
    assert(r.skip(r.len() - 2) =~= "\r\n"@);
    assert(r.subrange(n, r.len() - 2) =~= header_block(end_to_end(head.headers)));
}

/// A first line of two parts stands for version 1.1, and one without a space for no request.
pub proof fn short_first_lines(method: Seq<char>, address: Seq<char>, rest: Seq<char>)
    requires
        one_line(method) && !method.contains(' '),
        one_line(address) && !address.contains(' '),
    ensures
        request_head(method + "\r\n"@ + rest) is None,
        ({
            let r = request_head(method + " "@ + address + "\r\n"@ + rest);
            &&& r is Some
            &&& r->0.method == method
            &&& r->0.uri == address
            &&& r->0.version == "HTTP/1.1"@
            &&& r->0.headers == filled(lines(rest))
        }),
{
    reveal_strlit(" ");
    line_ends_there(method, rest);
    text::first_index_is_first(method, ' ');
    if text::first_index(method, ' ') < method.len() {
        assert(method.contains(method[text::first_index(method, ' ')]));
    }
    let first = method + " "@ + address;
    assert(one_line(first)) by {
        if first.contains('\r') {
            let i = choose|i: int| 0 <= i < first.len() && first[i] == '\r';
            if i < method.len() {
                assert(method.contains(method[i]));
            } else if i > method.len() {
                assert(address.contains(address[i - method.len() - 1]));
            }
        }
    }
    line_ends_there(first, rest);
    let ls = lines(first + "\r\n"@ + rest);
    assert(ls.skip(1) =~= lines(rest));
    text::first_index_is_first(first, ' ');
    let i = text::first_index(first, ' ');
    assert(first[method.len() as int] == ' ');
    if i < method.len() {
        assert(method.contains(method[i]));
    }
    assert(first.take(i) =~= method);
    assert(first.skip(i + 1) =~= address);
    text::first_index_is_first(address, ' ');
    let j = text::first_index(address, ' ');
    if j < address.len() {
        assert(address.contains(address[j]));
    }
    assert(address.take(j) =~= address);
}

/// What stands behind the last colon must be a port: digits for a number below 65536.
pub proof fn bad_ports_are_refused(host: Seq<char>, port: Seq<char>, default_port: u16)
    requires
        !port.contains(':'),
        text::number(port) is None || text::number(port)->0 > 65535,
    ensures
        host_port(host + seq![':'] + port, default_port) is None,
        port_text(host + seq![':'] + port) == port,
{
    let s = host + seq![':'] + port;
    text::last_index_is_last(s, ':');
    let i = text::last_index(s, ':');
    assert(s[host.len() as int] == ':');
    if i > host.len() {
        assert(port.contains(port[i - host.len() - 1]));
    }
    assert(s.skip(i + 1) =~= port);
}

/// An address that ends with its authority has the path `/`, and one without a scheme has
/// the port of `http`.
pub proof fn addresses_are_completed(authority: Seq<char>, path: Seq<char>)
    requires
        !authority.contains('/'),
        path.len() > 0 && path[0] == '/',
        !"http:"@.is_prefix_of(authority) && !"https:"@.is_prefix_of(authority),
    ensures
        match host_port(authority, 80) {
            Some((host, port)) => {
                &&& http_uri("http://"@ + authority) == Some((host, port, "/"@))
                &&& http_uri(authority + path) == Some((host, port, path))
                &&& http_uri(authority) == Some((host, port, "/"@))
            },
            None => {
                &&& http_uri("http://"@ + authority) is None
                &&& http_uri(authority + path) is None
            },
        },
        match host_port(authority, 443) {
            Some((host, port)) => http_uri("https://"@ + authority) == Some((host, port, "/"@)),
            None => http_uri("https://"@ + authority) is None,
        },
{
    reveal_strlit("https://");
    reveal_strlit("http://");
    reveal_strlit("http:");
    reveal_strlit("https:");
    let plain = "http://"@ + authority;
    let secure = "https://"@ + authority;
    let whole = authority + path;
    assert("http://"@ =~= plain.subrange(0, 7));
    assert("https://"@ =~= secure.subrange(0, 8));
    assert(!"https://"@.is_prefix_of(plain)) by {
        if "https://"@.is_prefix_of(plain) {
            assert(plain.subrange(0, 8)[4] == 's');
            assert(plain[4] == ':');
        }
    }
    assert(plain.skip(7) =~= authority);
    assert(secure.skip(8) =~= authority);
    no_scheme_there(authority, path);
    no_scheme_there(authority, Seq::empty());
    assert(authority + Seq::<char>::empty() =~= authority);
    text::first_index_is_first(authority, '/');
    let k = text::first_index(authority, '/');
    if k < authority.len() {
        assert(authority.contains(authority[k]));
    }
    assert(authority.take(k) =~= authority);
    text::first_index_is_first(whole, '/');
    let i = text::first_index(whole, '/');
    assert(whole[authority.len() as int] == '/');
    if i < authority.len() {
        assert(authority.contains(authority[i]));
    }
    assert(whole.take(i) =~= authority);
    assert(whole.skip(i) =~= path);
}

proof fn no_scheme_there(authority: Seq<char>, path: Seq<char>)
    requires
        !authority.contains('/'),
        path.len() > 0 ==> path[0] == '/',
        !"http:"@.is_prefix_of(authority) && !"https:"@.is_prefix_of(authority),
    ensures
        !"http://"@.is_prefix_of(authority + path) && !"https://"@.is_prefix_of(authority + path),
{
    reveal_strlit("https://");
    reveal_strlit("http://");
    reveal_strlit("http:");
    reveal_strlit("https:");
    let s = authority + path;
    if "http://"@.is_prefix_of(s) {
        let f = s.subrange(0, 7);
        assert(f[0] == s[0] && f[1] == s[1] && f[2] == s[2] && f[3] == s[3] && f[4] == s[4] && f[5]
            == s[5] && f[6] == s[6]);
        if authority.len() >= 5 {
            let a = authority.subrange(0, 5);
            assert(a[0] == s[0] && a[1] == s[1] && a[2] == s[2] && a[3] == s[3] && a[4] == s[4]);
            assert("http:"@ =~= a);
        } else {
            assert(s[authority.len() as int] == path[0]);
        }
    }
    if "https://"@.is_prefix_of(s) {
        let f = s.subrange(0, 8);
        assert(f[0] == s[0] && f[1] == s[1] && f[2] == s[2] && f[3] == s[3] && f[4] == s[4] && f[5]
            == s[5] && f[6] == s[6] && f[7] == s[7]);
        if authority.len() >= 6 {
            let a = authority.subrange(0, 6);
            assert(a[0] == s[0] && a[1] == s[1] && a[2] == s[2] && a[3] == s[3] && a[4] == s[4]
                && a[5] == s[5]);
            assert("https:"@ =~= a);
        } else {
            assert(s[authority.len() as int] == path[0]);
        }
    }
}

/// The head of a request ends with an empty line, and only there.
pub proof fn heads_end_with_an_empty_line(s: Seq<u8>)
    ensures
        ends_head(s) <==> s.len() >= 4 && s.skip(s.len() - 4) == seq![13u8, 10, 13, 10],
        MAX_HEAD == 16384,
        HTTPS_PORT == 443,
        HTTP_PORT == 80,
{
    let end = seq![13u8, 10, 13, 10];
    if s.len() >= 4 {
        let t = s.skip(s.len() - 4);
        let n = s.len() as int;
        assert(t[0] == s[n - 4] && t[1] == s[n - 3] && t[2] == s[n - 2] && t[3] == s[n - 1]);
        if ends_head(s) {
            assert(t =~= end);
        }
    }
}

/// CONNECT is told in any letter case, and no other method is.
pub proof fn connect_in_any_case(method: Seq<char>)
    ensures
        is_connect(method) <==> {
            &&& method.len() == 7
            &&& method[0] == 'c' || method[0] == 'C'
            &&& method[1] == 'o' || method[1] == 'O'
            &&& method[2] == 'n' || method[2] == 'N'
            &&& method[3] == 'n' || method[3] == 'N'
            &&& method[4] == 'e' || method[4] == 'E'
            &&& method[5] == 'c' || method[5] == 'C'
            &&& method[6] == 't' || method[6] == 'T'
        },
{
    reveal_strlit("connect");
    let l = text::lower(method);
    assert(l.len() == method.len());
    if is_connect(method) {
        assert(l[0] == 'c' && l[1] == 'o' && l[2] == 'n' && l[3] == 'n' && l[4] == 'e' && l[5]
            == 'c' && l[6] == 't');
    } else if method.len() == 7 {
        assert(l == "connect"@ <==> (l[0] == 'c' && l[1] == 'o' && l[2] == 'n' && l[3] == 'n'
            && l[4] == 'e' && l[5] == 'c' && l[6] == 't')) by {
            if l[0] == 'c' && l[1] == 'o' && l[2] == 'n' && l[3] == 'n' && l[4] == 'e' && l[5]
                == 'c' && l[6] == 't' {
                assert(l =~= "connect"@);
            }
        }
    }
}

/// What a refused request is reported with.
pub proof fn proxy_errors_speak(p: String)
    ensures
        HttpProxyError::HeadersTooLarge.text() == "HTTP headers too large"@,
        HttpProxyError::NotUtf8.text() == "Non-UTF-8 in HTTP headers"@,
        HttpProxyError::MissingUri.text() == "Missing HTTP URI"@,
        HttpProxyError::InvalidAuthorityPort(p).text() == "Invalid port in CONNECT authority: "@
            + p@,
        HttpProxyError::InvalidUriPort(p).text() == "Invalid port in URI: "@ + p@,
{
}

} // verus!
