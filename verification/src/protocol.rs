//! The messages that client and server exchange, and their binary form.

use crate::wire;
use vstd::prelude::*;

verus! {

broadcast use vstd::seq::group_seq_axioms;

/// Message types exchanged between client and server.
///
/// On the wire a message is the 32-bit position of its variant in this list,
/// followed by its fields in order.
#[allow(inconsistent_fields)]
#[derive(Debug)]
pub enum Message {
    /// Client requests connection to target host.
    Connect { conn_id: u32, host: String, port: u16 },
    /// Encrypted data payload.
    Data { conn_id: u32, data: Vec<u8> },
    /// Close one direction of a connection: the sender has no more data.
    Close { conn_id: u32 },
    /// Keep-alive ping.
    Ping,
    /// Keep-alive pong response.
    Pong,
    /// Error response.
    Error { conn_id: Option<u32>, message: String },
    /// Server tells the client that the session was freshly created: whatever
    /// connections the client had are unknown to the server.
    Reset,
    /// Client asks the server to open a terminal for this connection and run a
    /// command in it, or a login shell where there is none.
    Exec { conn_id: u32, cmd: Option<String>, cols: u16, rows: u16, term: String },
    /// Client's terminal was resized.
    Resize { conn_id: u32, cols: u16, rows: u16 },
    /// Server reports the exit code of the command, just before `Close`.
    ExitStatus { conn_id: u32, code: i32 },
    /// Tear a connection down in both directions.
    Abort { conn_id: u32 },
    /// Client asks for a compressed archive of the paths.
    Pull { conn_id: u32, paths: Vec<String>, level: i32 },
    /// Client is about to send a compressed archive to unpack under the path.
    Push { conn_id: u32, path: String },
}

/// What a message says.
#[allow(inconsistent_fields)]
#[verifier::ext_equal]
pub enum MessageView {
    Connect { conn_id: u32, host: Seq<char>, port: u16 },
    Data { conn_id: u32, data: Seq<u8> },
    Close { conn_id: u32 },
    Ping,
    Pong,
    Error { conn_id: Option<u32>, message: Seq<char> },
    Reset,
    Exec { conn_id: u32, cmd: Option<Seq<char>>, cols: u16, rows: u16, term: Seq<char> },
    Resize { conn_id: u32, cols: u16, rows: u16 },
    ExitStatus { conn_id: u32, code: i32 },
    Abort { conn_id: u32 },
    Pull { conn_id: u32, paths: Seq<Seq<char>>, level: i32 },
    Push { conn_id: u32, path: Seq<char> },
}

impl View for Message {
    type V = MessageView;

    open spec fn view(&self) -> MessageView {
        match *self {
            Message::Connect { conn_id, host, port } => MessageView::Connect {
                conn_id,
                host: host@,
                port,
            },
            Message::Data { conn_id, data } => MessageView::Data { conn_id, data: data@ },
            Message::Close { conn_id } => MessageView::Close { conn_id },
            Message::Ping => MessageView::Ping,
            Message::Pong => MessageView::Pong,
            Message::Error { conn_id, message } => MessageView::Error {
                conn_id,
                message: message@,
            },
            Message::Reset => MessageView::Reset,
            Message::Exec { conn_id, cmd, cols, rows, term } => MessageView::Exec {
                conn_id,
                cmd: wire::text_of(cmd),
                cols,
                rows,
                term: term@,
            },
            Message::Resize { conn_id, cols, rows } => MessageView::Resize { conn_id, cols, rows },
            Message::ExitStatus { conn_id, code } => MessageView::ExitStatus { conn_id, code },
            Message::Abort { conn_id } => MessageView::Abort { conn_id },
            Message::Pull { conn_id, paths, level } => MessageView::Pull {
                conn_id,
                paths: wire::texts(paths@),
                level,
            },
            Message::Push { conn_id, path } => MessageView::Push { conn_id, path: path@ },
        }
    }
}

/// Why bytes could not be turned into a message or a message into bytes.
#[derive(Debug, Clone, Copy, PartialEq, Eq, Structural)]
pub enum ProtocolError {
    /// The message could not be written.
    Unwritable,
    /// The bytes do not start with a message.
    Malformed,
}

/// Payload of an encrypted frame.
///
/// Wire format:
/// `[4 bytes: payload length][12 bytes: nonce][N bytes: encrypted payload][16 bytes: auth tag]`
#[derive(Debug)]
pub struct Frame {
    pub payload: Vec<u8>,
}

impl View for Frame {
    type V = Seq<u8>;

    open spec fn view(&self) -> Seq<u8> {
        self.payload@
    }
}

impl Frame {
    /// Create a new frame from a serialized message.
    pub fn new(payload: Vec<u8>) -> (r: Self)
        ensures
            r@ == payload@,
    {
        Frame { payload }
    }

    /// The payload as a slice.
    pub fn payload(&self) -> (r: &[u8])
        ensures
            r@ == self@,
    {
        self.payload.as_slice()
    }

    /// Consume the frame and return the payload.
    pub fn into_payload(self) -> (r: Vec<u8>)
        ensures
            r@ == self@,
    {
        self.payload
    }
}

/// The position of the message's variant.
pub open spec fn tag(m: MessageView) -> u32 {
    match m {
        MessageView::Connect { .. } => 0,
        MessageView::Data { .. } => 1,
        MessageView::Close { .. } => 2,
        MessageView::Ping => 3,
        MessageView::Pong => 4,
        MessageView::Error { .. } => 5,
        MessageView::Reset => 6,
        MessageView::Exec { .. } => 7,
        MessageView::Resize { .. } => 8,
        MessageView::ExitStatus { .. } => 9,
        MessageView::Abort { .. } => 10,
        MessageView::Pull { .. } => 11,
        MessageView::Push { .. } => 12,
    }
}

/// The encodings of the message's fields, in order.
pub open spec fn fields(m: MessageView) -> Seq<Seq<u8>> {
    match m {
        MessageView::Connect { conn_id, host, port } => seq![
            wire::le_bytes(conn_id as nat, 4),
            wire::text(host),
            wire::le_bytes(port as nat, 2),
        ],
        MessageView::Data { conn_id, data } => seq![
            wire::le_bytes(conn_id as nat, 4),
            wire::blob(data),
        ],
        MessageView::Close { conn_id } => seq![wire::le_bytes(conn_id as nat, 4)],
        MessageView::Ping => seq![],
        MessageView::Pong => seq![],
        MessageView::Error { conn_id, message } => seq![
            wire::optional_u32(conn_id),
            wire::text(message),
        ],
        MessageView::Reset => seq![],
        MessageView::Exec { conn_id, cmd, cols, rows, term } => seq![
            wire::le_bytes(conn_id as nat, 4),
            wire::optional_text(cmd),
            wire::le_bytes(cols as nat, 2),
            wire::le_bytes(rows as nat, 2),
            wire::text(term),
        ],
        MessageView::Resize { conn_id, cols, rows } => seq![
            wire::le_bytes(conn_id as nat, 4),
            wire::le_bytes(cols as nat, 2),
            wire::le_bytes(rows as nat, 2),
        ],
        MessageView::ExitStatus { conn_id, code } => seq![
            wire::le_bytes(conn_id as nat, 4),
            wire::le_bytes(wire::twos_complement(code), 4),
        ],
        MessageView::Abort { conn_id } => seq![wire::le_bytes(conn_id as nat, 4)],
        MessageView::Pull { conn_id, paths, level } => seq![
            wire::le_bytes(conn_id as nat, 4),
            wire::text_list(paths),
            wire::le_bytes(wire::twos_complement(level), 4),
        ],
        MessageView::Push { conn_id, path } => seq![
            wire::le_bytes(conn_id as nat, 4),
            wire::text(path),
        ],
    }
}

/// Byte strings, one after the other.
pub open spec fn joined(parts: Seq<Seq<u8>>) -> Seq<u8>
    decreases parts.len(),
{
    if parts.len() == 0 {
        Seq::empty()
    } else {
        parts[0] + joined(parts.skip(1))
    }
}

/// The binary form of a message.
pub open spec fn encode(m: MessageView) -> Seq<u8> {
    wire::le_bytes(tag(m) as nat, 4) + joined(fields(m))
}

/// Every length in the message fits into the 64 bits that it is written with.
pub open spec fn encodable(m: MessageView) -> bool {
    match m {
        MessageView::Connect { host, .. } => wire::short_text(host),
        MessageView::Data { data, .. } => data.len() <= u64::MAX,
        MessageView::Error { message, .. } => wire::short_text(message),
        MessageView::Exec { cmd, term, .. } => (cmd is Some ==> wire::short_text(cmd->0))
            && wire::short_text(term),
        MessageView::Pull { paths, .. } => wire::short_text_list(paths),
        MessageView::Push { path, .. } => wire::short_text(path),
        _ => true,
    }
}

proof fn joined_one(a: Seq<u8>)
    ensures
        joined(seq![a]) == a,
{
    reveal_with_fuel(joined, 2);
    assert(joined(seq![a]) =~= a);
}

proof fn joined_two(a: Seq<u8>, b: Seq<u8>, bytes: Seq<u8>)
    ensures
        joined(seq![a, b]) == a + b,
        joined(seq![a, b]).is_prefix_of(bytes) <==> a.is_prefix_of(bytes) && b.is_prefix_of(
            bytes.skip(a.len() as int),
        ),
{
    assert(seq![a, b].skip(1) =~= seq![b]);
    joined_one(b);
    wire::prefix_of_concat(a, b, bytes);
}

proof fn joined_three(a: Seq<u8>, b: Seq<u8>, c: Seq<u8>, bytes: Seq<u8>)
    ensures
        joined(seq![a, b, c]) == a + b + c,
        joined(seq![a, b, c]).is_prefix_of(bytes) <==> {
            &&& a.is_prefix_of(bytes)
            &&& b.is_prefix_of(bytes.skip(a.len() as int))
            &&& c.is_prefix_of(bytes.skip(a.len() as int).skip(b.len() as int))
        },
{
    assert(seq![a, b, c].skip(1) =~= seq![b, c]);
    joined_two(b, c, bytes.skip(a.len() as int));
    wire::prefix_of_concat(a, b + c, bytes);
    assert(a + b + c =~= a + (b + c));
}

proof fn joined_five(
    a: Seq<u8>,
    b: Seq<u8>,
    c: Seq<u8>,
    d: Seq<u8>,
    e: Seq<u8>,
    bytes: Seq<u8>,
)
    ensures
        joined(seq![a, b, c, d, e]) == a + b + c + d + e,
        joined(seq![a, b, c, d, e]).is_prefix_of(bytes) <==> {
            let rest = bytes.skip(a.len() as int).skip(b.len() as int);
            &&& a.is_prefix_of(bytes)
            &&& b.is_prefix_of(bytes.skip(a.len() as int))
            &&& c.is_prefix_of(rest)
            &&& d.is_prefix_of(rest.skip(c.len() as int))
            &&& e.is_prefix_of(rest.skip(c.len() as int).skip(d.len() as int))
        },
{
    let rest = bytes.skip(a.len() as int).skip(b.len() as int);
    assert(seq![a, b, c, d, e].skip(1) =~= seq![b, c, d, e]);
    assert(seq![b, c, d, e].skip(1) =~= seq![c, d, e]);
    reveal_with_fuel(joined, 3);
    joined_three(c, d, e, rest);
    wire::prefix_of_concat(b, c + d + e, bytes.skip(a.len() as int));
    assert(b + (c + d + e) =~= b + c + d + e);
    wire::prefix_of_concat(a, b + c + d + e, bytes);
    assert(a + b + c + d + e =~= a + (b + c + d + e));
}

/// No two messages share a binary form, and none is the beginning of another: the
/// bytes of at most one message stand at the front of some bytes.
pub proof fn encoding_is_unique(x: MessageView, y: MessageView, b: Seq<u8>)
    requires
        encodable(x),
        encodable(y),
        encode(x).is_prefix_of(b),
        encode(y).is_prefix_of(b),
    ensures
        x == y,
{
    wire::byte_ranges();
    wire::prefix_of_concat(wire::le_bytes(tag(x) as nat, 4), joined(fields(x)), b);
    wire::prefix_of_concat(wire::le_bytes(tag(y) as nat, 4), joined(fields(y)), b);
    wire::le_bytes_unique(tag(x) as nat, tag(y) as nat, 4, b);
    wire::le_bytes_len(tag(x) as nat, 4);
    fields_are_unique(x, y, b.skip(4));
}

/// Two fixed-width numbers at the front of some bytes are the same, and so is what
/// follows them.
proof fn same_number(m: nat, n: nat, width: nat, b: Seq<u8>)
    requires
        m < wire::byte_range(width),
        n < wire::byte_range(width),
        wire::le_bytes(m, width).is_prefix_of(b),
        wire::le_bytes(n, width).is_prefix_of(b),
    ensures
        m == n,
        wire::le_bytes(m, width).len() == width,
{
    wire::le_bytes_unique(m, n, width, b);
    wire::le_bytes_len(m, width);
}

/// At most one message of a kind has its fields at the front of some bytes.
proof fn fields_are_unique(x: MessageView, y: MessageView, b: Seq<u8>)
    requires
        tag(x) == tag(y),
        encodable(x),
        encodable(y),
        joined(fields(x)).is_prefix_of(b),
        joined(fields(y)).is_prefix_of(b),
    ensures
        x == y,
{
    wire::byte_ranges();
    fields_in_order(x, b);
    fields_in_order(y, b);
    match (x, y) {
        (
            MessageView::Connect { conn_id: i, host: h, port: p },
            MessageView::Connect { conn_id: j, host: k, port: q },
        ) => {
            same_number(i as nat, j as nat, 4, b);
            wire::text_unique(h, k, b.skip(4));
            same_number(p as nat, q as nat, 2, b.skip(4).skip(wire::text(h).len() as int));
        },
        (MessageView::Data { conn_id: i, data: d }, MessageView::Data { conn_id: j, data: e }) => {
            same_number(i as nat, j as nat, 4, b);
            wire::blob_unique(d, e, b.skip(4));
        },
        (MessageView::Close { conn_id: i }, MessageView::Close { conn_id: j }) => {
            same_number(i as nat, j as nat, 4, b);
        },
        (
            MessageView::Error { conn_id: i, message: s },
            MessageView::Error { conn_id: j, message: t },
        ) => {
            wire::optional_u32_unique(i, j, b);
            wire::text_unique(s, t, b.skip(wire::optional_u32(i).len() as int));
        },
        (
            MessageView::Exec { conn_id: i, cmd: s, cols: c1, rows: r1, term: t1 },
            MessageView::Exec { conn_id: j, cmd: t, cols: c2, rows: r2, term: t2 },
        ) => {
            same_number(i as nat, j as nat, 4, b);
            wire::optional_text_unique(s, t, b.skip(4));
            let c = b.skip(4).skip(wire::optional_text(s).len() as int);
            same_number(c1 as nat, c2 as nat, 2, c);
            same_number(r1 as nat, r2 as nat, 2, c.skip(2));
            wire::text_unique(t1, t2, c.skip(2).skip(2));
        },
        (
            MessageView::Resize { conn_id: i, cols: c1, rows: r1 },
            MessageView::Resize { conn_id: j, cols: c2, rows: r2 },
        ) => {
            same_number(i as nat, j as nat, 4, b);
            same_number(c1 as nat, c2 as nat, 2, b.skip(4));
            same_number(r1 as nat, r2 as nat, 2, b.skip(4).skip(2));
        },
        (
            MessageView::ExitStatus { conn_id: i, code: s },
            MessageView::ExitStatus { conn_id: j, code: t },
        ) => {
            same_number(i as nat, j as nat, 4, b);
            same_number(wire::twos_complement(s), wire::twos_complement(t), 4, b.skip(4));
        },
        (MessageView::Abort { conn_id: i }, MessageView::Abort { conn_id: j }) => {
            same_number(i as nat, j as nat, 4, b);
        },
        (
            MessageView::Pull { conn_id: i, paths: s, level: l },
            MessageView::Pull { conn_id: j, paths: t, level: m },
        ) => {
            same_number(i as nat, j as nat, 4, b);
            wire::text_list_unique(s, t, b.skip(4));
            let c = b.skip(4).skip(wire::text_list(s).len() as int);
            same_number(wire::twos_complement(l), wire::twos_complement(m), 4, c);
        },
        (
            MessageView::Push { conn_id: i, path: s },
            MessageView::Push { conn_id: j, path: t },
        ) => {
            same_number(i as nat, j as nat, 4, b);
            wire::text_unique(s, t, b.skip(4));
        },
        _ => {},
    }
}

/// The fields of `m` stand one after the other at the front of `b`.
spec fn in_order(m: MessageView, b: Seq<u8>) -> bool {
    match m {
        MessageView::Connect { conn_id, host, port } => {
            &&& wire::le_bytes(conn_id as nat, 4).is_prefix_of(b)
            &&& wire::text(host).is_prefix_of(b.skip(4))
            &&& wire::le_bytes(port as nat, 2).is_prefix_of(
                b.skip(4).skip(wire::text(host).len() as int),
            )
        },
        MessageView::Data { conn_id, data } => {
            &&& wire::le_bytes(conn_id as nat, 4).is_prefix_of(b)
            &&& wire::blob(data).is_prefix_of(b.skip(4))
        },
        MessageView::Close { conn_id } => wire::le_bytes(conn_id as nat, 4).is_prefix_of(b),
        MessageView::Error { conn_id, message } => {
            &&& wire::optional_u32(conn_id).is_prefix_of(b)
            &&& wire::text(message).is_prefix_of(b.skip(wire::optional_u32(conn_id).len() as int))
        },
        MessageView::Exec { conn_id, cmd, cols, rows, term } => {
            let rest = b.skip(4).skip(wire::optional_text(cmd).len() as int);
            &&& wire::le_bytes(conn_id as nat, 4).is_prefix_of(b)
            &&& wire::optional_text(cmd).is_prefix_of(b.skip(4))
            &&& wire::le_bytes(cols as nat, 2).is_prefix_of(rest)
            &&& wire::le_bytes(rows as nat, 2).is_prefix_of(rest.skip(2))
            &&& wire::text(term).is_prefix_of(rest.skip(2).skip(2))
        },
        MessageView::Resize { conn_id, cols, rows } => {
            &&& wire::le_bytes(conn_id as nat, 4).is_prefix_of(b)
            &&& wire::le_bytes(cols as nat, 2).is_prefix_of(b.skip(4))
            &&& wire::le_bytes(rows as nat, 2).is_prefix_of(b.skip(4).skip(2))
        },
        MessageView::ExitStatus { conn_id, code } => {
            &&& wire::le_bytes(conn_id as nat, 4).is_prefix_of(b)
            &&& wire::le_bytes(wire::twos_complement(code), 4).is_prefix_of(b.skip(4))
        },
        MessageView::Abort { conn_id } => wire::le_bytes(conn_id as nat, 4).is_prefix_of(b),
        MessageView::Pull { conn_id, paths, level } => {
            &&& wire::le_bytes(conn_id as nat, 4).is_prefix_of(b)
            &&& wire::text_list(paths).is_prefix_of(b.skip(4))
            &&& wire::le_bytes(wire::twos_complement(level), 4).is_prefix_of(
                b.skip(4).skip(wire::text_list(paths).len() as int),
            )
        },
        MessageView::Push { conn_id, path } => {
            &&& wire::le_bytes(conn_id as nat, 4).is_prefix_of(b)
            &&& wire::text(path).is_prefix_of(b.skip(4))
        },
        _ => true,
    }
}

proof fn fields_in_order(m: MessageView, b: Seq<u8>)
    ensures
        joined(fields(m)).is_prefix_of(b) <==> in_order(m, b),
{
    match m {
        MessageView::Connect { conn_id, host, port } => {
            wire::le_bytes_len(conn_id as nat, 4);
            joined_three(fields(m)[0], fields(m)[1], fields(m)[2], b);
        },
        MessageView::Data { conn_id, data } => {
            wire::le_bytes_len(conn_id as nat, 4);
            joined_two(fields(m)[0], fields(m)[1], b);
        },
        MessageView::Close { conn_id } => {
            joined_one(fields(m)[0]);
        },
        MessageView::Error { conn_id, message } => {
            joined_two(fields(m)[0], fields(m)[1], b);
        },
        MessageView::Exec { conn_id, cmd, cols, rows, term } => {
            wire::le_bytes_len(conn_id as nat, 4);
            wire::le_bytes_len(cols as nat, 2);
            wire::le_bytes_len(rows as nat, 2);
            joined_five(
                fields(m)[0],
                fields(m)[1],
                fields(m)[2],
                fields(m)[3],
                fields(m)[4],
                b,
            );
        },
        MessageView::Resize { conn_id, cols, rows } => {
            wire::le_bytes_len(conn_id as nat, 4);
            wire::le_bytes_len(cols as nat, 2);
            joined_three(fields(m)[0], fields(m)[1], fields(m)[2], b);
        },
        MessageView::ExitStatus { conn_id, code } => {
            wire::le_bytes_len(conn_id as nat, 4);
            joined_two(fields(m)[0], fields(m)[1], b);
        },
        MessageView::Abort { conn_id } => {
            joined_one(fields(m)[0]);
        },
        MessageView::Pull { conn_id, paths, level } => {
            wire::le_bytes_len(conn_id as nat, 4);
            joined_three(fields(m)[0], fields(m)[1], fields(m)[2], b);
        },
        MessageView::Push { conn_id, path } => {
            wire::le_bytes_len(conn_id as nat, 4);
            joined_two(fields(m)[0], fields(m)[1], b);
        },
        _ => {
            assert(joined(fields(m)) =~= Seq::<u8>::empty());
        },
    }
}

/// What is read back from the bytes of a message is that message: the bytes of no
/// other message start with them or they with its.
pub proof fn reading_undoes_writing(m: MessageView, read: MessageView, rest: Seq<u8>)
    requires
        encodable(m),
        encodable(read),
        encode(read).is_prefix_of(encode(m) + rest),
    ensures
        read == m,
{
    assert(encode(m).is_prefix_of(encode(m) + rest)) by {
        assert(encode(m) =~= (encode(m) + rest).subrange(0, encode(m).len() as int));
    }
    encoding_is_unique(read, m, encode(m) + rest);
}

// Writing.

/// Appends a written field.
fn add_field(out: &mut Vec<u8>, field: Result<Vec<u8>, bincode::Error>) -> (r: Result<
    (),
    ProtocolError,
>)
    ensures
        match field {
            Ok(bytes) => r is Ok && final(out)@ == old(out)@ + bytes@,
            Err(_) => r == Err::<(), _>(ProtocolError::Unwritable) && final(out)@ == old(out)@,
        },
{
    match field {
        Ok(bytes) => {
            let mut bytes = bytes;
            out.append(&mut bytes);
            Ok(())
        },
        Err(_) => Err(ProtocolError::Unwritable),
    }
}

impl Message {
    /// The binary form of the message. Writing never fails.
    pub fn to_bytes(&self) -> (r: Result<Vec<u8>, ProtocolError>)
        ensures
            r is Ok,
            r->Ok_0@ == encode(self@),
            encodable(self@),
    {
        self.sizes_fit();
        let mut out: Vec<u8> = Vec::new();
        add_field(&mut out, wire::put_u32(self.tag()))?;
        let ghost f = fields(self@);
        match self {
            Message::Connect { conn_id, host, port } => {
                add_field(&mut out, wire::put_u32(*conn_id))?;
                add_field(&mut out, wire::put_text(host.as_str()))?;
                add_field(&mut out, wire::put_u16(*port))?;
                proof {
                    joined_three(f[0], f[1], f[2], out@);
                }
            },
            Message::Data { conn_id, data } => {
                add_field(&mut out, wire::put_u32(*conn_id))?;
                add_field(&mut out, wire::put_bytes(data.as_slice()))?;
                proof {
                    joined_two(f[0], f[1], out@);
                }
            },
            Message::Close { conn_id } => {
                add_field(&mut out, wire::put_u32(*conn_id))?;
                proof {
                    joined_one(f[0]);
                }
            },
            Message::Ping | Message::Pong | Message::Reset => {},
            Message::Error { conn_id, message } => {
                add_field(&mut out, wire::put_optional_u32(*conn_id))?;
                add_field(&mut out, wire::put_text(message.as_str()))?;
                proof {
                    joined_two(f[0], f[1], out@);
                }
            },
            Message::Exec { conn_id, cmd, cols, rows, term } => {
                add_field(&mut out, wire::put_u32(*conn_id))?;
                add_field(&mut out, wire::put_optional_text(cmd))?;
                add_field(&mut out, wire::put_u16(*cols))?;
                add_field(&mut out, wire::put_u16(*rows))?;
                add_field(&mut out, wire::put_text(term.as_str()))?;
                proof {
                    joined_five(f[0], f[1], f[2], f[3], f[4], out@);
                }
            },
            Message::Resize { conn_id, cols, rows } => {
                add_field(&mut out, wire::put_u32(*conn_id))?;
                add_field(&mut out, wire::put_u16(*cols))?;
                add_field(&mut out, wire::put_u16(*rows))?;
                proof {
                    joined_three(f[0], f[1], f[2], out@);
                }
            },
            Message::ExitStatus { conn_id, code } => {
                add_field(&mut out, wire::put_u32(*conn_id))?;
                add_field(&mut out, wire::put_i32(*code))?;
                proof {
                    joined_two(f[0], f[1], out@);
                }
            },
            Message::Abort { conn_id } => {
                add_field(&mut out, wire::put_u32(*conn_id))?;
                proof {
                    joined_one(f[0]);
                }
            },
            Message::Pull { conn_id, paths, level } => {
                add_field(&mut out, wire::put_u32(*conn_id))?;
                add_field(&mut out, wire::put_text_list(paths))?;
                add_field(&mut out, wire::put_i32(*level))?;
                proof {
                    joined_three(f[0], f[1], f[2], out@);
                }
            },
            Message::Push { conn_id, path } => {
                add_field(&mut out, wire::put_u32(*conn_id))?;
                add_field(&mut out, wire::put_text(path.as_str()))?;
                proof {
                    joined_two(f[0], f[1], out@);
                }
            },
        }
        assert(out@ =~= encode(self@));
        Ok(out)
    }

    /// Whatever is in memory is short enough to be written.
    fn sizes_fit(&self)
        ensures
            encodable(self@),
    {
        match self {
            Message::Connect { host, .. } => {
                let _size: usize = wire::utf8_len(host.as_str());
            },
            Message::Data { data, .. } => {
                let _size: usize = data.len();
            },
            Message::Error { message, .. } => {
                let _size: usize = wire::utf8_len(message.as_str());
            },
            Message::Exec { cmd, term, .. } => {
                let _size: usize = wire::utf8_len(term.as_str());
                if let Some(cmd) = cmd {
                    let _size: usize = wire::utf8_len(cmd.as_str());
                }
            },
            Message::Pull { paths, .. } => {
                wire::check_texts(paths);
            },
            Message::Push { path, .. } => {
                let _size: usize = wire::utf8_len(path.as_str());
            },
            _ => {},
        }
    }

    /// The position of the message's variant.
    fn tag(&self) -> (r: u32)
        ensures
            r == tag(self@),
    {
        match self {
            Message::Connect { .. } => 0,
            Message::Data { .. } => 1,
            Message::Close { .. } => 2,
            Message::Ping => 3,
            Message::Pong => 4,
            Message::Error { .. } => 5,
            Message::Reset => 6,
            Message::Exec { .. } => 7,
            Message::Resize { .. } => 8,
            Message::ExitStatus { .. } => 9,
            Message::Abort { .. } => 10,
            Message::Pull { .. } => 11,
            Message::Push { .. } => 12,
        }
    }
}

// Reading.

/// A message of the kind `t` has its fields at the front of `b`.
spec fn reads(t: u32, b: Seq<u8>, m: MessageView) -> bool {
    tag(m) == t && encodable(m) && in_order(m, b)
}

/// `r` is the message of the kind `t` at the front of `b`, if there is one.
spec fn is_reading(t: u32, b: Seq<u8>, r: Option<Message>) -> bool {
    match r {
        Some(m) => reads(t, b, m@),
        None => forall|m: MessageView| !#[trigger] reads(t, b, m),
    }
}

/// What follows the first `n` bytes.
fn after(b: &[u8], n: usize) -> (r: &[u8])
    requires
        n <= b@.len(),
    ensures
        r@ == b@.skip(n as int),
{
    vstd::slice::slice_subrange(b, n, b.len())
}

fn read_u16(b: &[u8]) -> (r: Option<(u16, &[u8])>)
    ensures
        match r {
            Some((v, rest)) => wire::le_bytes(v as nat, 2).is_prefix_of(b@) && rest@ == b@.skip(2),
            None => forall|v: u16| !(#[trigger] wire::le_bytes(v as nat, 2)).is_prefix_of(b@),
        },
{
    match wire::get_u16(b) {
        Ok(v) => {
            proof {
                wire::le_bytes_len(v as nat, 2);
            }
            Some((v, after(b, 2)))
        },
        Err(_) => None,
    }
}

fn read_u32(b: &[u8]) -> (r: Option<(u32, &[u8])>)
    ensures
        match r {
            Some((v, rest)) => wire::le_bytes(v as nat, 4).is_prefix_of(b@) && rest@ == b@.skip(4),
            None => forall|v: u32| !(#[trigger] wire::le_bytes(v as nat, 4)).is_prefix_of(b@),
        },
{
    match wire::get_u32(b) {
        Ok(v) => {
            proof {
                wire::le_bytes_len(v as nat, 4);
            }
            Some((v, after(b, 4)))
        },
        Err(_) => None,
    }
}

fn read_text(b: &[u8]) -> (r: Option<(String, &[u8])>)
    ensures
        match r {
            Some((v, rest)) => {
                &&& wire::short_text(v@)
                &&& wire::text(v@).is_prefix_of(b@)
                &&& rest@ == b@.skip(wire::text(v@).len() as int)
            },
            None => forall|v: Seq<char>|
                wire::short_text(v) ==> !(#[trigger] wire::text(v)).is_prefix_of(b@),
        },
{
    match wire::get_text(b) {
        Ok(v) => {
            let total: usize = b.len();
            let size: usize = wire::utf8_len(v.as_str());
            proof {
                wire::le_bytes_len(size as nat, 8);
                assert(8 + size <= total);
            }
            let rest = after(b, 8 + size);
            Some((v, rest))
        },
        Err(_) => None,
    }
}

fn read_optional_text(b: &[u8]) -> (r: Option<(Option<String>, &[u8])>)
    ensures
        match r {
            Some((v, rest)) => {
                &&& v is Some ==> wire::short_text(v->0@)
                &&& wire::optional_text(wire::text_of(v)).is_prefix_of(b@)
                &&& rest@ == b@.skip(wire::optional_text(wire::text_of(v)).len() as int)
            },
            None => forall|v: Option<Seq<char>>|
                (v is Some ==> wire::short_text(v->0)) ==> !(
                #[trigger] wire::optional_text(v)).is_prefix_of(b@),
        },
{
    match wire::get_optional_text(b) {
        Ok(v) => {
            let total: usize = b.len();
            let rest = match &v {
                None => after(b, 1),
                Some(s) => {
                    let size: usize = wire::utf8_len(s.as_str());
                    proof {
                        wire::le_bytes_len(size as nat, 8);
                        assert(9 + size <= total);
                    }
                    after(b, 9 + size)
                },
            };
            Some((v, rest))
        },
        Err(_) => None,
    }
}

fn read_connect(b: &[u8]) -> (r: Option<Message>)
    ensures
        is_reading(0, b@, r),
{
    let (conn_id, rest) = match read_u32(b) {
        Some(x) => x,
        None => {
            return None;
        },
    };
    let (host, rest2) = match read_text(rest) {
        Some(x) => x,
        None => {
            return None;
        },
    };
    match read_u16(rest2) {
        Some((port, _)) => Some(Message::Connect { conn_id, host, port }),
        None => {
            proof {
                assert forall|m: MessageView| !#[trigger] reads(0, b@, m) by {
                    if reads(0, b@, m) {
                        if let MessageView::Connect { conn_id: _, host: h, port: _ } = m {
                            wire::text_unique(h, host@, b@.skip(4));
                        }
                    }
                }
            }
            None
        },
    }
}

fn read_data(b: &[u8]) -> (r: Option<Message>)
    ensures
        is_reading(1, b@, r),
{
    let (conn_id, rest) = match read_u32(b) {
        Some(x) => x,
        None => {
            return None;
        },
    };
    match wire::get_bytes(rest) {
        Ok(data) => {
            let _size: usize = data.len();
            Some(Message::Data { conn_id, data })
        },
        Err(_) => None,
    }
}

fn read_error(b: &[u8]) -> (r: Option<Message>)
    ensures
        is_reading(5, b@, r),
{
    let conn_id = match wire::get_optional_u32(b) {
        Ok(x) => x,
        Err(_) => {
            return None;
        },
    };
    proof {
        if conn_id is Some {
            wire::le_bytes_len(conn_id->0 as nat, 4);
        }
    }
    let rest = match conn_id {
        None => after(b, 1),
        Some(_) => after(b, 5),
    };
    match read_text(rest) {
        Some((message, _)) => Some(Message::Error { conn_id, message }),
        None => {
            proof {
                assert forall|m: MessageView| !#[trigger] reads(5, b@, m) by {
                    if reads(5, b@, m) {
                        if let MessageView::Error { conn_id: i, message: _ } = m {
                            wire::optional_u32_unique(i, conn_id, b@);
                        }
                    }
                }
            }
            None
        },
    }
}

fn read_exec(b: &[u8]) -> (r: Option<Message>)
    ensures
        is_reading(7, b@, r),
{
    let (conn_id, rest) = match read_u32(b) {
        Some(x) => x,
        None => {
            return None;
        },
    };
    let (cmd, rest2) = match read_optional_text(rest) {
        Some(x) => x,
        None => {
            return None;
        },
    };
    let sizes = match read_u16(rest2) {
        None => None,
        Some((cols, rest3)) => match read_u16(rest3) {
            None => None,
            Some((rows, rest4)) => match read_text(rest4) {
                None => None,
                Some((term, _)) => Some((cols, rows, term)),
            },
        },
    };
    match sizes {
        Some((cols, rows, term)) => Some(Message::Exec { conn_id, cmd, cols, rows, term }),
        None => {
            proof {
                assert forall|m: MessageView| !#[trigger] reads(7, b@, m) by {
                    if reads(7, b@, m) {
                        if let MessageView::Exec { conn_id: _, cmd: c, .. } = m {
                            wire::optional_text_unique(c, wire::text_of(cmd), b@.skip(4));
                        }
                    }
                }
            }
            None
        },
    }
}

fn read_resize(b: &[u8]) -> (r: Option<Message>)
    ensures
        is_reading(8, b@, r),
{
    match read_u32(b) {
        None => None,
        Some((conn_id, rest)) => match read_u16(rest) {
            None => None,
            Some((cols, rest2)) => match read_u16(rest2) {
                None => None,
                Some((rows, _)) => Some(Message::Resize { conn_id, cols, rows }),
            },
        },
    }
}

fn read_exit_status(b: &[u8]) -> (r: Option<Message>)
    ensures
        is_reading(9, b@, r),
{
    match read_u32(b) {
        None => None,
        Some((conn_id, rest)) => match wire::get_i32(rest) {
            Err(_) => None,
            Ok(code) => Some(Message::ExitStatus { conn_id, code }),
        },
    }
}

fn read_pull(b: &[u8]) -> (r: Option<Message>)
    ensures
        is_reading(11, b@, r),
{
    let (conn_id, rest) = match read_u32(b) {
        Some(x) => x,
        None => {
            return None;
        },
    };
    let paths = match wire::get_text_list(rest) {
        Ok(x) => x,
        Err(_) => {
            return None;
        },
    };
    let size: usize = wire::text_list_size(&paths, rest);
    match wire::get_i32(after(rest, size)) {
        Ok(level) => Some(Message::Pull { conn_id, paths, level }),
        Err(_) => {
            proof {
                assert forall|m: MessageView| !#[trigger] reads(11, b@, m) by {
                    if reads(11, b@, m) {
                        if let MessageView::Pull { conn_id: _, paths: p, level: _ } = m {
                            wire::text_list_unique(p, wire::texts(paths@), b@.skip(4));
                        }
                    }
                }
            }
            None
        },
    }
}

fn read_push(b: &[u8]) -> (r: Option<Message>)
    ensures
        is_reading(12, b@, r),
{
    match read_u32(b) {
        None => None,
        Some((conn_id, rest)) => match read_text(rest) {
            None => None,
            Some((path, _)) => Some(Message::Push { conn_id, path }),
        },
    }
}

/// Reads the fields of a message of the kind `t`.
fn read_fields(t: u32, b: &[u8]) -> (r: Option<Message>)
    ensures
        is_reading(t, b@, r),
{
    match t {
        0 => read_connect(b),
        1 => read_data(b),
        2 => match read_u32(b) {
            Some((conn_id, _)) => Some(Message::Close { conn_id }),
            None => None,
        },
        3 => Some(Message::Ping),
        4 => Some(Message::Pong),
        5 => read_error(b),
        6 => Some(Message::Reset),
        7 => read_exec(b),
        8 => read_resize(b),
        9 => read_exit_status(b),
        10 => match read_u32(b) {
            Some((conn_id, _)) => Some(Message::Abort { conn_id }),
            None => None,
        },
        11 => read_pull(b),
        12 => read_push(b),
        _ => None,
    }
}

impl Message {
    /// The message at the front of the bytes. Bytes after it are ignored. Fails
    /// exactly where the bytes do not start with the binary form of a message.
    pub fn from_bytes(data: &[u8]) -> (r: Result<Self, ProtocolError>)
        ensures
            match r {
                Ok(m) => encodable(m@) && encode(m@).is_prefix_of(data@),
                Err(e) => {
                    &&& e == ProtocolError::Malformed
                    &&& forall|m: MessageView|
                        encodable(m) ==> !(#[trigger] encode(m)).is_prefix_of(data@)
                },
            },
    {
        let (t, rest) = match read_u32(data) {
            Some(x) => x,
            None => {
                proof {
                    assert forall|m: MessageView| encodable(m) implies !(
                    #[trigger] encode(m)).is_prefix_of(data@) by {
                        wire::prefix_of_concat(
                            wire::le_bytes(tag(m) as nat, 4),
                            joined(fields(m)),
                            data@,
                        );
                    }
                }
                return Err(ProtocolError::Malformed);
            },
        };
        match read_fields(t, rest) {
            Some(m) => {
                proof {
                    wire::le_bytes_len(t as nat, 4);
                    fields_in_order(m@, rest@);
                    wire::prefix_of_concat(wire::le_bytes(t as nat, 4), joined(fields(m@)), data@);
                }
                Ok(m)
            },
            None => {
                proof {
                    wire::byte_ranges();
                    assert forall|m: MessageView| encodable(m) implies !(
                    #[trigger] encode(m)).is_prefix_of(data@) by {
                        if encode(m).is_prefix_of(data@) {
                            wire::prefix_of_concat(
                                wire::le_bytes(tag(m) as nat, 4),
                                joined(fields(m)),
                                data@,
                            );
                            wire::le_bytes_unique(t as nat, tag(m) as nat, 4, data@);
                            wire::le_bytes_len(t as nat, 4);
                            fields_in_order(m, rest@);
                            assert(reads(t, rest@, m));
                        }
                    }
                }
                Err(ProtocolError::Malformed)
            },
        }
    }
}

// The form of messages, field by field.

/// Every message starts with four bytes that say which of the thirteen it is, and holds its
/// fields behind them in this order.
pub proof fn messages_have_one_form(
    conn_id: u32,
    host: Seq<char>,
    port: u16,
    data: Seq<u8>,
    to: Option<u32>,
    message: Seq<char>,
    cmd: Option<Seq<char>>,
    cols: u16,
    rows: u16,
    term: Seq<char>,
    code: i32,
    paths: Seq<Seq<char>>,
    level: i32,
    path: Seq<char>,
)
    ensures
        ({
            let id = wire::le_bytes(conn_id as nat, 4);
            let size = wire::le_bytes(cols as nat, 2) + wire::le_bytes(rows as nat, 2);
            &&& encode(MessageView::Connect { conn_id, host, port }) == seq![0u8, 0, 0, 0] + id
                + wire::text(host) + wire::le_bytes(port as nat, 2)
            &&& encode(MessageView::Data { conn_id, data }) == seq![1u8, 0, 0, 0] + id + wire::blob(
                data,
            )
            &&& encode(MessageView::Close { conn_id }) == seq![2u8, 0, 0, 0] + id
            &&& encode(MessageView::Ping) == seq![3u8, 0, 0, 0]
            &&& encode(MessageView::Pong) == seq![4u8, 0, 0, 0]
            &&& encode(MessageView::Error { conn_id: to, message }) == seq![5u8, 0, 0, 0]
                + wire::optional_u32(to) + wire::text(message)
            &&& encode(MessageView::Reset) == seq![6u8, 0, 0, 0]
            &&& encode(MessageView::Exec { conn_id, cmd, cols, rows, term }) == seq![7u8, 0, 0, 0]
                + id + wire::optional_text(cmd) + size + wire::text(term)
            &&& encode(MessageView::Resize { conn_id, cols, rows }) == seq![8u8, 0, 0, 0] + id
                + size
            &&& encode(MessageView::ExitStatus { conn_id, code }) == seq![9u8, 0, 0, 0] + id
                + wire::le_bytes(wire::twos_complement(code), 4)
            &&& encode(MessageView::Abort { conn_id }) == seq![10u8, 0, 0, 0] + id
            &&& encode(MessageView::Pull { conn_id, paths, level }) == seq![11u8, 0, 0, 0] + id
                + wire::text_list(paths) + wire::le_bytes(wire::twos_complement(level), 4)
            &&& encode(MessageView::Push { conn_id, path }) == seq![12u8, 0, 0, 0] + id
                + wire::text(path)
        }),
{
    let id = wire::le_bytes(conn_id as nat, 4);
    let c = wire::le_bytes(cols as nat, 2);
    let r = wire::le_bytes(rows as nat, 2);
    small_tags(0);
    small_tags(1);
    small_tags(2);
    small_tags(3);
    small_tags(4);
    small_tags(5);
    small_tags(6);
    small_tags(7);
    small_tags(8);
    small_tags(9);
    small_tags(10);
    small_tags(11);
    small_tags(12);
    parts_of_three(id, wire::text(host), wire::le_bytes(port as nat, 2));
    parts_of_two(id, wire::blob(data));
    parts_of_one(id);
    parts_of_two(wire::optional_u32(to), wire::text(message));
    parts_of_five(id, wire::optional_text(cmd), c, r, wire::text(term));
    parts_of_three(id, c, r);
    parts_of_two(id, wire::le_bytes(wire::twos_complement(code), 4));
    parts_of_three(id, wire::text_list(paths), wire::le_bytes(wire::twos_complement(level), 4));
    parts_of_two(id, wire::text(path));
    let none = Seq::<Seq<u8>>::empty();
    assert(joined(none) =~= Seq::<u8>::empty());
    assert(encode(MessageView::Connect { conn_id, host, port }) =~= seq![0u8, 0, 0, 0] + id
        + wire::text(host) + wire::le_bytes(port as nat, 2));
    assert(encode(MessageView::Data { conn_id, data }) =~= seq![1u8, 0, 0, 0] + id + wire::blob(
        data,
    ));
    assert(encode(MessageView::Ping) =~= seq![3u8, 0, 0, 0]);
    assert(encode(MessageView::Pong) =~= seq![4u8, 0, 0, 0]);
    assert(encode(MessageView::Error { conn_id: to, message }) =~= seq![5u8, 0, 0, 0]
        + wire::optional_u32(to) + wire::text(message));
    assert(encode(MessageView::Reset) =~= seq![6u8, 0, 0, 0]);
    assert(encode(MessageView::Exec { conn_id, cmd, cols, rows, term }) =~= seq![7u8, 0, 0, 0] + id
        + wire::optional_text(cmd) + (c + r) + wire::text(term));
    assert(encode(MessageView::Resize { conn_id, cols, rows }) =~= seq![8u8, 0, 0, 0] + id + (c
        + r));
    assert(encode(MessageView::ExitStatus { conn_id, code }) =~= seq![9u8, 0, 0, 0] + id
        + wire::le_bytes(wire::twos_complement(code), 4));
    assert(encode(MessageView::Pull { conn_id, paths, level }) =~= seq![11u8, 0, 0, 0] + id
        + wire::text_list(paths) + wire::le_bytes(wire::twos_complement(level), 4));
    assert(encode(MessageView::Push { conn_id, path }) =~= seq![12u8, 0, 0, 0] + id + wire::text(
        path,
    ));
}

proof fn small_tags(n: u8)
    ensures
        wire::le_bytes(n as nat, 4) == seq![n, 0, 0, 0],
{
    reveal_with_fuel(wire::le_bytes, 5);
    assert(wire::le_bytes(n as nat, 4) =~= seq![n, 0, 0, 0]);
}

proof fn parts_of_one(a: Seq<u8>)
    ensures
        joined(seq![a]) == a,
{
    joined_one(a);
}

proof fn parts_of_two(a: Seq<u8>, b: Seq<u8>)
    ensures
        joined(seq![a, b]) == a + b,
{
    assert(seq![a, b].skip(1) =~= seq![b]);
    parts_of_one(b);
}

proof fn parts_of_three(a: Seq<u8>, b: Seq<u8>, c: Seq<u8>)
    ensures
        joined(seq![a, b, c]) == a + (b + c),
{
    assert(seq![a, b, c].skip(1) =~= seq![b, c]);
    parts_of_two(b, c);
}

proof fn parts_of_five(a: Seq<u8>, b: Seq<u8>, c: Seq<u8>, d: Seq<u8>, e: Seq<u8>)
    ensures
        joined(seq![a, b, c, d, e]) == a + (b + (c + (d + e))),
{
    assert(seq![a, b, c, d, e].skip(1) =~= seq![b, c, d, e]);
    assert(seq![b, c, d, e].skip(1) =~= seq![c, d, e]);
    parts_of_three(c, d, e);
    assert(joined(seq![b, c, d, e]) == b + (c + (d + e)));
}

/// What a message says is what its fields hold.
pub proof fn messages_say_their_fields(
    conn_id: u32,
    text: String,
    maybe: Option<String>,
    list: Vec<String>,
    data: Vec<u8>,
    a: u16,
    b: u16,
    n: i32,
    to: Option<u32>,
)
    ensures
        (Message::Connect { conn_id, host: text, port: a })@ == (MessageView::Connect {
            conn_id,
            host: text@,
            port: a,
        }),
        (Message::Data { conn_id, data })@ == (MessageView::Data { conn_id, data: data@ }),
        (Message::Close { conn_id })@ == (MessageView::Close { conn_id }),
        Message::Ping@ == MessageView::Ping,
        Message::Pong@ == MessageView::Pong,
        (Message::Error { conn_id: to, message: text })@ == (MessageView::Error {
            conn_id: to,
            message: text@,
        }),
        Message::Reset@ == MessageView::Reset,
        (Message::Exec { conn_id, cmd: maybe, cols: a, rows: b, term: text })@ == (
        MessageView::Exec {
            conn_id,
            cmd: match maybe {
                Some(c) => Some(c@),
                None => None,
            },
            cols: a,
            rows: b,
            term: text@,
        }),
        (Message::Resize { conn_id, cols: a, rows: b })@ == (MessageView::Resize {
            conn_id,
            cols: a,
            rows: b,
        }),
        (Message::ExitStatus { conn_id, code: n })@ == (MessageView::ExitStatus {
            conn_id,
            code: n,
        }),
        (Message::Abort { conn_id })@ == (MessageView::Abort { conn_id }),
        (Message::Pull { conn_id, paths: list, level: n })@ == (MessageView::Pull {
            conn_id,
            paths: list@.map_values(|s: String| s@),
            level: n,
        }),
        (Message::Push { conn_id, path: text })@ == (MessageView::Push { conn_id, path: text@ }),
{
}

} // verus!
