//! The stream from server to client: server-sent events, each of which carries one
//! encrypted message in Base64, with empty comments in between to keep it alive.

use crate::text;
use base64ct::Encoding;
use vstd::prelude::*;

verus! {

broadcast use vstd::seq::group_seq_axioms;

/// The comment that keeps an idle stream alive.
pub const KEEPALIVE: &'static str = ":\n\n";

/// Seconds between two of them.
pub const KEEPALIVE_SECS: u64 = 15;

/// What `Base64::encode_string` yields.
pub uninterp spec fn base64_text(data: Seq<u8>) -> Seq<char>;

/// What `Base64::decode_vec` reads, where the text is valid.
pub uninterp spec fn base64_bytes(s: Seq<char>) -> Option<Seq<u8>>;

/// What `String::from_utf8_lossy` reads: the text, with a replacement character
/// where the bytes are no UTF-8.
pub uninterp spec fn utf8_lossy(bytes: Seq<u8>) -> Seq<char>;

/// A character of the standard Base64 alphabet, or its padding.
pub open spec fn is_base64_char(c: char) -> bool {
    ('A' <= c && c <= 'Z') || ('a' <= c && c <= 'z') || ('0' <= c && c <= '9') || c == '+' || c
        == '/' || c == '='
}

/// The text holds Base64 characters only.
pub open spec fn is_base64(s: Seq<char>) -> bool {
    forall|i: int| 0 <= i < s.len() ==> is_base64_char(#[trigger] s[i])
}

/// Why a text is no Base64.
#[verifier::external_type_specification]
#[verifier::external_body]
pub struct ExBase64Error(base64ct::Error);

/// `base64ct::Base64::encode_string`: standard Base64 with padding. The result
/// depends on the data alone, holds characters of that alphabet only, and
/// `Base64::decode_vec` reads the data back. It panics above a quarter of the
/// address space.
#[verifier::external_body]
fn base64_encode(data: &[u8]) -> (r: String)
    requires
        data@.len() <= usize::MAX / 4,
    ensures
        r@ == base64_text(data@),
        is_base64(r@),
        base64_bytes(r@) == Some(data@),
{
    base64ct::Base64::encode_string(data)
}

/// `base64ct::Base64::decode_vec`. Which texts it accepts, and what it reads, depends
/// on the text alone and is not stated.
#[verifier::external_body]
fn base64_decode(s: &str) -> (r: Result<Vec<u8>, base64ct::Error>)
    ensures
        match r {
            Ok(data) => base64_bytes(s@) == Some(data@),
            Err(_) => base64_bytes(s@) is None,
        },
{
    base64ct::Base64::decode_vec(s)
}

/// `String::from_utf8_lossy`: the text itself where the bytes are valid UTF-8. What
/// comes out otherwise depends on the bytes alone and is not stated.
#[verifier::external_body]
fn read_lossy(bytes: &[u8]) -> (r: String)
    ensures
        r@ == utf8_lossy(bytes@),
        vstd::utf8::valid_utf8(bytes@) ==> r@ == vstd::utf8::decode_utf8(bytes@),
{
    String::from_utf8_lossy(bytes).into_owned()
}

// The server's side.

/// The text is an event that carries the data.
pub open spec fn is_event_of(event: Seq<char>, data: Seq<u8>) -> bool {
    exists|body: Seq<char>|
        {
            &&& #[trigger] is_base64(body)
            &&& base64_bytes(body) == Some(data)
            &&& event == "data: "@ + body + "\n\n"@
        }
}

/// The event that carries an encrypted message.
pub fn event(data: &[u8]) -> (r: String)
    requires
        data@.len() <= usize::MAX / 4,
    ensures
        r@ == "data: "@ + base64_text(data@) + "\n\n"@,
        is_event_of(r@, data@),
{
    let body = base64_encode(data);
    let r = event_with(body.as_str());
    assert(is_base64(body@) && r@ == "data: "@ + body@ + "\n\n"@);
    r
}

/// An event with the given content.
pub fn event_with(body: &str) -> (r: String)
    ensures
        r@ == "data: "@ + body@ + "\n\n"@,
{
    String::from_str("data: ").concat(body).concat("\n\n")
}

// The client's side.

/// The position of the first empty line, or -1 where there is none.
pub open spec fn event_end(s: Seq<char>) -> int
    decreases s.len(),
{
    if s.len() < 2 {
        -1
    } else if s[0] == '\n' && s[1] == '\n' {
        0
    } else {
        let i = event_end(s.skip(1));
        if i < 0 {
            -1
        } else {
            i + 1
        }
    }
}

/// The complete events in a text.
pub open spec fn events(s: Seq<char>) -> Seq<Seq<char>>
    decreases s.len(),
{
    let i = event_end(s);
    if i < 0 || i + 2 > s.len() {
        Seq::empty()
    } else {
        seq![s.take(i)] + events(s.skip(i + 2))
    }
}

/// What follows the complete events in a text.
pub open spec fn remainder(s: Seq<char>) -> Seq<char>
    decreases s.len(),
{
    let i = event_end(s);
    if i < 0 || i + 2 > s.len() {
        s
    } else {
        remainder(s.skip(i + 2))
    }
}

/// The contents of the data lines of an event: what follows `data: `, without white
/// space around it.
pub open spec fn payloads(event: Seq<char>) -> Seq<Seq<char>>
    decreases event.len(),
{
    let i = text::first_index(event, '\n');
    let line = event.take(i);
    let own = if "data: "@.is_prefix_of(line) {
        seq![text::trimmed(line.skip("data: "@.len() as int))]
    } else {
        Seq::empty()
    };
    if i < 0 || i >= event.len() {
        own
    } else {
        own + payloads(event.skip(i + 1))
    }
}

/// The contents of the data lines of each event.
pub open spec fn event_payloads(es: Seq<Seq<char>>) -> Seq<Seq<Seq<char>>> {
    es.map_values(|e: Seq<char>| payloads(e))
}

/// An event as it was read: the contents of its data lines. One without any is a
/// comment.
#[derive(Debug)]
pub struct SseEvent {
    pub payloads: Vec<String>,
}

impl View for SseEvent {
    type V = Seq<Seq<char>>;

    open spec fn view(&self) -> Seq<Seq<char>> {
        self.payloads@.map_values(|s: String| s@)
    }
}

/// What a list of events holds.
pub open spec fn read_events(v: Seq<SseEvent>) -> Seq<Seq<Seq<char>>> {
    v.map_values(|e: SseEvent| e@)
}

proof fn event_end_bounds(s: Seq<char>)
    ensures
        -1 <= event_end(s),
        event_end(s) == -1 || event_end(s) + 2 <= s.len(),
    decreases s.len(),
{
    if s.len() >= 2 && !(s[0] == '\n' && s[1] == '\n') {
        event_end_bounds(s.skip(1));
    }
}

fn find_event_end(s: &[char]) -> (r: Option<usize>)
    ensures
        match r {
            Some(i) => i == event_end(s@) && i + 2 <= s@.len(),
            None => event_end(s@) == -1,
        },
{
    let mut i: usize = 0;
    assert(s@.skip(0) =~= s@);
    while s.len() - i >= 2
        invariant
            i <= s@.len(),
            event_end(s@) == if event_end(s@.skip(i as int)) < 0 {
                -1
            } else {
                i + event_end(s@.skip(i as int))
            },
        decreases s@.len() - i,
    {
        if s[i] == '\n' && s[i + 1] == '\n' {
            return Some(i);
        }
        assert(s@.skip(i as int).skip(1) =~= s@.skip(i + 1));
        i += 1;
    }
    None
}

/// Reads the data lines of one event.
fn read_event(event: &[char]) -> (r: SseEvent)
    ensures
        r@ == payloads(event@),
{
    let mut out: Vec<String> = Vec::new();
    let mut rest: &[char] = event;
    let mut done = false;
    let ghost said = |s: String| s@;
    assert(out@.map_values(said) + payloads(rest@) =~= payloads(event@));
    while !done
        invariant
            said == (|s: String| s@),
            !done ==> out@.map_values(said) + payloads(rest@) == payloads(event@),
            done ==> out@.map_values(said) == payloads(event@),
        decreases rest@.len() + (if done { 0int } else { 1 }),
    {
        let ghost before = out@.map_values(said);
        let size: usize = rest.len();
        proof {
            text::first_index_is_first(rest@, '\n');
        }
        let (line, next) = match text::find(rest, '\n') {
            Some(i) => (
                vstd::slice::slice_subrange(rest, 0, i),
                vstd::slice::slice_subrange(rest, i + 1, size),
            ),
            None => {
                done = true;
                proof {
                    assert(rest@.take(rest@.len() as int) =~= rest@);
                }
                (rest, rest)
            },
        };
        let ghost i = text::first_index(rest@, '\n');
        assert(line@ =~= rest@.take(i));
        match text::strip_prefix(line, "data: ") {
            Some(body) => {
                out.push(text::string_of(text::trim(body)));
                assert(out@.map_values(said) =~= before.push(text::trimmed(body@)));
            },
            None => {},
        }
        proof {
            if done {
                assert(out@.map_values(said) =~= before + payloads(rest@));
            } else {
                assert(out@.map_values(said) + payloads(next@) =~= before + payloads(rest@));
            }
        }
        rest = next;
    }
    SseEvent { payloads: out }
}

/// Reads events out of a stream that arrives in pieces.
#[derive(Debug)]
pub struct SseReader {
    buffer: Vec<char>,
}

impl View for SseReader {
    type V = Seq<char>;

    /// What has arrived of an event that is not complete yet.
    closed spec fn view(&self) -> Seq<char> {
        self.buffer@
    }
}

impl SseReader {
    pub fn new() -> (r: Self)
        ensures
            r@ == Seq::<char>::empty(),
    {
        SseReader { buffer: Vec::new() }
    }

    /// Takes the next piece of the stream as bytes.
    pub fn feed(&mut self, chunk: &[u8]) -> (r: Vec<SseEvent>)
        ensures
            read_events(r@) == event_payloads(events(old(self)@ + utf8_lossy(chunk@))),
            final(self)@ == remainder(old(self)@ + utf8_lossy(chunk@)),
            vstd::utf8::valid_utf8(chunk@) ==> {
                &&& read_events(r@) == event_payloads(
                    events(old(self)@ + vstd::utf8::decode_utf8(chunk@)),
                )
                &&& final(self)@ == remainder(old(self)@ + vstd::utf8::decode_utf8(chunk@))
            },
    {
        let s = read_lossy(chunk);
        self.feed_text(s.as_str())
    }

    /// Takes the next piece of the stream, and hands out the events that it
    /// completes.
    pub fn feed_text(&mut self, chunk: &str) -> (r: Vec<SseEvent>)
        ensures
            read_events(r@) == event_payloads(events(old(self)@ + chunk@)),
            final(self)@ == remainder(old(self)@ + chunk@),
    {
        let mut more = text::chars_of(chunk);
        let mut all: Vec<char> = Vec::new();
        all.append(&mut self.buffer);
        all.append(&mut more);
        let ghost whole = all@;
        assert(whole =~= old(self)@ + chunk@);
        let mut rest: &[char] = all.as_slice();
        let mut out: Vec<SseEvent> = Vec::new();
        assert(read_events(out@) + event_payloads(events(rest@)) =~= event_payloads(
            events(whole),
        ));
        let mut done = false;
        while !done
            invariant
                read_events(out@) + event_payloads(events(rest@)) == event_payloads(events(whole)),
                remainder(rest@) == remainder(whole),
                done ==> event_end(rest@) == -1,
            decreases rest@.len() + (if done { 0int } else { 1 }),
        {
            proof {
                event_end_bounds(rest@);
            }
            let size: usize = rest.len();
            match find_event_end(rest) {
                None => {
                    done = true;
                },
                Some(i) => {
                    let ghost before = read_events(out@);
                    let ghost old_rest = rest@;
                    let e = read_event(vstd::slice::slice_subrange(rest, 0, i));
                    let ghost ev = e@;
                    out.push(e);
                    rest = vstd::slice::slice_subrange(rest, i + 2, size);
                    proof {
                        assert(old_rest.subrange(0, i as int) =~= old_rest.take(i as int));
                        assert(read_events(out@) =~= before.push(ev));
                        assert(events(old_rest) == seq![old_rest.take(i as int)] + events(rest@));
                        assert(event_payloads(events(old_rest)) =~= seq![
                            payloads(old_rest.take(i as int)),
                        ] + event_payloads(events(rest@)));
                        assert(read_events(out@) + event_payloads(events(rest@)) =~= before
                            + event_payloads(events(old_rest)));
                    }
                },
            }
        }
        proof {
            assert(events(rest@) =~= Seq::<Seq<char>>::empty());
            assert(event_payloads(events(rest@)) =~= Seq::<Seq<Seq<char>>>::empty());
            assert(read_events(out@) =~= event_payloads(events(whole)));
        }
        let mut left: Vec<char> = Vec::new();
        left.extend_from_slice(rest);
        assert(left@ =~= rest@);
        self.buffer = left;
        out
    }
}

/// The message in a data line, where it is valid Base64.
pub fn decode_payload(payload: &str) -> (r: Option<Vec<u8>>)
    ensures
        match r {
            Some(data) => base64_bytes(payload@) == Some(data@),
            None => base64_bytes(payload@) is None,
        },
{
    match base64_decode(payload) {
        Ok(data) => Some(data),
        Err(_) => None,
    }
}

/// What a list of byte strings holds.
pub open spec fn byte_views(v: Seq<Vec<u8>>) -> Seq<Seq<u8>> {
    v.map_values(|b: Vec<u8>| b@)
}

/// The data in the payloads that are valid Base64, in order.
pub open spec fn decoded(payloads: Seq<Seq<char>>) -> Seq<Seq<u8>>
    decreases payloads.len(),
{
    if payloads.len() == 0 {
        Seq::empty()
    } else {
        let rest = decoded(payloads.drop_last());
        match base64_bytes(payloads.last()) {
            Some(data) => rest.push(data),
            None => rest,
        }
    }
}

/// The messages in an event; payloads that are no Base64 are left out. An event without
/// any does not carry a message.
pub fn event_data(event: &SseEvent) -> (r: Vec<Vec<u8>>)
    ensures
        byte_views(r@) == decoded(event@),
{
    let mut out: Vec<Vec<u8>> = Vec::new();
    let mut i: usize = 0;
    assert(byte_views(out@) =~= decoded(event@.take(0)));
    while i < event.payloads.len()
        invariant
            i <= event.payloads@.len(),
            byte_views(out@) == decoded(event@.take(i as int)),
        decreases event.payloads@.len() - i,
    {
        let ghost before = byte_views(out@);
        assert(event@.take(i + 1).drop_last() =~= event@.take(i as int));
        assert(event@.take(i + 1).last() == event.payloads@[i as int]@);
        if let Some(data) = decode_payload(event.payloads[i].as_str()) {
            out.push(data);
            assert(byte_views(out@) =~= before.push(data@));
        }
        i += 1;
    }
    assert(event@.take(event@.len() as int) =~= event@);
    out
}

// What holds of the stream as a whole.

/// More text behind a complete event does not move its end.
proof fn event_end_of_longer(a: Seq<char>, b: Seq<char>)
    requires
        event_end(a) >= 0,
    ensures
        event_end(a + b) == event_end(a),
    decreases a.len(),
{
    event_end_bounds(a);
    if !(a[0] == '\n' && a[1] == '\n') {
        event_end_of_longer(a.skip(1), b);
        assert((a + b).skip(1) =~= a.skip(1) + b);
    }
}

/// Where a stream is cut into pieces does not matter: reading `a` and then `b` yields
/// the events of `a + b` in the same order, and leaves the same rest.
pub proof fn cutting_does_not_matter(a: Seq<char>, b: Seq<char>)
    ensures
        events(a + b) == events(a) + events(remainder(a) + b),
        remainder(a + b) == remainder(remainder(a) + b),
    decreases a.len(),
{
    event_end_bounds(a);
    let i = event_end(a);
    if i < 0 {
        assert(events(a) =~= Seq::<Seq<char>>::empty());
        assert(events(a) + events(a + b) =~= events(a + b));
    } else {
        event_end_of_longer(a, b);
        let rest = a.skip(i + 2);
        cutting_does_not_matter(rest, b);
        assert((a + b).skip(i + 2) =~= rest + b);
        assert((a + b).take(i) =~= a.take(i));
        assert(events(a + b) =~= seq![a.take(i)] + events(rest + b));
        assert(events(a) + events(remainder(a) + b) =~= seq![a.take(i)] + (events(rest) + events(
            remainder(rest) + b,
        )));
    }
}

/// Pieces of a text, one after the other.
pub open spec fn joined(chunks: Seq<Seq<char>>) -> Seq<char>
    decreases chunks.len(),
{
    if chunks.len() == 0 {
        Seq::empty()
    } else {
        joined(chunks.drop_last()) + chunks.last()
    }
}

/// What a reader that starts with nothing has handed out after the pieces, one feed
/// each.
pub open spec fn fed(chunks: Seq<Seq<char>>) -> (Seq<Seq<char>>, Seq<char>)
    decreases chunks.len(),
{
    if chunks.len() == 0 {
        (Seq::empty(), Seq::empty())
    } else {
        let (es, left) = fed(chunks.drop_last());
        (es + events(left + chunks.last()), remainder(left + chunks.last()))
    }
}

/// However a stream is cut into pieces, the reader hands out the events of the whole
/// stream in order.
pub proof fn pieces_yield_the_whole(chunks: Seq<Seq<char>>)
    ensures
        fed(chunks) == (events(joined(chunks)), remainder(joined(chunks))),
    decreases chunks.len(),
{
    if chunks.len() == 0 {
        assert(events(Seq::<char>::empty()) =~= Seq::<Seq<char>>::empty());
        assert(remainder(Seq::<char>::empty()) =~= Seq::<char>::empty());
    } else {
        pieces_yield_the_whole(chunks.drop_last());
        cutting_does_not_matter(joined(chunks.drop_last()), chunks.last());
    }
}

/// Bytes of ASCII characters.
pub open spec fn is_ascii(bytes: Seq<u8>) -> bool {
    forall|i: int| 0 <= i < bytes.len() ==> #[trigger] bytes[i] < 0x80
}

/// Pieces of a byte stream, one after the other.
pub open spec fn joined_bytes(chunks: Seq<Seq<u8>>) -> Seq<u8>
    decreases chunks.len(),
{
    if chunks.len() == 0 {
        Seq::empty()
    } else {
        joined_bytes(chunks.drop_last()) + chunks.last()
    }
}

/// Each piece as text.
pub open spec fn decoded_chunks(chunks: Seq<Seq<u8>>) -> Seq<Seq<char>> {
    chunks.map_values(|b: Seq<u8>| vstd::utf8::decode_utf8(b))
}

proof fn ascii_is_valid(bytes: Seq<u8>)
    requires
        is_ascii(bytes),
    ensures
        vstd::utf8::valid_utf8(bytes),
{
    let n = bytes.len() as int;
    assert forall|i: int| 0 <= i < n implies #[trigger] vstd::utf8::is_leading_byte_width_1(
        bytes[i],
    ) by {
        assert(bytes[i] < 0x80);
        let b = bytes[i];
        assert(b < 0x80 ==> b & 0x80 == 0) by (bit_vector);
    }
    assert(bytes.subrange(0, 0) =~= Seq::<u8>::empty());
    assert(vstd::utf8::partial_valid_utf8(bytes, 0));
    vstd::utf8::partial_valid_utf8_extend_ascii_block(bytes, 0, n);
    assert(bytes.subrange(0, n) =~= bytes);
}

proof fn ascii_concat(a: Seq<u8>, b: Seq<u8>)
    requires
        is_ascii(a),
        is_ascii(b),
    ensures
        is_ascii(a + b),
        vstd::utf8::decode_utf8(a + b) == vstd::utf8::decode_utf8(a) + vstd::utf8::decode_utf8(b),
{
    let all = a + b;
    let n = a.len() as int;
    assert forall|i: int| 0 <= i < all.len() implies #[trigger] all[i] < 0x80 by {
        if i < n {
            assert(a[i] < 0x80);
        } else {
            assert(b[i - n] < 0x80);
        }
    }
    ascii_is_valid(all);
    if n < all.len() {
        let c = all[n];
        assert(c < 0x80);
        assert(c < 0x80 ==> c & 0xc0 != 0x80) by (bit_vector);
        vstd::utf8::is_char_boundary_iff_not_is_continuation_byte(all, n);
    } else {
        vstd::utf8::is_char_boundary_start_end_of_seq(all);
    }
    vstd::utf8::decode_utf8_split(all, n);
    assert(all.subrange(0, n) =~= a);
    assert(all.subrange(n, all.len() as int) =~= b);
}

proof fn decoded_pieces(chunks: Seq<Seq<u8>>)
    requires
        forall|i: int| 0 <= i < chunks.len() ==> is_ascii(#[trigger] chunks[i]),
    ensures
        is_ascii(joined_bytes(chunks)),
        joined(decoded_chunks(chunks)) == vstd::utf8::decode_utf8(joined_bytes(chunks)),
    decreases chunks.len(),
{
    let texts = decoded_chunks(chunks);
    if chunks.len() == 0 {
        assert(vstd::utf8::decode_utf8(Seq::<u8>::empty()) =~= Seq::<char>::empty());
    } else {
        let front = chunks.drop_last();
        assert forall|i: int| 0 <= i < front.len() implies is_ascii(#[trigger] front[i]) by {
            assert(front[i] == chunks[i]);
        }
        decoded_pieces(front);
        assert(is_ascii(chunks[chunks.len() - 1]));
        ascii_concat(joined_bytes(front), chunks.last());
        assert(texts.drop_last() =~= decoded_chunks(front));
    }
}

/// The network may cut the stream anywhere, even within a message: however its bytes are
/// cut, the client reads the events of the whole stream in order.
pub proof fn bytes_may_be_cut_anywhere(chunks: Seq<Seq<u8>>)
    requires
        forall|i: int| 0 <= i < chunks.len() ==> is_ascii(#[trigger] chunks[i]),
    ensures
        ({
            let whole = vstd::utf8::decode_utf8(joined_bytes(chunks));
            fed(decoded_chunks(chunks)) == (events(whole), remainder(whole))
        }),
{
    decoded_pieces(chunks);
    pieces_yield_the_whole(decoded_chunks(chunks));
}

/// What the server puts on the stream: an event with a message, or a comment.
pub enum StreamItem {
    /// An event that carries data.
    Event { text: Seq<char>, data: Seq<u8> },
    /// A keep-alive comment.
    Comment,
}

/// An event in the stream carries its data.
pub open spec fn well_formed(item: StreamItem) -> bool {
    match item {
        StreamItem::Event { text, data } => is_event_of(text, data),
        StreamItem::Comment => true,
    }
}

/// The text of what the server sends, in order.
pub open spec fn stream_text(items: Seq<StreamItem>) -> Seq<char>
    decreases items.len(),
{
    if items.len() == 0 {
        Seq::empty()
    } else {
        (match items[0] {
            StreamItem::Event { text, .. } => text,
            StreamItem::Comment => KEEPALIVE@,
        }) + stream_text(items.skip(1))
    }
}

/// The data that an event read by the client carries, one per data line.
pub open spec fn data_of(event: Seq<char>) -> Seq<Option<Seq<u8>>> {
    payloads(event).map_values(|p: Seq<char>| base64_bytes(p))
}

/// A text without line ends, followed by an empty line, is one event.
proof fn one_event(line: Seq<char>, rest: Seq<char>)
    requires
        forall|i: int| 0 <= i < line.len() ==> line[i] != '\n',
    ensures
        event_end(line + "\n\n"@ + rest) == line.len(),
    decreases line.len(),
{
    reveal_strlit("\n\n");
    let s = line + "\n\n"@ + rest;
    if line.len() > 0 {
        one_event(line.skip(1), rest);
        assert(s.skip(1) =~= line.skip(1) + "\n\n"@ + rest);
        assert(s[0] == line[0]);
    } else {
        assert(s[0] == '\n' && s[1] == '\n');
    }
}

/// A text without white space at either end is not trimmed.
proof fn trim_keeps(s: Seq<char>)
    requires
        is_base64(s),
    ensures
        text::trimmed(s) == s,
{
    if s.len() > 0 {
        assert(is_base64_char(s[0]));
        assert(is_base64_char(s[s.len() - 1]));
    }
}

/// The client reads out of an event exactly the data that the server put into it.
pub proof fn event_round_trip(event: Seq<char>, data: Seq<u8>, rest: Seq<char>)
    requires
        is_event_of(event, data),
    ensures
        events(event + rest).len() == 1 + events(rest).len(),
        events(event + rest).skip(1) == events(rest),
        remainder(event + rest) == remainder(rest),
        data_of(events(event + rest)[0]) == seq![Some(data)],
{
    let body = choose|body: Seq<char>|
        {
            &&& #[trigger] is_base64(body)
            &&& base64_bytes(body) == Some(data)
            &&& event == "data: "@ + body + "\n\n"@
        };
    reveal_strlit("data: ");
    reveal_strlit("\n\n");
    let line = "data: "@ + body;
    assert forall|i: int| 0 <= i < line.len() implies line[i] != '\n' by {
        if i >= 6 {
            assert(line[i] == body[i - 6]);
            assert(is_base64_char(body[i - 6]));
        }
    }
    one_event(line, rest);
    let s = event + rest;
    assert(s =~= line + "\n\n"@ + rest);
    let i = event_end(s);
    assert(s.take(i) =~= line);
    assert(s.skip(i + 2) =~= rest);
    assert(events(s).skip(1) =~= events(rest));
    text::first_index_is_first(line, '\n');
    assert(line.take(line.len() as int) =~= line);
    assert("data: "@.is_prefix_of(line)) by {
        assert("data: "@ =~= line.subrange(0, "data: "@.len() as int));
    }
    assert(line.skip(6) =~= body);
    trim_keeps(body);
    assert(payloads(line) =~= seq![body]);
    assert(data_of(line) =~= seq![Some(data)]);
}

/// A comment carries no data.
proof fn comment_is_empty(rest: Seq<char>)
    ensures
        events(KEEPALIVE@ + rest).len() == 1 + events(rest).len(),
        events(KEEPALIVE@ + rest).skip(1) == events(rest),
        remainder(KEEPALIVE@ + rest) == remainder(rest),
        data_of(events(KEEPALIVE@ + rest)[0]) == Seq::<Option<Seq<u8>>>::empty(),
{
    reveal_strlit(":\n\n");
    reveal_strlit("\n\n");
    reveal_strlit("data: ");
    let line = seq![':'];
    one_event(line, rest);
    let s = KEEPALIVE@ + rest;
    assert(s =~= line + "\n\n"@ + rest);
    assert(s.take(1) =~= line);
    assert(s.skip(3) =~= rest);
    assert(events(s).skip(1) =~= events(rest));
    text::first_index_is_first(line, '\n');
    assert(payloads(line) =~= Seq::<Seq<char>>::empty());
    assert(data_of(line) =~= Seq::<Option<Seq<u8>>>::empty());
}

/// Whatever the server puts on the stream, the client reads it back item by item:
/// each event carries the server's data, each comment carries none, and nothing is
/// left over.
pub proof fn stream_round_trip(items: Seq<StreamItem>)
    requires
        forall|i: int| 0 <= i < items.len() ==> well_formed(#[trigger] items[i]),
    ensures
        events(stream_text(items)).len() == items.len(),
        remainder(stream_text(items)).len() == 0,
        forall|i: int|
            #![trigger items[i]]
            0 <= i < items.len() ==> data_of(events(stream_text(items))[i]) == (match items[i] {
                StreamItem::Event { data, .. } => seq![Some(data)],
                StreamItem::Comment => Seq::empty(),
            }),
    decreases items.len(),
{
    if items.len() > 0 {
        let rest = items.skip(1);
        assert forall|i: int| 0 <= i < rest.len() implies well_formed(#[trigger] rest[i]) by {
            assert(rest[i] == items[i + 1]);
        }
        stream_round_trip(rest);
        let s = stream_text(items);
        assert(well_formed(items[0]));
        match items[0] {
            StreamItem::Event { text, data } => {
                event_round_trip(text, data, stream_text(rest));
            },
            StreamItem::Comment => {
                comment_is_empty(stream_text(rest));
            },
        }
        assert forall|i: int|
            #![trigger items[i]]
            0 <= i < items.len() implies data_of(events(s)[i]) == (match items[i] {
            StreamItem::Event { data, .. } => seq![Some(data)],
            StreamItem::Comment => Seq::empty(),
        }) by {
            if i > 0 {
                assert(events(s)[i] == events(s).skip(1)[i - 1]);
                assert(items[i] == rest[i - 1]);
            }
        }
    }
}

/// A comment keeps the stream alive every fifteen seconds.
pub proof fn comments_keep_the_stream_alive()
    ensures
        KEEPALIVE@ == ":\n\n"@,
        KEEPALIVE_SECS == 15,
{
}

/// A line of an event carries data exactly where it starts with `data: `, and what it
/// carries is the rest of the line, without white space around it. Lines are read one by one.
pub proof fn data_lines_are_read(line: Seq<char>, rest: Seq<char>)
    requires
        forall|i: int| 0 <= i < line.len() ==> #[trigger] line[i] != '\n',
    ensures
        payloads("data: "@ + line) == seq![text::trimmed(line)],
        !"data: "@.is_prefix_of(line) ==> payloads(line).len() == 0,
        payloads(line + seq!['\n'] + rest) == payloads(line) + payloads(rest),
{
    reveal_strlit("data: ");
    let own = "data: "@ + line;
    assert forall|i: int| 0 <= i < own.len() implies #[trigger] own[i] != '\n' by {
        if i >= 6 {
            assert(own[i] == line[i - 6]);
        }
    }
    text::first_index_is_first(own, '\n');
    assert(own.take(own.len() as int) =~= own);
    assert("data: "@ =~= own.subrange(0, 6));
    assert(own.skip(6) =~= line);
    assert(payloads(own) =~= seq![text::trimmed(line)]);
    text::first_index_is_first(line, '\n');
    assert(line.take(line.len() as int) =~= line);
    let all = line + seq!['\n'] + rest;
    text::first_index_is_first(all, '\n');
    let i = text::first_index(all, '\n');
    assert(all[line.len() as int] == '\n');
    assert(i == line.len()) by {
        if i < line.len() {
            assert(all[i] == line[i]);
        }
    }
    assert(all.take(i) =~= line);
    assert(all.skip(i + 1) =~= rest);
    assert(payloads(all) =~= payloads(line) + payloads(rest));
}

/// There is no empty line in the text, nor would one more line end make one.
pub open spec fn without_empty_line(s: Seq<char>) -> bool {
    &&& forall|i: int| 0 <= i < s.len() - 1 ==> !(#[trigger] s[i] == '\n' && s[i + 1] == '\n')
    &&& s.len() > 0 ==> s.last() != '\n'
}

/// Events are what stands between empty lines, in order; what follows the last empty line is
/// left over.
pub proof fn empty_lines_end_events(s: Seq<char>, rest: Seq<char>)
    requires
        without_empty_line(s),
    ensures
        events(s + seq!['\n', '\n'] + rest) == seq![s] + events(rest),
        remainder(s + seq!['\n', '\n'] + rest) == remainder(rest),
        events(s).len() == 0,
        remainder(s) == s,
        events(s + seq!['\n']).len() == 0,
        remainder(s + seq!['\n']) == s + seq!['\n'],
{
    let all = s + seq!['\n', '\n'] + rest;
    ends_at_the_empty_line(s, rest);
    no_end_without_empty_line(s);
    no_end_without_empty_line(s + seq!['\n']);
    assert(all.take(s.len() as int) =~= s);
    assert(all.skip(s.len() as int + 2) =~= rest);
    assert(events(all) =~= seq![s] + events(rest));
}

proof fn ends_at_the_empty_line(s: Seq<char>, rest: Seq<char>)
    requires
        without_empty_line(s),
    ensures
        event_end(s + seq!['\n', '\n'] + rest) == s.len(),
    decreases s.len(),
{
    let all = s + seq!['\n', '\n'] + rest;
    if s.len() > 0 {
        let t = s.skip(1);
        assert forall|i: int| 0 <= i < t.len() - 1 implies !(#[trigger] t[i] == '\n' && t[i + 1]
            == '\n') by {
            assert(t[i] == s[i + 1]);
            assert(t[i + 1] == s[i + 2]);
        }
        assert(t.len() > 0 ==> t.last() == s.last());
        ends_at_the_empty_line(t, rest);
        assert(all.skip(1) =~= t + seq!['\n', '\n'] + rest);
        assert(all[0] == s[0]);
        if s.len() > 1 {
            assert(all[1] == s[1]);
        }
    } else {
        assert(all[0] == '\n' && all[1] == '\n');
    }
}

proof fn no_end_without_empty_line(s: Seq<char>)
    requires
        forall|i: int| 0 <= i < s.len() - 1 ==> !(#[trigger] s[i] == '\n' && s[i + 1] == '\n'),
    ensures
        event_end(s) == -1,
    decreases s.len(),
{
    if s.len() >= 2 {
        let t = s.skip(1);
        assert forall|i: int| 0 <= i < t.len() - 1 implies !(#[trigger] t[i] == '\n' && t[i + 1]
            == '\n') by {
            assert(t[i] == s[i + 1]);
            assert(t[i + 1] == s[i + 2]);
        }
        no_end_without_empty_line(t);
        assert(!(s[0int] == '\n' && s[0int + 1] == '\n'));
    }
}

/// Each payload gives the data that it is Base64 of, and nothing where it is none; the order
/// stays.
pub proof fn payloads_are_decoded_one_by_one(a: Seq<Seq<char>>, b: Seq<Seq<char>>, one: Seq<char>)
    ensures
        decoded(a + b) == decoded(a) + decoded(b),
        decoded(seq![one]) == (match base64_bytes(one) {
            Some(data) => seq![data],
            None => Seq::empty(),
        }),
    decreases b.len(),
{
    reveal_with_fuel(decoded, 2);
    let none = Seq::<Seq<char>>::empty();
    assert(seq![one].drop_last() =~= none);
    assert(decoded(none).push(base64_bytes(one)->0) =~= seq![base64_bytes(one)->0]);
    if b.len() == 0 {
        assert(a + b =~= a);
        assert(decoded(a) + decoded(b) =~= decoded(a));
    } else {
        payloads_are_decoded_one_by_one(a, b.drop_last(), one);
        assert((a + b).drop_last() =~= a + b.drop_last());
        assert((a + b).last() == b.last());
        assert(decoded(a + b) =~= decoded(a) + decoded(b));
    }
}

/// Each event is read on its own, at its place.
pub proof fn events_are_read_one_by_one(es: Seq<Seq<char>>, read: Seq<SseEvent>, i: int)
    requires
        0 <= i < es.len(),
    ensures
        event_payloads(es).len() == es.len(),
        event_payloads(es)[i] == payloads(es[i]),
        read_events(read).len() == read.len(),
        i < read.len() ==> read_events(read)[i].len() == read[i].payloads@.len(),
{
}

/// The characters of Base64: letters, digits, `+`, `/`, and `=` for what is left open.
pub proof fn base64_has_its_characters(c: char)
    ensures
        is_base64_char(c) <==> 0x41 <= c as int <= 0x5a || 0x61 <= c as int <= 0x7a || 0x30 <= c as int
            <= 0x39 || c as int == 0x2b || c as int == 0x2f || c as int == 0x3d,
{
}

} // verus!
