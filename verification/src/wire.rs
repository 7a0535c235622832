//! The binary encoding of single fields, as `bincode` writes them: integers of
//! fixed width in little-endian order, a 64-bit length before text, byte strings
//! and lists, one byte before an optional value.
//!
//! Everything a reader needs to know about a field is the encoding itself: a field
//! can be read off the front of some bytes exactly when they start with the
//! encoding of a value, and then that value is the only one.

use vstd::prelude::*;

verus! {

broadcast use vstd::seq::group_seq_axioms;

/// Why `bincode` could not read a value.
#[verifier::external_type_specification]
#[verifier::external_body]
pub struct ExBincodeErrorKind(bincode::ErrorKind);

/// 256 to the power of `width`: how many values `width` bytes can hold.
pub open spec fn byte_range(width: nat) -> nat
    decreases width,
{
    if width == 0 {
        1
    } else {
        256 * byte_range((width - 1) as nat)
    }
}

/// The lowest `width` bytes of `n`, the least significant first.
pub open spec fn le_bytes(n: nat, width: nat) -> Seq<u8>
    decreases width,
{
    if width == 0 {
        Seq::empty()
    } else {
        seq![(n % 256) as u8] + le_bytes(n / 256, (width - 1) as nat)
    }
}

/// The number that the bytes stand for, the least significant first.
pub open spec fn le_value(s: Seq<u8>) -> nat
    decreases s.len(),
{
    if s.len() == 0 {
        0
    } else {
        s[0] as nat + 256 * le_value(s.skip(1))
    }
}

/// A signed 32-bit number in two's complement, as an unsigned one.
pub open spec fn twos_complement(n: i32) -> nat {
    ((n as int) % 0x1_0000_0000) as nat
}

/// Bytes with their length before them.
pub open spec fn blob(data: Seq<u8>) -> Seq<u8> {
    le_bytes(data.len(), 8) + data
}

/// Text: its UTF-8 bytes with their length before them.
pub open spec fn text(s: Seq<char>) -> Seq<u8> {
    blob(vstd::utf8::encode_utf8(s))
}

/// An optional value: a zero byte, or a one byte and the encoding of the value.
pub open spec fn optional<T>(v: Option<T>, encode: spec_fn(T) -> Seq<u8>) -> Seq<u8> {
    match v {
        None => seq![0u8],
        Some(x) => seq![1u8] + encode(x),
    }
}

/// An optional 32-bit number.
pub open spec fn optional_u32(v: Option<u32>) -> Seq<u8> {
    optional(v, |n: u32| le_bytes(n as nat, 4))
}

/// An optional text.
pub open spec fn optional_text(v: Option<Seq<char>>) -> Seq<u8> {
    optional(v, |s: Seq<char>| text(s))
}

/// The encodings of texts, one after the other.
pub open spec fn joined_texts(v: Seq<Seq<char>>) -> Seq<u8>
    decreases v.len(),
{
    if v.len() == 0 {
        Seq::empty()
    } else {
        text(v[0]) + joined_texts(v.skip(1))
    }
}

/// A list of texts: how many there are, then each of them.
pub open spec fn text_list(v: Seq<Seq<char>>) -> Seq<u8> {
    le_bytes(v.len(), 8) + joined_texts(v)
}

/// What a list of strings says.
pub open spec fn texts(v: Seq<String>) -> Seq<Seq<char>> {
    v.map_values(|s: String| s@)
}

/// What an optional string says.
pub open spec fn text_of(v: Option<String>) -> Option<Seq<char>> {
    match v {
        None => None,
        Some(s) => Some(s@),
    }
}

/// The length of the text fits into the 64-bit length before it.
pub open spec fn short_text(s: Seq<char>) -> bool {
    vstd::utf8::encode_utf8(s).len() <= u64::MAX
}

/// The lengths in a list of texts fit into the 64-bit lengths before them.
pub open spec fn short_text_list(v: Seq<Seq<char>>) -> bool {
    &&& v.len() <= u64::MAX
    &&& forall|i: int| 0 <= i < v.len() ==> short_text(#[trigger] v[i])
}

// Facts about the encodings.

/// `x + y` stands at the front of `b` exactly when `x` does and `y` follows it.
pub proof fn prefix_of_concat(x: Seq<u8>, y: Seq<u8>, b: Seq<u8>)
    ensures
        (x + y).is_prefix_of(b) <==> x.is_prefix_of(b) && y.is_prefix_of(
            b.skip(x.len() as int),
        ),
{
    if (x + y).is_prefix_of(b) {
        assert((x + y) =~= b.subrange(0, (x + y).len() as int));
        assert(x =~= b.subrange(0, x.len() as int)) by {
            assert forall|i: int| 0 <= i < x.len() implies x[i] == b[i] by {
                assert((x + y)[i] == b.subrange(0, (x + y).len() as int)[i]);
            }
        }
        assert(y =~= b.skip(x.len() as int).subrange(0, y.len() as int)) by {
            assert forall|i: int| 0 <= i < y.len() implies y[i] == b[x.len() + i] by {
                assert((x + y)[x.len() + i] == b.subrange(0, (x + y).len() as int)[x.len() + i]);
            }
        }
    }
    if x.is_prefix_of(b) && y.is_prefix_of(b.skip(x.len() as int)) {
        assert((x + y) =~= b.subrange(0, (x + y).len() as int)) by {
            assert forall|i: int| 0 <= i < (x + y).len() implies (x + y)[i] == b[i] by {
                if i < x.len() {
                    assert(x[i] == b.subrange(0, x.len() as int)[i]);
                } else {
                    assert(y[i - x.len()] == b.skip(x.len() as int).subrange(0, y.len() as int)[i
                        - x.len()]);
                }
            }
        }
    }
}

/// Two byte strings of the same length at the front of `b` are the same.
pub proof fn prefixes_of_same_length(x: Seq<u8>, y: Seq<u8>, b: Seq<u8>)
    requires
        x.is_prefix_of(b),
        y.is_prefix_of(b),
        x.len() == y.len(),
    ensures
        x == y,
{
    assert(x =~= b.subrange(0, x.len() as int));
    assert(y =~= b.subrange(0, x.len() as int));
}

/// `le_bytes` yields `width` bytes.
pub proof fn le_bytes_len(n: nat, width: nat)
    ensures
        le_bytes(n, width).len() == width,
    decreases width,
{
    if width > 0 {
        le_bytes_len(n / 256, (width - 1) as nat);
    }
}

/// A number that fits into `width` bytes is read back from them.
pub proof fn le_value_of_le_bytes(n: nat, width: nat)
    requires
        n < byte_range(width),
    ensures
        le_value(le_bytes(n, width)) == n,
    decreases width,
{
    if width > 0 {
        let rest = le_bytes(n / 256, (width - 1) as nat);
        le_value_of_le_bytes(n / 256, (width - 1) as nat);
        assert(le_bytes(n, width).skip(1) =~= rest);
    }
}

/// How much two, four and eight bytes can hold.
pub proof fn byte_ranges()
    ensures
        byte_range(2) == 0x1_0000,
        byte_range(4) == 0x1_0000_0000,
        byte_range(8) == 0x1_0000_0000_0000_0000,
{
    assert(byte_range(2) == 0x1_0000 && byte_range(4) == 0x1_0000_0000 && byte_range(8)
        == 0x1_0000_0000_0000_0000) by {
        reveal_with_fuel(byte_range, 9);
    }
}

/// At most one number of a given width stands at the front of some bytes.
pub proof fn le_bytes_unique(m: nat, n: nat, width: nat, b: Seq<u8>)
    requires
        m < byte_range(width),
        n < byte_range(width),
        le_bytes(m, width).is_prefix_of(b),
        le_bytes(n, width).is_prefix_of(b),
    ensures
        m == n,
{
    le_bytes_len(m, width);
    le_bytes_len(n, width);
    prefixes_of_same_length(le_bytes(m, width), le_bytes(n, width), b);
    le_value_of_le_bytes(m, width);
    le_value_of_le_bytes(n, width);
}

/// At most one byte string stands, with its length, at the front of some bytes.
pub proof fn blob_unique(x: Seq<u8>, y: Seq<u8>, b: Seq<u8>)
    requires
        x.len() <= u64::MAX,
        y.len() <= u64::MAX,
        blob(x).is_prefix_of(b),
        blob(y).is_prefix_of(b),
    ensures
        x == y,
{
    byte_ranges();
    prefix_of_concat(le_bytes(x.len(), 8), x, b);
    prefix_of_concat(le_bytes(y.len(), 8), y, b);
    le_bytes_unique(x.len(), y.len(), 8, b);
    le_bytes_len(x.len(), 8);
    prefixes_of_same_length(x, y, b.skip(8));
}

/// At most one text stands at the front of some bytes.
pub proof fn text_unique(x: Seq<char>, y: Seq<char>, b: Seq<u8>)
    requires
        short_text(x),
        short_text(y),
        text(x).is_prefix_of(b),
        text(y).is_prefix_of(b),
    ensures
        x == y,
{
    blob_unique(vstd::utf8::encode_utf8(x), vstd::utf8::encode_utf8(y), b);
    vstd::utf8::encode_utf8_decode_utf8(x);
    vstd::utf8::encode_utf8_decode_utf8(y);
}

/// At most one optional number stands at the front of some bytes.
pub proof fn optional_u32_unique(x: Option<u32>, y: Option<u32>, b: Seq<u8>)
    requires
        optional_u32(x).is_prefix_of(b),
        optional_u32(y).is_prefix_of(b),
    ensures
        x == y,
{
    byte_ranges();
    assert(optional_u32(x)[0] == b.subrange(0, optional_u32(x).len() as int)[0]);
    assert(optional_u32(y)[0] == b.subrange(0, optional_u32(y).len() as int)[0]);
    if x is Some && y is Some {
        prefix_of_concat(seq![1u8], le_bytes(x->0 as nat, 4), b);
        prefix_of_concat(seq![1u8], le_bytes(y->0 as nat, 4), b);
        le_bytes_unique(x->0 as nat, y->0 as nat, 4, b.skip(1));
    }
}

/// At most one optional text stands at the front of some bytes.
pub proof fn optional_text_unique(x: Option<Seq<char>>, y: Option<Seq<char>>, b: Seq<u8>)
    requires
        x is Some ==> short_text(x->0),
        y is Some ==> short_text(y->0),
        optional_text(x).is_prefix_of(b),
        optional_text(y).is_prefix_of(b),
    ensures
        x == y,
{
    assert(optional_text(x)[0] == b.subrange(0, optional_text(x).len() as int)[0]);
    assert(optional_text(y)[0] == b.subrange(0, optional_text(y).len() as int)[0]);
    if x is Some && y is Some {
        prefix_of_concat(seq![1u8], text(x->0), b);
        prefix_of_concat(seq![1u8], text(y->0), b);
        text_unique(x->0, y->0, b.skip(1));
    }
}

proof fn joined_texts_unique(x: Seq<Seq<char>>, y: Seq<Seq<char>>, b: Seq<u8>)
    requires
        x.len() == y.len(),
        short_text_list(x),
        short_text_list(y),
        joined_texts(x).is_prefix_of(b),
        joined_texts(y).is_prefix_of(b),
    ensures
        x == y,
    decreases x.len(),
{
    if x.len() > 0 {
        prefix_of_concat(text(x[0]), joined_texts(x.skip(1)), b);
        prefix_of_concat(text(y[0]), joined_texts(y.skip(1)), b);
        text_unique(x[0], y[0], b);
        assert forall|i: int| 0 <= i < x.skip(1).len() implies short_text(
            #[trigger] x.skip(1)[i],
        ) by {
            assert(short_text(x[i + 1]));
        }
        assert forall|i: int| 0 <= i < y.skip(1).len() implies short_text(
            #[trigger] y.skip(1)[i],
        ) by {
            assert(short_text(y[i + 1]));
        }
        joined_texts_unique(x.skip(1), y.skip(1), b.skip(text(x[0]).len() as int));
        assert(x =~= seq![x[0]] + x.skip(1));
        assert(y =~= seq![y[0]] + y.skip(1));
    } else {
        assert(x =~= y);
    }
}

/// At most one list of texts stands at the front of some bytes.
pub proof fn text_list_unique(x: Seq<Seq<char>>, y: Seq<Seq<char>>, b: Seq<u8>)
    requires
        short_text_list(x),
        short_text_list(y),
        text_list(x).is_prefix_of(b),
        text_list(y).is_prefix_of(b),
    ensures
        x == y,
{
    byte_ranges();
    prefix_of_concat(le_bytes(x.len(), 8), joined_texts(x), b);
    prefix_of_concat(le_bytes(y.len(), 8), joined_texts(y), b);
    le_bytes_unique(x.len(), y.len(), 8, b);
    le_bytes_len(x.len(), 8);
    joined_texts_unique(x, y, b.skip(8));
}

/// How many bytes the string has in UTF-8.
pub(crate) fn utf8_len(s: &str) -> (r: usize)
    ensures
        r == vstd::utf8::encode_utf8(s@).len(),
{
    s.as_bytes().len()
}

/// Strings that exist in memory are short enough to be written.
pub(crate) fn check_texts(v: &Vec<String>)
    ensures
        short_text_list(texts(v@)),
{
    let mut i: usize = 0;
    while i < v.len()
        invariant
            i <= v.len(),
            forall|j: int| 0 <= j < i ==> short_text(#[trigger] texts(v@)[j]),
        decreases v.len() - i,
    {
        let _size: usize = utf8_len(v[i].as_str());
        i += 1;
    }
}

/// How many bytes the list takes, where it stands at the front of some bytes.
pub(crate) fn text_list_size(v: &Vec<String>, b: &[u8]) -> (r: usize)
    requires
        text_list(texts(v@)).is_prefix_of(b@),
    ensures
        r == text_list(texts(v@)).len(),
{
    let _size: usize = b.len();
    proof {
        le_bytes_len(v.len() as nat, 8);
        assert(texts(v@).skip(0) =~= texts(v@));
    }
    let mut size: usize = 8;
    let mut i: usize = 0;
    while i < v.len()
        invariant
            i <= v.len(),
            size + joined_texts(texts(v@).skip(i as int)).len() == text_list(texts(v@)).len(),
            text_list(texts(v@)).len() <= usize::MAX,
        decreases v.len() - i,
    {
        let n: usize = utf8_len(v[i].as_str());
        proof {
            le_bytes_len(n as nat, 8);
            assert(texts(v@).skip(i as int)[0] == v@[i as int]@);
            assert(texts(v@).skip(i as int).skip(1) =~= texts(v@).skip(i + 1));
        }
        size += 8 + n;
        i += 1;
    }
    size
}

// Writing one field.

/// `bincode::serialize` of a `u16` succeeds with its two bytes, the lower first.
#[verifier::external_body]
pub(crate) fn put_u16(v: u16) -> (r: Result<Vec<u8>, bincode::Error>)
    ensures
        r is Ok && r->Ok_0@ == le_bytes(v as nat, 2),
{
    bincode::serialize(&v)
}

/// `bincode::serialize` of a `u32` succeeds with its four bytes, the lowest first.
#[verifier::external_body]
pub(crate) fn put_u32(v: u32) -> (r: Result<Vec<u8>, bincode::Error>)
    ensures
        r is Ok && r->Ok_0@ == le_bytes(v as nat, 4),
{
    bincode::serialize(&v)
}

/// `bincode::serialize` of an `i32` succeeds with the four bytes of its two's
/// complement, the lowest first.
#[verifier::external_body]
pub(crate) fn put_i32(v: i32) -> (r: Result<Vec<u8>, bincode::Error>)
    ensures
        r is Ok && r->Ok_0@ == le_bytes(twos_complement(v), 4),
{
    bincode::serialize(&v)
}

/// `bincode::serialize` of a string succeeds with the 64-bit count of its UTF-8
/// bytes and the bytes themselves.
#[verifier::external_body]
pub(crate) fn put_text(v: &str) -> (r: Result<Vec<u8>, bincode::Error>)
    ensures
        r is Ok && r->Ok_0@ == text(v@),
{
    bincode::serialize(v)
}

/// `bincode::serialize` of a byte slice succeeds with its 64-bit length and the
/// bytes themselves.
#[verifier::external_body]
pub(crate) fn put_bytes(v: &[u8]) -> (r: Result<Vec<u8>, bincode::Error>)
    ensures
        r is Ok && r->Ok_0@ == blob(v@),
{
    bincode::serialize(v)
}

/// `bincode::serialize` of an `Option<u32>` succeeds with a zero byte for `None`,
/// and with a one byte and the number for `Some`.
#[verifier::external_body]
pub(crate) fn put_optional_u32(v: Option<u32>) -> (r: Result<Vec<u8>, bincode::Error>)
    ensures
        r is Ok && r->Ok_0@ == optional_u32(v),
{
    bincode::serialize(&v)
}

/// `bincode::serialize` of an `Option<String>` succeeds with a zero byte for
/// `None`, and with a one byte and the text for `Some`.
#[verifier::external_body]
pub(crate) fn put_optional_text(v: &Option<String>) -> (r: Result<Vec<u8>, bincode::Error>)
    ensures
        r is Ok && r->Ok_0@ == optional_text(text_of(*v)),
{
    bincode::serialize(v)
}

/// `bincode::serialize` of a `Vec<String>` succeeds with the 64-bit count of the
/// strings and the encoding of each.
#[verifier::external_body]
pub(crate) fn put_text_list(v: &Vec<String>) -> (r: Result<Vec<u8>, bincode::Error>)
    ensures
        r is Ok && r->Ok_0@ == text_list(texts(v@)),
{
    bincode::serialize(v)
}

// Reading one field. `bincode::deserialize` allows bytes to follow the value.

/// `bincode::deserialize` reads a `u16` off the front of the bytes, and fails
/// exactly where they do not start with one.
#[verifier::external_body]
pub(crate) fn get_u16(b: &[u8]) -> (r: Result<u16, bincode::Error>)
    ensures
        match r {
            Ok(v) => le_bytes(v as nat, 2).is_prefix_of(b@),
            Err(_) => forall|v: u16| !(#[trigger] le_bytes(v as nat, 2)).is_prefix_of(b@),
        },
{
    bincode::deserialize(b)
}

/// `bincode::deserialize` reads a `u32` off the front of the bytes, and fails
/// exactly where they do not start with one.
#[verifier::external_body]
pub(crate) fn get_u32(b: &[u8]) -> (r: Result<u32, bincode::Error>)
    ensures
        match r {
            Ok(v) => le_bytes(v as nat, 4).is_prefix_of(b@),
            Err(_) => forall|v: u32| !(#[trigger] le_bytes(v as nat, 4)).is_prefix_of(b@),
        },
{
    bincode::deserialize(b)
}

/// `bincode::deserialize` reads an `i32` off the front of the bytes, and fails
/// exactly where they do not start with one.
#[verifier::external_body]
pub(crate) fn get_i32(b: &[u8]) -> (r: Result<i32, bincode::Error>)
    ensures
        match r {
            Ok(v) => le_bytes(twos_complement(v), 4).is_prefix_of(b@),
            Err(_) => forall|v: i32|
                !le_bytes(#[trigger] twos_complement(v), 4).is_prefix_of(b@),
        },
{
    bincode::deserialize(b)
}

/// `bincode::deserialize` reads a `String` off the front of the bytes, and fails
/// exactly where they do not start with a length and as many bytes of valid UTF-8.
#[verifier::external_body]
pub(crate) fn get_text(b: &[u8]) -> (r: Result<String, bincode::Error>)
    ensures
        match r {
            Ok(v) => short_text(v@) && text(v@).is_prefix_of(b@),
            Err(_) => forall|v: Seq<char>|
                short_text(v) ==> !(#[trigger] text(v)).is_prefix_of(b@),
        },
{
    bincode::deserialize(b)
}

/// `bincode::deserialize` reads a `Vec<u8>` off the front of the bytes, and fails
/// exactly where they do not start with a length and as many bytes.
#[verifier::external_body]
pub(crate) fn get_bytes(b: &[u8]) -> (r: Result<Vec<u8>, bincode::Error>)
    ensures
        match r {
            Ok(v) => blob(v@).is_prefix_of(b@),
            Err(_) => forall|v: Seq<u8>|
                v.len() <= u64::MAX ==> !(#[trigger] blob(v)).is_prefix_of(b@),
        },
{
    bincode::deserialize(b)
}

/// `bincode::deserialize` reads an `Option<u32>` off the front of the bytes, and
/// fails exactly where they do not start with a zero byte, or with a one byte and a
/// number.
#[verifier::external_body]
pub(crate) fn get_optional_u32(b: &[u8]) -> (r: Result<Option<u32>, bincode::Error>)
    ensures
        match r {
            Ok(v) => optional_u32(v).is_prefix_of(b@),
            Err(_) => forall|v: Option<u32>| !(#[trigger] optional_u32(v)).is_prefix_of(b@),
        },
{
    bincode::deserialize(b)
}

/// `bincode::deserialize` reads an `Option<String>` off the front of the bytes, and
/// fails exactly where they do not start with a zero byte, or with a one byte and a
/// text.
#[verifier::external_body]
pub(crate) fn get_optional_text(b: &[u8]) -> (r: Result<Option<String>, bincode::Error>)
    ensures
        match r {
            Ok(v) => {
                &&& v is Some ==> short_text(v->0@)
                &&& optional_text(text_of(v)).is_prefix_of(b@)
            },
            Err(_) => forall|v: Option<Seq<char>>|
                (v is Some ==> short_text(v->0)) ==> !(#[trigger] optional_text(v)).is_prefix_of(
                    b@,
                ),
        },
{
    bincode::deserialize(b)
}

/// `bincode::deserialize` reads a `Vec<String>` off the front of the bytes, and
/// fails exactly where they do not start with a count and as many texts.
#[verifier::external_body]
pub(crate) fn get_text_list(b: &[u8]) -> (r: Result<Vec<String>, bincode::Error>)
    ensures
        match r {
            Ok(v) => short_text_list(texts(v@)) && text_list(texts(v@)).is_prefix_of(b@),
            Err(_) => forall|v: Seq<Seq<char>>|
                short_text_list(v) ==> !(#[trigger] text_list(v)).is_prefix_of(b@),
        },
{
    bincode::deserialize(b)
}

// The form of fields, byte by byte.

/// 256 to the power of `i`.
pub open spec fn place(i: nat) -> nat
    decreases i,
{
    if i == 0 {
        1
    } else {
        256 * place((i - 1) as nat)
    }
}

/// Each byte of a number is the one at its place, the least significant first.
pub proof fn bytes_stand_at_their_place(n: nat, width: nat, i: nat)
    requires
        i < width,
    ensures
        le_bytes(n, width).len() == width,
        le_bytes(n, width)[i as int] as nat == (n / place(i)) % 256,
    decreases width,
{
    le_bytes_len(n, width);
    if i > 0 {
        bytes_stand_at_their_place(n / 256, (width - 1) as nat, (i - 1) as nat);
        let p = place((i - 1) as nat);
        place_is_positive((i - 1) as nat);
        vstd::arithmetic::div_mod::lemma_div_denominator(n as int, 256, p as int);
        assert(place(i) == 256 * p);
        assert(le_bytes(n, width)[i as int] == le_bytes(n / 256, (width - 1) as nat)[i - 1]);
    } else {
        assert(place(i) == 1);
        assert(n / 1 == n);
    }
}

proof fn place_is_positive(i: nat)
    ensures
        place(i) > 0,
    decreases i,
{
    if i > 0 {
        place_is_positive((i - 1) as nat);
    }
}

/// Bytes are written with their number in eight bytes before them; text as its UTF-8 bytes.
pub proof fn lengths_come_first(data: Seq<u8>, s: Seq<char>)
    ensures
        blob(data).len() == 8 + data.len(),
        blob(data).skip(8) == data,
        data.len() <= u64::MAX ==> le_value(blob(data).take(8)) == data.len(),
        text(s).skip(8) == vstd::utf8::encode_utf8(s),
        text(s).take(8) == le_bytes(vstd::utf8::encode_utf8(s).len(), 8),
{
    byte_ranges();
    le_bytes_len(data.len(), 8);
    assert(blob(data).skip(8) =~= data);
    assert(blob(data).take(8) =~= le_bytes(data.len(), 8));
    if data.len() <= u64::MAX {
        le_value_of_le_bytes(data.len(), 8);
    }
    let b = vstd::utf8::encode_utf8(s);
    le_bytes_len(b.len(), 8);
    assert(text(s).skip(8) =~= b);
    assert(text(s).take(8) =~= le_bytes(b.len(), 8));
}

/// The value of bytes counts each 256 times the one before it.
pub proof fn values_count_by_place(b: u8, rest: Seq<u8>)
    ensures
        le_value(seq![b] + rest) == b as nat + 256 * le_value(rest),
        le_value(Seq::empty()) == 0,
{
    assert((seq![b] + rest).skip(1) =~= rest);
}

/// An optional value is a zero byte, or a one byte and the value.
pub proof fn options_start_with_a_flag(n: u32, s: Seq<char>)
    ensures
        optional_u32(None) == seq![0u8],
        optional_u32(Some(n)) == seq![1u8] + le_bytes(n as nat, 4),
        optional_text(None) == seq![0u8],
        optional_text(Some(s)) == seq![1u8] + text(s),
{
}

/// A list is the number of its texts in eight bytes, and each text behind the one before.
pub proof fn lists_hold_their_texts(a: Seq<Seq<char>>, b: Seq<Seq<char>>, s: Seq<char>)
    ensures
        text_list(a) == le_bytes(a.len(), 8) + joined_texts(a),
        joined_texts(a + b) == joined_texts(a) + joined_texts(b),
        joined_texts(seq![s]) == text(s),
        joined_texts(Seq::empty()).len() == 0,
    decreases a.len(),
{
    reveal_with_fuel(joined_texts, 2);
    assert(seq![s].skip(1) =~= Seq::<Seq<char>>::empty());
    assert(text(s) + Seq::<u8>::empty() =~= text(s));
    if a.len() == 0 {
        assert(a + b =~= b);
        assert(joined_texts(a) + joined_texts(b) =~= joined_texts(b));
    } else {
        lists_hold_their_texts(a.skip(1), b, s);
        assert((a + b).skip(1) =~= a.skip(1) + b);
        assert(joined_texts(a + b) =~= joined_texts(a) + joined_texts(b));
    }
}

/// A signed number is written as the unsigned one with the same lowest bits.
pub proof fn signs_are_in_the_top_bit(n: i32)
    ensures
        n >= 0 ==> twos_complement(n) == n,
        n < 0 ==> twos_complement(n) == n + 0x1_0000_0000,
{
}

} // verus!
