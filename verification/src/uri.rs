//! Addresses of the tunnel server and paths on it: a URI taken apart into its
//! components, as RFC 3986 draws the lines between them.
//!
//! The characters within a component are not checked, but for control characters,
//! which no component may hold.

use crate::text;
use vstd::prelude::*;

verus! {

broadcast use vstd::seq::group_seq_axioms;

/// The longest URI that is read, in bytes.
pub const MAX_URI_LEN: usize = 65534;

/// A URI in its five components.
#[derive(Debug, PartialEq, Eq)]
pub struct Uri {
    pub scheme: Option<String>,
    pub authority: Option<String>,
    pub path: String,
    pub query: Option<String>,
    pub fragment: Option<String>,
}

/// What a URI says.
#[verifier::ext_equal]
pub struct UriView {
    pub scheme: Option<Seq<char>>,
    pub authority: Option<Seq<char>>,
    pub path: Seq<char>,
    pub query: Option<Seq<char>>,
    pub fragment: Option<Seq<char>>,
}

/// What an optional string says.
pub open spec fn said(s: Option<String>) -> Option<Seq<char>> {
    match s {
        Some(s) => Some(s@),
        None => None,
    }
}

impl View for Uri {
    type V = UriView;

    open spec fn view(&self) -> UriView {
        UriView {
            scheme: said(self.scheme),
            authority: said(self.authority),
            path: self.path@,
            query: said(self.query),
            fragment: said(self.fragment),
        }
    }
}

/// What an optional URI says.
pub open spec fn said_uri(u: Option<Uri>) -> Option<UriView> {
    match u {
        Some(u) => Some(u@),
        None => None,
    }
}

/// Why a text is no URI.
#[derive(Debug, Clone, Copy, PartialEq, Eq, Structural)]
pub enum UriError {
    Empty,
    TooLong,
    ControlCharacter,
    /// Neither a scheme nor a slash at the front.
    NoScheme,
}

/// A character that no URI may hold.
pub open spec fn is_control(c: char) -> bool {
    (c as int) < 0x20 || c as int == 0x7f
}

/// A character that starts a scheme.
pub open spec fn is_letter(c: char) -> bool {
    ('a' <= c && c <= 'z') || ('A' <= c && c <= 'Z')
}

/// A character within a scheme.
pub open spec fn is_scheme_char(c: char) -> bool {
    is_letter(c) || ('0' <= c && c <= '9') || c == '+' || c == '-' || c == '.'
}

/// The position of the colon behind a scheme, looking from `i` on.
pub open spec fn colon_from(s: Seq<char>, i: int) -> Option<int>
    decreases s.len() - i,
{
    if i < 0 || i >= s.len() {
        None
    } else if s[i] == ':' {
        Some(i)
    } else if is_scheme_char(s[i]) {
        colon_from(s, i + 1)
    } else {
        None
    }
}

/// The position of the colon behind the scheme, where the text starts with one.
pub open spec fn scheme_end(s: Seq<char>) -> Option<int> {
    if s.len() > 0 && is_letter(s[0]) {
        colon_from(s, 1)
    } else {
        None
    }
}

/// Where a component ends: at the first `#`, or `?` where `question`, or `/` where
/// `slash`; or at the end of the text.
pub open spec fn component_end(s: Seq<char>, slash: bool, question: bool) -> int
    decreases s.len(),
{
    if s.len() == 0 || s[0] == '#' || (question && s[0] == '?') || (slash && s[0] == '/') {
        0
    } else {
        1 + component_end(s.skip(1), slash, question)
    }
}

/// Path, query and fragment of a text, behind a scheme and an authority.
pub open spec fn with_path(
    scheme: Option<Seq<char>>,
    authority: Option<Seq<char>>,
    s: Seq<char>,
) -> UriView {
    let p = component_end(s, false, true);
    let after_path = s.skip(p);
    let has_query = after_path.len() > 0 && after_path[0] == '?';
    let q = component_end(after_path, false, false);
    let tail = after_path.skip(q);
    UriView {
        scheme,
        authority,
        path: s.take(p),
        query: if has_query {
            Some(after_path.subrange(1, q))
        } else {
            None
        },
        fragment: if tail.len() > 0 {
            Some(tail.skip(1))
        } else {
            None
        },
    }
}

/// The components of a text that is short enough and has no control characters: a
/// path where it starts with a slash, else a scheme, an authority behind two slashes,
/// and a path. Nothing where it starts with neither.
pub open spec fn components(s: Seq<char>) -> Option<UriView> {
    if s.len() > 0 && s[0] == '/' {
        Some(with_path(None, None, s))
    } else {
        match scheme_end(s) {
            None => None,
            Some(i) => {
                let rest = s.skip(i + 1);
                if rest.len() >= 2 && rest[0] == '/' && rest[1] == '/' {
                    let body = rest.skip(2);
                    let a = component_end(body, true, true);
                    Some(with_path(Some(s.take(i)), Some(body.take(a)), body.skip(a)))
                } else {
                    Some(with_path(Some(s.take(i)), None, rest))
                }
            },
        }
    }
}

/// Why the text is no URI, or its components.
pub open spec fn parsed(s: Seq<char>) -> Result<UriView, UriError> {
    if s.len() == 0 {
        Err(UriError::Empty)
    } else if vstd::utf8::encode_utf8(s).len() > MAX_URI_LEN {
        Err(UriError::TooLong)
    } else if exists|i: int| 0 <= i < s.len() && is_control(#[trigger] s[i]) {
        Err(UriError::ControlCharacter)
    } else {
        match components(s) {
            Some(u) => Ok(u),
            None => Err(UriError::NoScheme),
        }
    }
}

/// The text of a URI.
pub open spec fn uri_text(u: UriView) -> Seq<char> {
    (match u.scheme {
        Some(s) => s + ":"@,
        None => Seq::empty(),
    }) + (match u.authority {
        Some(a) => "//"@ + a,
        None => Seq::empty(),
    }) + u.path + (match u.query {
        Some(q) => "?"@ + q,
        None => Seq::empty(),
    }) + (match u.fragment {
        Some(f) => "#"@ + f,
        None => Seq::empty(),
    })
}

/// The path without slashes at its end; one stays where there is nothing else.
pub open spec fn trimmed_path(p: Seq<char>) -> Seq<char> {
    let t = without_trailing_slashes(p);
    if p.len() > 0 && t.len() == 0 {
        "/"@
    } else {
        t
    }
}

pub open spec fn ends_with_slash(p: Seq<char>) -> bool {
    p.len() > 0 && p.last() == '/'
}

pub open spec fn without_trailing_slashes(p: Seq<char>) -> Seq<char>
    decreases p.len(),
{
    if p.len() > 0 && p.last() == '/' {
        without_trailing_slashes(p.drop_last())
    } else {
        p
    }
}

fn is_letter_char(c: char) -> (r: bool)
    ensures
        r == is_letter(c),
{
    ('a' <= c && c <= 'z') || ('A' <= c && c <= 'Z')
}

fn find_scheme_end(s: &[char]) -> (r: Option<usize>)
    ensures
        match r {
            Some(i) => scheme_end(s@) == Some(i as int) && 0 < i < s@.len(),
            None => scheme_end(s@) is None,
        },
{
    if s.len() == 0 || !is_letter_char(s[0]) {
        return None;
    }
    let mut i: usize = 1;
    while i < s.len()
        invariant
            1 <= i <= s@.len(),
            scheme_end(s@) == colon_from(s@, i as int),
        decreases s@.len() - i,
    {
        let c: char = s[i];
        if c == ':' {
            return Some(i);
        }
        if !(is_letter_char(c) || ('0' <= c && c <= '9') || c == '+' || c == '-' || c == '.') {
            return None;
        }
        i += 1;
    }
    None
}

/// `component_end` stays within the text.
proof fn component_end_bounds(s: Seq<char>, slash: bool, question: bool)
    ensures
        0 <= component_end(s, slash, question) <= s.len(),
        component_end(s, slash, question) < s.len() ==> {
            let c = s[component_end(s, slash, question)];
            c == '#' || (question && c == '?') || (slash && c == '/')
        },
        forall|i: int|
            0 <= i < component_end(s, slash, question) ==> {
                let c = #[trigger] s[i];
                c != '#' && (question ==> c != '?') && (slash ==> c != '/')
            },
    decreases s.len(),
{
    if !(s.len() == 0 || s[0] == '#' || (question && s[0] == '?') || (slash && s[0] == '/')) {
        component_end_bounds(s.skip(1), slash, question);
        let n = component_end(s, slash, question);
        assert forall|i: int| 0 <= i < n implies {
            let c = #[trigger] s[i];
            c != '#' && (question ==> c != '?') && (slash ==> c != '/')
        } by {
            if i > 0 {
                assert(s.skip(1)[i - 1] == s[i]);
            }
        }
    }
}

fn find_component_end(s: &[char], slash: bool, question: bool) -> (r: usize)
    ensures
        r == component_end(s@, slash, question),
        r <= s@.len(),
{
    let mut i: usize = 0;
    assert(s@.skip(0) =~= s@);
    while i < s.len()
        invariant
            i <= s@.len(),
            component_end(s@, slash, question) == i + component_end(
                s@.skip(i as int),
                slash,
                question,
            ),
        decreases s@.len() - i,
    {
        let c: char = s[i];
        if c == '#' || (question && c == '?') || (slash && c == '/') {
            return i;
        }
        assert(s@.skip(i as int).skip(1) =~= s@.skip(i + 1));
        i += 1;
    }
    i
}

fn read_path(scheme: Option<String>, authority: Option<String>, s: &[char]) -> (r: Uri)
    ensures
        r@ == with_path(said(scheme), said(authority), s@),
{
    let p: usize = find_component_end(s, false, true);
    let after_path = vstd::slice::slice_subrange(s, p, s.len());
    let has_query = after_path.len() > 0 && after_path[0] == '?';
    let q: usize = find_component_end(after_path, false, false);
    let tail = vstd::slice::slice_subrange(after_path, q, after_path.len());
    let path = text::string_of(vstd::slice::slice_subrange(s, 0, p));
    let query = if has_query {
        proof {
            component_end_bounds(after_path@.skip(1), false, false);
        }
        Some(text::string_of(vstd::slice::slice_subrange(after_path, 1, q)))
    } else {
        None
    };
    let fragment = if tail.len() > 0 {
        Some(text::string_of(vstd::slice::slice_subrange(tail, 1, tail.len())))
    } else {
        None
    };
    Uri { scheme, authority, path, query, fragment }
}

fn is_control_char(c: char) -> (r: bool)
    ensures
        r == is_control(c),
{
    let n: u32 = c as u32;
    n < 0x20 || n == 0x7f
}

fn has_control(s: &[char]) -> (r: bool)
    ensures
        r == exists|i: int| 0 <= i < s@.len() && is_control(#[trigger] s@[i]),
{
    let mut i: usize = 0;
    while i < s.len()
        invariant
            i <= s@.len(),
            forall|j: int| 0 <= j < i ==> !is_control(#[trigger] s@[j]),
        decreases s@.len() - i,
    {
        if is_control_char(s[i]) {
            assert(is_control(s@[i as int]));
            return true;
        }
        i += 1;
    }
    false
}

/// A copy of an optional string.
pub fn copy_text(s: &Option<String>) -> (r: Option<String>)
    ensures
        said(r) == said(*s),
{
    match s {
        Some(s) => Some(String::from_str(s.as_str())),
        None => None,
    }
}

/// Whether two optional strings say the same.
pub fn same_text(a: &Option<String>, b: &Option<String>) -> (r: bool)
    ensures
        r == (said(*a) == said(*b)),
{
    match (a, b) {
        (Some(a), Some(b)) => text::same_str(a.as_str(), b.as_str()),
        (None, None) => true,
        _ => false,
    }
}

impl Uri {
    /// Takes a URI apart: an absolute one, or a path that starts with a slash.
    pub fn parse(s: &str) -> (r: Result<Uri, UriError>)
        ensures
            match r {
                Ok(u) => parsed(s@) == Ok::<UriView, UriError>(u@),
                Err(e) => parsed(s@) == Err::<UriView, UriError>(e),
            },
    {
        let all = text::chars_of(s);
        let chars: &[char] = all.as_slice();
        if chars.len() == 0 {
            return Err(UriError::Empty);
        }
        if s.as_bytes().len() > MAX_URI_LEN {
            return Err(UriError::TooLong);
        }
        if has_control(chars) {
            return Err(UriError::ControlCharacter);
        }
        if chars[0] == '/' {
            return Ok(read_path(None, None, chars));
        }
        let size: usize = chars.len();
        match find_scheme_end(chars) {
            None => Err(UriError::NoScheme),
            Some(i) => {
                let scheme = Some(text::string_of(vstd::slice::slice_subrange(chars, 0, i)));
                let rest = vstd::slice::slice_subrange(chars, i + 1, size);
                if rest.len() >= 2 && rest[0] == '/' && rest[1] == '/' {
                    let body = vstd::slice::slice_subrange(rest, 2, rest.len());
                    let a: usize = find_component_end(body, true, true);
                    let authority = Some(text::string_of(vstd::slice::slice_subrange(body, 0, a)));
                    Ok(
                        read_path(
                            scheme,
                            authority,
                            vstd::slice::slice_subrange(body, a, body.len()),
                        ),
                    )
                } else {
                    Ok(read_path(scheme, None, rest))
                }
            },
        }
    }

    /// The URI as text.
    pub fn to_text(&self) -> (r: String)
        ensures
            r@ == uri_text(self@),
    {
        let mut out = String::new();
        if let Some(s) = &self.scheme {
            out.append(s.as_str());
            out.append(":");
        }
        if let Some(a) = &self.authority {
            out.append("//");
            out.append(a.as_str());
        }
        out.append(self.path.as_str());
        if let Some(q) = &self.query {
            out.append("?");
            out.append(q.as_str());
        }
        if let Some(f) = &self.fragment {
            out.append("#");
            out.append(f.as_str());
        }
        assert(out@ =~= uri_text(self@));
        out
    }

    /// A copy of the URI.
    pub fn copy(&self) -> (r: Uri)
        ensures
            r@ == self@,
    {
        Uri {
            scheme: copy_text(&self.scheme),
            authority: copy_text(&self.authority),
            path: String::from_str(self.path.as_str()),
            query: copy_text(&self.query),
            fragment: copy_text(&self.fragment),
        }
    }

    /// Whether two URIs are the same.
    pub fn same(&self, other: &Uri) -> (r: bool)
        ensures
            r == (self@ == other@),
    {
        same_text(&self.scheme, &other.scheme) && same_text(&self.authority, &other.authority)
            && text::same_str(self.path.as_str(), other.path.as_str()) && same_text(
            &self.query,
            &other.query,
        ) && same_text(&self.fragment, &other.fragment)
    }

    /// The URI without slashes at the end of its path; one stays where there is nothing
    /// else.
    pub fn trim_trailing_slash(&self) -> (r: Uri)
        ensures
            r@ == (UriView { path: trimmed_path(self@.path), ..self@ }),
    {
        let chars = text::chars_of(self.path.as_str());
        Uri {
            scheme: copy_text(&self.scheme),
            authority: copy_text(&self.authority),
            path: trim_path(chars.as_slice()),
            query: copy_text(&self.query),
            fragment: copy_text(&self.fragment),
        }
    }
}

/// A copy of an optional URI.
pub fn copy_uri(u: &Option<Uri>) -> (r: Option<Uri>)
    ensures
        said_uri(r) == said_uri(*u),
{
    match u {
        Some(u) => Some(u.copy()),
        None => None,
    }
}

/// Whether two optional URIs are the same.
pub fn same_uri(a: &Option<Uri>, b: &Option<Uri>) -> (r: bool)
    ensures
        r == (said_uri(*a) == said_uri(*b)),
{
    match (a, b) {
        (Some(a), Some(b)) => a.same(b),
        (None, None) => true,
        _ => false,
    }
}

fn trim_path(p: &[char]) -> (r: String)
    ensures
        r@ == trimmed_path(p@),
{
    let mut to: usize = p.len();
    assert(p@.take(to as int) =~= p@);
    while to > 0 && p[to - 1] == '/'
        invariant
            to <= p@.len(),
            without_trailing_slashes(p@.take(to as int)) == without_trailing_slashes(p@),
        decreases to,
    {
        assert(p@.take(to as int).drop_last() =~= p@.take(to - 1));
        to -= 1;
    }
    assert(without_trailing_slashes(p@) =~= p@.take(to as int));
    if to == 0 && p.len() > 0 {
        return String::from_str("/");
    }
    text::string_of(vstd::slice::slice_subrange(p, 0, to))
}

/// A URI that was taken apart is put together again from its components.
pub proof fn text_of_parsed(s: Seq<char>)
    requires
        parsed(s) is Ok,
    ensures
        uri_text(parsed(s)->Ok_0) == s,
{
    reveal_strlit(":");
    reveal_strlit("//");
    reveal_strlit("?");
    reveal_strlit("#");
    if s[0] == '/' {
        text_of_path(None, None, s);
        assert(uri_text(parsed(s)->Ok_0) =~= s);
    } else {
        let i = scheme_end(s)->0;
        scheme_end_is_colon(s, 1);
        let rest = s.skip(i + 1);
        assert(s =~= s.take(i) + ":"@ + rest);
        if rest.len() >= 2 && rest[0] == '/' && rest[1] == '/' {
            let body = rest.skip(2);
            component_end_bounds(body, true, true);
            let a = component_end(body, true, true);
            assert(rest =~= "//"@ + body.take(a) + body.skip(a));
            text_of_path(Some(s.take(i)), Some(body.take(a)), body.skip(a));
        } else {
            text_of_path(Some(s.take(i)), None, rest);
        }
        assert(uri_text(parsed(s)->Ok_0) =~= s);
    }
}

proof fn scheme_end_is_colon(s: Seq<char>, i: int)
    requires
        colon_from(s, i) is Some,
        0 <= i,
    ensures
        i <= colon_from(s, i)->0 < s.len(),
        s[colon_from(s, i)->0] == ':',
    decreases s.len() - i,
{
    if i < s.len() && s[i] != ':' && is_scheme_char(s[i]) {
        scheme_end_is_colon(s, i + 1);
    }
}

proof fn text_of_path(scheme: Option<Seq<char>>, authority: Option<Seq<char>>, s: Seq<char>)
    ensures
        uri_text(with_path(scheme, authority, s)) == uri_text(
            UriView { scheme, authority, path: Seq::empty(), query: None, fragment: None },
        ) + s,
{
    reveal_strlit("?");
    reveal_strlit("#");
    let u = with_path(scheme, authority, s);
    let front = uri_text(
        UriView { scheme, authority, path: Seq::empty(), query: None, fragment: None },
    );
    let p = component_end(s, false, true);
    let after_path = s.skip(p);
    let q = component_end(after_path, false, false);
    let tail = after_path.skip(q);
    component_end_bounds(s, false, true);
    component_end_bounds(after_path, false, false);
    assert(s =~= s.take(p) + after_path.take(q) + tail);
    if after_path.len() > 0 && after_path[0] == '?' {
        assert(q > 0) by {
            assert(component_end(after_path, false, false) == 1 + component_end(
                after_path.skip(1),
                false,
                false,
            ));
            component_end_bounds(after_path.skip(1), false, false);
        }
        assert(after_path.take(q) =~= "?"@ + after_path.subrange(1, q));
    } else {
        assert(after_path.take(q) =~= Seq::<char>::empty()) by {
            if after_path.len() > 0 {
                assert(after_path[0] == s[p]);
            }
        }
    }
    if tail.len() > 0 {
        assert(tail[0] == after_path[q]);
        assert(tail =~= "#"@ + tail.skip(1));
    }
    assert(uri_text(u) =~= front + s);
}

/// Trimming slashes off a path a second time changes nothing.
pub proof fn trimming_is_idempotent(p: Seq<char>)
    ensures
        trimmed_path(trimmed_path(p)) == trimmed_path(p),
{
    reveal_strlit("/");
    let root = "/"@;
    assert(root.drop_last() =~= Seq::<char>::empty());
    reveal_with_fuel(without_trailing_slashes, 2);
    trailing_slashes_gone(p);
}

/// A trimmed path ends with a slash only where it is the root.
pub proof fn trimmed_path_end(p: Seq<char>)
    ensures
        ends_with_slash(trimmed_path(p)) ==> trimmed_path(p) == "/"@,
{
    trailing_slashes_gone(p);
}

/// Trimming takes nothing but slashes, and those from the end: what is left stands at the
/// front of the path, and only slashes followed it.
pub proof fn only_trailing_slashes_go(p: Seq<char>)
    ensures
        trimmed_path(p).is_prefix_of(p),
        forall|i: int| trimmed_path(p).len() <= i < p.len() ==> #[trigger] p[i] == '/',
{
    reveal_strlit("/");
    trailing_slashes_gone(p);
    let t = trimmed_path(p);
    assert(t =~= p.subrange(0, t.len() as int));
}

proof fn trailing_slashes_gone(p: Seq<char>)
    ensures
        ({
            let t = without_trailing_slashes(p);
            &&& !ends_with_slash(t)
            &&& t.len() <= p.len()
            &&& t == p.take(t.len() as int)
            &&& forall|i: int| t.len() <= i < p.len() ==> #[trigger] p[i] == '/'
        }),
    decreases p.len(),
{
    let t = without_trailing_slashes(p);
    if p.len() > 0 && p.last() == '/' {
        let rest = p.drop_last();
        trailing_slashes_gone(rest);
        assert(rest.take(t.len() as int) =~= p.take(t.len() as int));
        assert forall|i: int| t.len() <= i < p.len() implies #[trigger] p[i] == '/' by {
            if i < rest.len() {
                assert(rest[i] == p[i]);
            }
        }
    } else {
        assert(p.take(t.len() as int) =~= p);
    }
}

// Texts and components.

/// A URI whose components stay apart when they are put together: a scheme of letters,
/// digits, `+`, `-` and `.` that starts with a letter, or else a path behind a slash; an
/// authority only behind a scheme, and only a path with a slash behind an authority; in each
/// component none of the characters that would end it.
pub open spec fn stays_apart(u: UriView) -> bool {
    &&& u.scheme matches Some(s) ==> s.len() > 0 && is_letter(s[0]) && forall|i: int|
        0 <= i < s.len() ==> is_letter(#[trigger] s[i]) || '0' <= s[i] <= '9' || s[i] == '+'
            || s[i] == '-' || s[i] == '.'
    &&& u.scheme is None ==> u.authority is None && u.path.len() > 0 && u.path[0] == '/'
    &&& u.authority matches Some(a) ==> !a.contains('/') && !a.contains('?') && !a.contains('#')
    &&& u.authority is Some && u.path.len() > 0 ==> u.path[0] == '/'
    &&& u.scheme is Some && u.authority is None ==> !(u.path.len() > 1 && u.path[0] == '/'
        && u.path[1] == '/')
    &&& !u.path.contains('?') && !u.path.contains('#')
    &&& u.query matches Some(q) ==> !q.contains('#')
}

/// The text of a URI is read as that URI.
pub proof fn uris_are_read_back(u: UriView)
    requires
        stays_apart(u),
        vstd::utf8::encode_utf8(uri_text(u)).len() <= 65534,
        forall|i: int|
            0 <= i < uri_text(u).len() ==> (#[trigger] uri_text(u)[i]) as int >= 0x20
                && uri_text(u)[i] as int != 0x7f,
    ensures
        parsed(uri_text(u)) == Ok::<UriView, UriError>(u),
{
    components_are_read_back(u);
    let s = uri_text(u);
    assert forall|i: int| 0 <= i < s.len() implies !is_control(#[trigger] s[i]) by {}
    reveal_strlit(":");
    assert(s.len() > 0);
}

proof fn components_are_read_back(u: UriView)
    requires
        stays_apart(u),
    ensures
        components(uri_text(u)) == Some(u),
{
    reveal_strlit(":");
    let s = uri_text(u);
    let tail = path_text(u);
    match u.scheme {
        None => {
            path_is_read(u);
            assert(s =~= tail);
            assert(s[0] == u.path[0]);
        },
        Some(scheme) => {
            let front = match u.authority {
                Some(a) => "//"@ + a,
                None => Seq::empty(),
            };
            let rest = front + tail;
            assert(s =~= scheme + ":"@ + rest);
            assert(s[0] == scheme[0]);
            scheme_is_found(scheme, rest, 1);
            assert(s.take(scheme.len() as int) =~= scheme);
            assert(s.skip(scheme.len() as int + 1) =~= rest);
            if u.authority is Some {
                authority_is_read(u);
            } else {
                assert(rest =~= tail);
                no_authority_is_read(u);
            }
        },
    }
}

proof fn authority_is_read(u: UriView)
    requires
        stays_apart(u),
        u.authority is Some,
    ensures
        ({
            let a = u.authority->0;
            let rest = "//"@ + a + path_text(u);
            let body = rest.skip(2);
            let n = component_end(body, true, true);
            &&& rest.len() >= 2 && rest[0] == '/' && rest[1] == '/'
            &&& body.take(n) == a
            &&& with_path(u.scheme, Some(a), body.skip(n)) == u
        }),
{
    reveal_strlit("//");
    reveal_strlit("?");
    reveal_strlit("#");
    let a = u.authority->0;
    let tail = path_text(u);
    let rest = "//"@ + a + tail;
    let body = rest.skip(2);
    assert(body =~= a + tail);
    if tail.len() > 0 {
        if u.path.len() > 0 {
            assert(tail[0] == u.path[0]);
        } else if u.query is Some {
            assert(tail[0] == '?');
        } else {
            assert(tail[0] == '#');
        }
    }
    assert forall|i: int| 0 <= i < a.len() implies #[trigger] a[i] != '#' && a[i] != '?' && a[i]
        != '/' by {
        assert(a.contains(a[i]));
    }
    component_ends(a, tail, true, true);
    assert(body.take(a.len() as int) =~= a);
    assert(body.skip(a.len() as int) =~= tail);
    path_is_read(u);
}

proof fn no_authority_is_read(u: UriView)
    requires
        stays_apart(u),
        u.scheme is Some,
        u.authority is None,
    ensures
        ({
            let rest = path_text(u);
            &&& !(rest.len() >= 2 && rest[0] == '/' && rest[1] == '/')
            &&& with_path(u.scheme, None, rest) == u
        }),
{
    reveal_strlit("?");
    reveal_strlit("#");
    let tail = path_text(u);
    if tail.len() > 1 && tail[0] == '/' && tail[1] == '/' {
        if u.path.len() > 1 {
            assert(tail[0] == u.path[0]);
            assert(tail[1] == u.path[1]);
        } else if u.path.len() == 1 {
            assert(tail[1] == '?' || tail[1] == '#');
        } else {
            assert(tail[0] == '?' || tail[0] == '#');
        }
    }
    path_is_read(u);
}

/// The text of path, query and fragment.
spec fn path_text(u: UriView) -> Seq<char> {
    u.path + (match u.query {
        Some(q) => "?"@ + q,
        None => Seq::empty(),
    }) + (match u.fragment {
        Some(f) => "#"@ + f,
        None => Seq::empty(),
    })
}

proof fn path_is_read(u: UriView)
    requires
        stays_apart(u),
    ensures
        with_path(u.scheme, u.authority, path_text(u)) == u,
{
    reveal_strlit("?");
    reveal_strlit("#");
    let fragment = match u.fragment {
        Some(f) => "#"@ + f,
        None => Seq::empty(),
    };
    let query = match u.query {
        Some(q) => "?"@ + q,
        None => Seq::empty(),
    };
    let s = path_text(u);
    let after = query + fragment;
    assert(s =~= u.path + after);
    assert forall|i: int| 0 <= i < u.path.len() implies #[trigger] u.path[i] != '#' && u.path[i]
        != '?' by {
        assert(u.path.contains(u.path[i]));
    }
    component_ends(u.path, after, false, true);
    assert(s.take(u.path.len() as int) =~= u.path);
    assert(s.skip(u.path.len() as int) =~= after);
    assert forall|i: int| 0 <= i < query.len() implies #[trigger] query[i] != '#' by {
        if i > 0 {
            assert(query[i] == u.query->0[i - 1]);
            assert(u.query->0.contains(u.query->0[i - 1]));
        }
    }
    component_ends(query, fragment, false, false);
    assert(after.skip(query.len() as int) =~= fragment);
    if u.query is Some {
        assert(after.subrange(1, query.len() as int) =~= u.query->0);
    }
    if u.fragment is Some {
        assert(fragment.skip(1) =~= u.fragment->0);
    }
    assert(with_path(u.scheme, u.authority, s) =~= u);
}

proof fn component_ends(a: Seq<char>, rest: Seq<char>, slash: bool, question: bool)
    requires
        forall|i: int|
            0 <= i < a.len() ==> #[trigger] a[i] != '#' && (question ==> a[i] != '?') && (slash
                ==> a[i] != '/'),
        rest.len() > 0 ==> rest[0] == '#' || (question && rest[0] == '?') || (slash && rest[0]
            == '/'),
    ensures
        component_end(a + rest, slash, question) == a.len(),
    decreases a.len(),
{
    let s = a + rest;
    if a.len() > 0 {
        assert(s[0] == a[0]);
        assert(s.skip(1) =~= a.skip(1) + rest);
        component_ends(a.skip(1), rest, slash, question);
    } else {
        assert(s =~= rest);
    }
}

proof fn scheme_is_found(scheme: Seq<char>, rest: Seq<char>, i: int)
    requires
        0 <= i <= scheme.len(),
        forall|j: int|
            0 <= j < scheme.len() ==> is_letter(#[trigger] scheme[j]) || '0' <= scheme[j] <= '9'
                || scheme[j] == '+' || scheme[j] == '-' || scheme[j] == '.',
    ensures
        colon_from(scheme + ":"@ + rest, i) == Some(scheme.len() as int),
    decreases scheme.len() - i,
{
    reveal_strlit(":");
    let s = scheme + ":"@ + rest;
    if i < scheme.len() {
        assert(s[i] == scheme[i]);
        scheme_is_found(scheme, rest, i + 1);
    } else {
        assert(s[i] == ':');
    }
}

/// Only such URIs are read: what comes out of a text has components that stay apart.
pub proof fn components_stay_apart(s: Seq<char>)
    requires
        parsed(s) is Ok,
    ensures
        stays_apart(parsed(s)->Ok_0),
        forall|i: int| 0 <= i < s.len() ==> (#[trigger] s[i]) as int >= 0x20 && s[i] as int != 0x7f,
        0 < s.len(),
        vstd::utf8::encode_utf8(s).len() <= 65534,
{
    assert forall|i: int| 0 <= i < s.len() implies (#[trigger] s[i]) as int >= 0x20 && s[i] as int
        != 0x7f by {
        assert(!is_control(s[i]));
    }
    let u = parsed(s)->Ok_0;
    if s[0] == '/' {
        parts_stay_apart(None, None, s);
        component_starts(s, false, true);
        assert(u.path[0] == s[0]);
    } else {
        let i = scheme_end(s)->0;
        scheme_end_is_colon(s, 1);
        let scheme = s.take(i);
        assert forall|j: int| 0 <= j < scheme.len() implies is_letter(#[trigger] scheme[j]) || '0'
            <= scheme[j] <= '9' || scheme[j] == '+' || scheme[j] == '-' || scheme[j] == '.' by {
            assert(scheme[j] == s[j]);
            if j > 0 {
                scheme_chars(s, 1, j);
            }
        }
        let rest = s.skip(i + 1);
        if rest.len() >= 2 && rest[0] == '/' && rest[1] == '/' {
            let body = rest.skip(2);
            component_end_bounds(body, true, true);
            let a = component_end(body, true, true);
            component_is_plain(body, true, true);
            assert(body.take(a) == u.authority->0);
            parts_stay_apart(Some(scheme), Some(body.take(a)), body.skip(a));
            component_end_bounds(body.skip(a), false, true);
            if u.path.len() > 0 {
                assert(u.path[0] == body[a]);
            }
        } else {
            parts_stay_apart(Some(scheme), None, rest);
            component_end_bounds(rest, false, true);
            if u.path.len() > 1 {
                assert(u.path[0] == rest[0]);
                assert(u.path[1] == rest[1]);
            }
        }
    }
}

proof fn scheme_chars(s: Seq<char>, i: int, j: int)
    requires
        colon_from(s, i) is Some,
        0 <= i <= j < colon_from(s, i)->0,
    ensures
        is_letter(s[j]) || '0' <= s[j] <= '9' || s[j] == '+' || s[j] == '-' || s[j] == '.',
    decreases s.len() - i,
{
    if i < j {
        scheme_chars(s, i + 1, j);
    }
}

proof fn component_starts(s: Seq<char>, slash: bool, question: bool)
    requires
        s.len() > 0,
        s[0] == '/',
        !slash,
    ensures
        1 <= component_end(s, slash, question) <= s.len(),
{
    component_end_bounds(s, slash, question);
    component_end_bounds(s.skip(1), slash, question);
}

proof fn component_is_plain(s: Seq<char>, slash: bool, question: bool)
    ensures
        ({
            let c = s.take(component_end(s, slash, question));
            &&& !c.contains('#')
            &&& question ==> !c.contains('?')
            &&& slash ==> !c.contains('/')
        }),
    decreases s.len(),
{
    let n = component_end(s, slash, question);
    component_end_bounds(s, slash, question);
    if n > 0 {
        component_is_plain(s.skip(1), slash, question);
        let c = s.take(n);
        let d = s.skip(1).take(n - 1);
        component_end_bounds(s.skip(1), slash, question);
        assert forall|x: char| #[trigger] c.contains(x) implies x == s[0] || d.contains(x) by {
            let k = choose|k: int| 0 <= k < c.len() && c[k] == x;
            if k > 0 {
                assert(d[k - 1] == c[k]);
            }
        }
    }
}

proof fn parts_stay_apart(scheme: Option<Seq<char>>, authority: Option<Seq<char>>, s: Seq<char>)
    ensures
        ({
            let u = with_path(scheme, authority, s);
            &&& !u.path.contains('?') && !u.path.contains('#')
            &&& u.query matches Some(q) ==> !q.contains('#')
        }),
{
    let u = with_path(scheme, authority, s);
    component_is_plain(s, false, true);
    let after = s.skip(component_end(s, false, true));
    component_is_plain(after, false, false);
    component_end_bounds(after, false, false);
    let q = component_end(after, false, false);
    if u.query is Some {
        component_end_bounds(after.skip(1), false, false);
        assert forall|x: char| #[trigger] u.query->0.contains(x) implies after.take(q).contains(
            x,
        ) by {
            let k = choose|k: int| 0 <= k < u.query->0.len() && u.query->0[k] == x;
            assert(after.take(q)[k + 1] == x);
        }
    }
}

/// A text that is no URI is refused for the first of these: it is empty, longer than 65534
/// bytes, holds a control character, or starts with neither a slash nor a scheme.
pub proof fn refused_texts_are_told_why(s: Seq<char>)
    ensures
        parsed(Seq::empty()) == Err::<UriView, UriError>(UriError::Empty),
        s.len() > 0 && vstd::utf8::encode_utf8(s).len() > 65534 ==> parsed(s) == Err::<
            UriView,
            UriError,
        >(UriError::TooLong),
        s.len() > 0 && vstd::utf8::encode_utf8(s).len() <= 65534 ==> (parsed(s) == Err::<
            UriView,
            UriError,
        >(UriError::ControlCharacter) <==> exists|i: int|
            0 <= i < s.len() && ((#[trigger] s[i]) as int <= 0x1f || s[i] as int == 0x7f)),
        parsed(s) == Err::<UriView, UriError>(UriError::NoScheme) ==> s[0] != '/',
        s.len() > 0 && s[0] != '/' && !('a' <= s[0] <= 'z' || 'A' <= s[0] <= 'Z') ==> parsed(s) is Err,
        !s.contains(':') && !(s.len() > 0 && s[0] == '/') ==> parsed(s) is Err,
{
    if exists|i: int| 0 <= i < s.len() && is_control(#[trigger] s[i]) {
        let i = choose|i: int| 0 <= i < s.len() && is_control(#[trigger] s[i]);
        assert(s[i] as int <= 0x1f || s[i] as int == 0x7f);
    }
    if exists|i: int| 0 <= i < s.len() && ((#[trigger] s[i]) as int <= 0x1f || s[i] as int == 0x7f) {
        let i = choose|i: int|
            0 <= i < s.len() && ((#[trigger] s[i]) as int <= 0x1f || s[i] as int == 0x7f);
        assert(is_control(s[i]));
    }
    if s.len() > 0 && s[0] != '/' && scheme_end(s) is Some {
        scheme_end_is_colon(s, 1);
        assert(s.contains(s[scheme_end(s)->0]));
    }
}

/// Letters are the fifty-two of the alphabet.
pub proof fn letters_are_letters(c: char)
    ensures
        is_letter(c) <==> 0x41 <= c as int <= 0x5a || 0x61 <= c as int <= 0x7a,
        is_scheme_char(c) <==> is_letter(c) || 0x30 <= c as int <= 0x39 || c == '+' || c == '-' || c
            == '.',
{
}

/// A path that is not empty is not trimmed to nothing.
pub proof fn a_path_stays_a_path(p: Seq<char>)
    ensures
        p.len() > 0 ==> trimmed_path(p).len() > 0,
        p.len() == 0 ==> trimmed_path(p).len() == 0,
{
    reveal_strlit("/");
}

} // verus!
