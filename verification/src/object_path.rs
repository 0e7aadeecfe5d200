//! Paths of objects in an object store.

use object_store::path::Path;
use vstd::prelude::*;
use vstd::utf8::*;

verus! {

/// ASCII control characters, which no path holds.
pub open spec fn control_char(c: char) -> bool {
    c < ' ' || c == '\u{7f}'
}

/// Characters that stand in a path as they are: printable ASCII without the delimiter and
/// without those that are percent-encoded.
pub open spec fn plain_char(c: char) -> bool {
    &&& ' ' <= c <= '}'
    &&& c != '/'
    &&& c != '\\'
    &&& c != '{'
    &&& c != '^'
    &&& c != '}'
    &&& c != '%'
    &&& c != '`'
    &&& c != ']'
    &&& c != '"'
    &&& c != '>'
    &&& c != '['
    &&& c != '<'
    &&& c != '#'
    &&& c != '|'
    &&& c != '*'
    &&& c != '?'
}

/// Whether `s` is one of the relative segments `.` and `..`.
pub open spec fn relative_segment(s: Seq<char>) -> bool {
    ||| s.len() == 1 && s[0] == '.'
    ||| s.len() == 2 && s[0] == '.' && s[1] == '.'
}

/// Whether `s` stands in a path, as one segment, as it is.
pub open spec fn plain_segment(s: Seq<char>) -> bool {
    &&& s.len() > 0
    &&& forall|i: int| 0 <= i < s.len() ==> plain_char(#[trigger] s[i])
    &&& !relative_segment(s)
}

/// Whether `from..to` are the bounds of one of the segments of `s` between its delimiters.
pub open spec fn segment_at(s: Seq<char>, from: int, to: int) -> bool {
    &&& 0 <= from <= to <= s.len()
    &&& from == 0 || s[from - 1] == '/'
    &&& to == s.len() || s[to] == '/'
    &&& forall|i: int| from <= i < to ==> s[i] != '/'
}

/// Whether `s` is the text of a path: empty, or segments between single delimiters, none of
/// them empty or relative, without control characters.
pub open spec fn path_text(s: Seq<char>) -> bool {
    ||| s.len() == 0
    ||| {
        &&& forall|i: int| 0 <= i < s.len() ==> !control_char(#[trigger] s[i])
        &&& forall|from: int, to: int| #[trigger]
            segment_at(s, from, to) ==> from < to && !relative_segment(s.subrange(from, to))
    }
}

/// Whether every segment of `s` stands in a path as it is.
pub open spec fn plain_path(s: Seq<char>) -> bool {
    ||| s.len() == 0
    ||| forall|from: int, to: int| #[trigger]
        segment_at(s, from, to) ==> plain_segment(s.subrange(from, to))
}

/// The path `base` with the segment `child` after it.
pub open spec fn joined(base: Seq<char>, child: Seq<char>) -> Seq<char> {
    if base.len() == 0 {
        child
    } else {
        base.push('/') + child
    }
}

/// The hexadecimal digit `d`, in upper case.
pub open spec fn upper_hex(d: int) -> char {
    if d < 10 {
        (d + '0' as int) as char
    } else {
        (d - 10 + 'A' as int) as char
    }
}

/// A byte of a segment as it stands in a path: as it is where it is a plain character, and
/// percent-encoded otherwise.
pub open spec fn encoded_byte(b: u8) -> Seq<char> {
    if plain_char(b as char) {
        seq![b as char]
    } else {
        seq!['%', upper_hex(b as int / 16), upper_hex(b as int % 16)]
    }
}

/// Bytes of a segment as they stand in a path.
pub open spec fn encoded_bytes(bytes: Seq<u8>) -> Seq<char>
    decreases bytes.len(),
{
    if bytes.len() == 0 {
        seq![]
    } else {
        encoded_bytes(bytes.drop_last()) + encoded_byte(bytes.last())
    }
}

/// A segment as it stands in a path: byte by byte, but for the relative segments, whose dots are
/// encoded.
pub open spec fn encoded_segment(s: Seq<char>) -> Seq<char> {
    if relative_segment(s) {
        if s.len() == 1 {
            "%2E"@
        } else {
            "%2E%2E"@
        }
    } else {
        encoded_bytes(encode_utf8(s))
    }
}

/// The path `base` with the segments after it, each encoded and the empty ones left out.
pub open spec fn extended(base: Seq<char>, segments: Seq<Seq<char>>) -> Seq<char>
    decreases segments.len(),
{
    if segments.len() == 0 {
        base
    } else if segments[0].len() == 0 {
        extended(base, segments.drop_first())
    } else {
        extended(joined(base, encoded_segment(segments[0])), segments.drop_first())
    }
}

/// The text of the path that a string names: its segments between the delimiters, encoded.
pub open spec fn encoded_path(raw: Seq<char>) -> Seq<char> {
    extended(seq![], crate::text::pieces(raw, '/'))
}

/// Calls `object_store::path::Path::from`, which splits a string at the delimiters, drops empty
/// segments and percent-encodes the others.
///
/// Claimed: the text is `encoded_path` of the string.
#[verifier::external_body]
fn encode_path(raw: &str) -> (text: String)
    ensures
        text@ == encoded_path(raw@),
{
    Path::from(raw).to_string()
}

/// The text of the path that `raw` spells out, if it does: one delimiter at the start and one at
/// the end may stand around it.
pub open spec fn parsed_path(raw: Seq<char>) -> Option<Seq<char>> {
    let tail = if raw.len() > 0 && raw[0] == '/' {
        raw.drop_first()
    } else {
        raw
    };
    let body = if tail.len() > 0 && tail.last() == '/' {
        tail.drop_last()
    } else {
        tail
    };
    if tail.len() == 0 || (body.len() > 0 && path_text(body)) {
        Some(body)
    } else {
        None
    }
}

/// Calls `object_store::path::Path::parse`, which takes a string as the text of a path.
///
/// Claimed: a string that spells out a path, with or without a delimiter at either end, gives
/// the text of that path unchanged; any other string is refused.
#[verifier::external_body]
fn parse_path(raw: &str) -> (text: Option<String>)
    ensures
        match text {
            Some(text) => parsed_path(raw@) == Some(text@),
            None => parsed_path(raw@) is None,
        },
{
    Path::parse(raw).ok().map(|path| path.to_string())
}

/// Calls `object_store::path::Path::join`, which appends one segment to a path.
///
/// Claimed: a plain segment is appended as it is, after a delimiter unless the path is empty.
#[verifier::external_body]
fn join_path(base: &str, child: &str) -> (text: String)
    requires
        path_text(base@),
        plain_segment(child@),
    ensures
        text@ == joined(base@, child@),
{
    Path::parse(base).unwrap().join(child).to_string()
}

/// Path of an object, or of a prefix of objects, in an object store.
#[derive(Debug)]
pub struct ObjectPath {
    text: String,
}

impl View for ObjectPath {
    type V = Seq<char>;

    closed spec fn view(&self) -> Seq<char> {
        self.text@
    }
}

impl Clone for ObjectPath {
    fn clone(&self) -> (res: Self)
        ensures
            res == *self,
    {
        proof {
            use_type_invariant(self);
        }
        ObjectPath { text: self.text.clone() }
    }
}

impl ObjectPath {
    #[verifier::type_invariant]
    spec fn well_formed(self) -> bool {
        path_text(self.text@)
    }

    /// The path that a string names, its segments encoded where they need it.
    pub fn encode(raw: &str) -> (path: ObjectPath)
        ensures
            path@ == encoded_path(raw@),
            path_text(path@),
            plain_path(raw@) ==> path@ == raw@,
    {
        proof {
            encoded_path_is_a_path(raw@);
            if plain_path(raw@) {
                plain_path_stays_as_it_is(raw@);
            }
        }
        ObjectPath { text: encode_path(raw) }
    }

    /// The path whose text is `raw`, where `raw` is the text of a path.
    pub fn parse(raw: &str) -> (path: Option<ObjectPath>)
        ensures
            match path {
                Some(path) => parsed_path(raw@) == Some(path@),
                None => parsed_path(raw@) is None,
            },
    {
        match parse_path(raw) {
            Some(text) => Some(ObjectPath { text }),
            None => None,
        }
    }

    /// This path with one more segment.
    pub fn join(&self, child: &str) -> (path: ObjectPath)
        requires
            plain_segment(child@),
        ensures
            path@ == joined(self@, child@),
            path_text(path@),
    {
        proof {
            use_type_invariant(self);
            lemma_joined_is_a_path(self@, child@);
        }
        ObjectPath { text: join_path(self.text.as_str(), child) }
    }

    /// The text of this path.
    pub fn as_str(&self) -> (text: &str)
        ensures
            text@ == self@,
    {
        self.text.as_str()
    }

    /// The text of this path.
    pub fn to_text(&self) -> (text: String)
        ensures
            text@ == self@,
    {
        self.text.clone()
    }
}

/// Paths under one base whose last segments differ are different paths.
pub proof fn joined_is_injective(base: Seq<char>, a: Seq<char>, b: Seq<char>)
    requires
        joined(base, a) == joined(base, b),
    ensures
        a == b,
{
    if base.len() > 0 {
        let n = base.len() + 1;
        assert(joined(base, a).skip(n as int) == a);
        assert(joined(base, b).skip(n as int) == b);
    }
}

// ---------------------------------------------------------------------------
// Encoding
// ---------------------------------------------------------------------------

/// Whether `s` may stand between the delimiters of a path.
pub(crate) closed spec fn segment_text(s: Seq<char>) -> bool {
    &&& s.len() > 0
    &&& forall|i: int| 0 <= i < s.len() ==> #[trigger] s[i] != '/' && !control_char(s[i])
    &&& !relative_segment(s)
}

proof fn lemma_joined_is_a_path(base: Seq<char>, child: Seq<char>)
    requires
        path_text(base),
        segment_text(child),
    ensures
        path_text(joined(base, child)),
{
    let whole = joined(base, child);
    let n = base.len() as int;
    assert forall|from: int, to: int| #[trigger] segment_at(whole, from, to) implies from < to
        && !relative_segment(whole.subrange(from, to)) by {
        if n == 0 {
            assert(from == 0 && to == child.len());
            assert(whole.subrange(from, to) == child);
        } else {
            assert(whole[n] == '/');
            if from <= n {
                assert(to <= n);
                assert forall|i: int| 0 <= i < n implies whole[i] == base[i] by {}
                assert forall|i: int| from <= i < to implies base[i] != '/' by {
                    assert(whole[i] == base[i]);
                }
                if from > 0 {
                    assert(whole[from - 1] == base[from - 1]);
                }
                if to < n {
                    assert(whole[to] == base[to]);
                }
                assert(segment_at(base, from, to));
                assert(whole.subrange(from, to) == base.subrange(from, to));
            } else {
                assert(from == n + 1) by {
                    if from > n + 1 {
                        assert(whole[from - 1] == child[from - 1 - (n + 1)]);
                    }
                }
                assert(to == whole.len()) by {
                    if to < whole.len() {
                        assert(whole[to] == child[to - (n + 1)]);
                    }
                }
                assert(whole.subrange(from, to) == child);
            }
        }
    }
    assert forall|i: int| 0 <= i < whole.len() implies !control_char(#[trigger] whole[i]) by {
        if n == 0 {
            assert(whole[i] == child[i]);
        } else if i > n {
            assert(whole[i] == child[i - (n + 1)]);
        } else if i < n {
            assert(whole[i] == base[i]);
        }
    }
}

/// What bytes are encoded as: no delimiters and no control characters, at least one character for
/// each byte; and the bytes themselves where nothing was percent-encoded.
proof fn lemma_encoded_bytes(bytes: Seq<u8>)
    ensures
        encoded_bytes(bytes).len() >= bytes.len(),
        forall|i: int|
            0 <= i < encoded_bytes(bytes).len() ==> #[trigger] encoded_bytes(bytes)[i] != '/'
                && !control_char(encoded_bytes(bytes)[i]),
        !encoded_bytes(bytes).contains('%') ==> encoded_bytes(bytes).len() == bytes.len()
            && forall|i: int|
            0 <= i < bytes.len() ==> encoded_bytes(bytes)[i] == #[trigger] bytes[i] as char,
    decreases bytes.len(),
{
    if bytes.len() > 0 {
        let head = encoded_bytes(bytes.drop_last());
        let tail = encoded_byte(bytes.last());
        let whole = encoded_bytes(bytes);
        lemma_encoded_bytes(bytes.drop_last());
        assert forall|i: int| 0 <= i < whole.len() implies #[trigger] whole[i] != '/'
            && !control_char(whole[i]) by {
            if i < head.len() {
                assert(whole[i] == head[i]);
            } else {
                assert(whole[i] == tail[i - head.len()]);
            }
        }
        if !whole.contains('%') {
            if head.contains('%') {
                let k = head.index_of('%');
                assert(whole[k] == '%');
            }
            if !plain_char(bytes.last() as char) {
                assert(whole[head.len() as int] == '%');
            }
            assert forall|i: int| 0 <= i < bytes.len() implies whole[i] == #[trigger] bytes[i] as char by {
                if i < bytes.len() - 1 {
                    assert(bytes.drop_last()[i] == bytes[i]);
                    assert(whole[i] == head[i]);
                }
            }
        }
    }
}

pub(crate) proof fn lemma_encoded_segment(s: Seq<char>)
    requires
        s.len() > 0,
    ensures
        segment_text(encoded_segment(s)),
        encoded_segment(s).len() > 0,
{
    reveal_strlit("%2E");
    reveal_strlit("%2E%2E");
    if !relative_segment(s) {
        let bytes = encode_utf8(s);
        let text = encoded_bytes(bytes);
        lemma_encoded_bytes(bytes);
        assert(bytes.len() > 0) by {
            if bytes.len() == 0 {
                assert(encode_utf8(seq![]) == bytes);
                crate::text::lemma_bytes_determine_text(s, seq![]);
            }
        }
        if relative_segment(text) {
            assert(!text.contains('%'));
            assert forall|i: int| 0 <= i < text.len() implies 0 <= #[trigger] text[i] as nat <= 127 by {
            }
            is_ascii_chars_encode_utf8(text);
            assert forall|i: int| 0 <= i < text.len() implies bytes[i] == encode_utf8(text)[i] by {
                assert(text[i] == bytes[i] as char);
                assert(text[i] as u8 == encode_utf8(text)[i]);
            }
            assert(bytes == encode_utf8(text));
            crate::text::lemma_bytes_determine_text(s, text);
        }
    }
}

proof fn lemma_extended_is_a_path(base: Seq<char>, segments: Seq<Seq<char>>)
    requires
        path_text(base),
    ensures
        path_text(extended(base, segments)),
    decreases segments.len(),
{
    if segments.len() > 0 {
        if segments[0].len() == 0 {
            lemma_extended_is_a_path(base, segments.drop_first());
        } else {
            lemma_encoded_segment(segments[0]);
            lemma_joined_is_a_path(base, encoded_segment(segments[0]));
            lemma_extended_is_a_path(
                joined(base, encoded_segment(segments[0])),
                segments.drop_first(),
            );
        }
    }
}

/// Whatever a string holds, the text that it is encoded as is the text of a path.
pub proof fn encoded_path_is_a_path(raw: Seq<char>)
    ensures
        path_text(encoded_path(raw)),
{
    lemma_extended_is_a_path(seq![], crate::text::pieces(raw, '/'));
}

proof fn lemma_plain_bytes(s: Seq<char>, bytes: Seq<u8>)
    requires
        s.len() == bytes.len(),
        forall|i: int| 0 <= i < s.len() ==> plain_char(#[trigger] s[i]) && s[i] as u8 == bytes[i],
    ensures
        encoded_bytes(bytes) == s,
    decreases s.len(),
{
    if s.len() > 0 {
        lemma_plain_bytes(s.drop_last(), bytes.drop_last());
        assert(plain_char(s[s.len() - 1]));
        assert(bytes.last() as char == s.last());
        assert(s == s.drop_last().push(s.last()));
    }
}

proof fn lemma_plain_segment(s: Seq<char>)
    requires
        plain_segment(s),
    ensures
        encoded_segment(s) == s,
{
    assert forall|i: int| 0 <= i < s.len() implies 0 <= #[trigger] s[i] as nat <= 127 by {
        assert(plain_char(s[i]));
    }
    is_ascii_chars_encode_utf8(s);
    lemma_plain_bytes(s, encode_utf8(s));
}

proof fn lemma_plain_from(raw: Seq<char>, start: int, base: Seq<char>)
    requires
        raw.len() > 0,
        plain_path(raw),
        0 <= start <= raw.len(),
        start == 0 || raw[start - 1] == '/',
    ensures
        extended(base, crate::text::pieces(raw.skip(start), '/')) == joined(base, raw.skip(start)),
    decreases raw.len() - start,
{
    let rest = raw.skip(start);
    let at = crate::text::position(rest, '/') as int;
    crate::text::lemma_position(rest, '/');
    let piece = rest.take(at);
    assert(piece == raw.subrange(start, start + at));
    assert forall|i: int| start <= i < start + at implies raw[i] != '/' by {
        assert(rest[i - start] == raw[i]);
    }
    if at < rest.len() {
        assert(rest[at] == raw[start + at]);
    }
    assert(segment_at(raw, start, start + at));
    lemma_plain_segment(piece);
    let pieces = crate::text::pieces(rest, '/');
    let next = joined(base, piece);
    assert(pieces[0] == piece);
    if at < rest.len() {
        let after = rest.skip(at + 1);
        assert(after == raw.skip(start + at + 1));
        assert(pieces.drop_first() == crate::text::pieces(after, '/'));
        lemma_plain_from(raw, start + at + 1, next);
        assert(joined(next, after) == joined(base, rest));
    } else {
        assert(pieces.drop_first() =~= seq![]);
        assert(extended(next, pieces.drop_first()) == next);
        assert(piece == rest);
    }
}

/// A string whose segments are all plain is the text of the path that it names.
pub proof fn plain_path_stays_as_it_is(raw: Seq<char>)
    requires
        plain_path(raw),
    ensures
        encoded_path(raw) == raw,
{
    assert(raw.skip(0) == raw);
    if raw.len() > 0 {
        lemma_plain_from(raw, 0, seq![]);
    } else {
        let pieces = crate::text::pieces(raw, '/');
        assert(pieces[0].len() == 0);
        assert(pieces.drop_first() =~= seq![]);
        assert(extended(raw, pieces.drop_first()) == raw);
        assert(raw =~= seq![]);
    }
}

} // verus!
