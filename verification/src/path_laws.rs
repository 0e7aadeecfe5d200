//! What holds of object paths, stated over their characters.

use vstd::prelude::*;
use vstd::utf8::*;

verus! {

/// Printable ASCII stands in a segment as it is, but for the delimiter and the characters that object
/// stores advise against.
pub proof fn plain_characters_are_printable(c: char)
    ensures
        crate::object_path::plain_char(c) <==> {
            &&& 32 <= c as int <= 124
            &&& c as int != 34
            &&& c as int != 35
            &&& c as int != 37
            &&& c as int != 42
            &&& c as int != 47
            &&& c as int != 60
            &&& c as int != 62
            &&& c as int != 63
            &&& c as int != 91
            &&& c as int != 92
            &&& c as int != 93
            &&& c as int != 94
            &&& c as int != 96
            &&& c as int != 123
            &&& c as int != 124
        },
        crate::object_path::control_char(c) <==> c as int <= 31 || c as int == 127,
{
}

/// A plain segment is plain characters, at least one of them, and neither one dot nor two dots.
pub proof fn plain_segments_are_plain_characters(s: Seq<char>)
    ensures
        crate::object_path::plain_segment(s) <==> {
            &&& s.len() > 0
            &&& forall|i: int|
                0 <= i < s.len() ==> crate::object_path::plain_char(#[trigger] s[i])
            &&& s != "."@
            &&& s != ".."@
        },
{
    reveal_strlit(".");
    reveal_strlit("..");
    if crate::object_path::relative_segment(s) {
        assert(s =~= "."@ || s =~= ".."@);
    }
}

/// One segment after another stands behind one delimiter; after the empty path it stands alone.
pub proof fn segments_stand_behind_one_delimiter(base: Seq<char>, child: Seq<char>)
    ensures
        base.len() > 0 ==> crate::object_path::joined(base, child) == base + seq!['/'] + child,
        base.len() == 0 ==> crate::object_path::joined(base, child) == child,
{
    assert(base.push('/') + child =~= base + seq!['/'] + child);
}

/// Each byte of a segment adds to its text: itself where it is a plain character, and otherwise a
/// percent sign and its two digits in upper-case hexadecimal.
pub proof fn bytes_are_encoded_one_by_one(bytes: Seq<u8>, b: u8)
    ensures
        crate::object_path::encoded_bytes(seq![]).len() == 0,
        crate::object_path::plain_char(b as char) ==> crate::object_path::encoded_bytes(
            bytes.push(b),
        ) == crate::object_path::encoded_bytes(bytes).push(b as char),
        !crate::object_path::plain_char(b as char) ==> {
            let text = crate::object_path::encoded_bytes(bytes.push(b));
            let n = crate::object_path::encoded_bytes(bytes).len() as int;
            &&& text.len() == n + 3
            &&& text.take(n) == crate::object_path::encoded_bytes(bytes)
            &&& text[n] == '%'
            &&& upper_digit(text[n + 1], b as int / 16)
            &&& upper_digit(text[n + 2], b as int % 16)
        },
{
    assert(bytes.push(b).drop_last() == bytes);
    let head = crate::object_path::encoded_bytes(bytes);
    if crate::object_path::plain_char(b as char) {
        assert(head + seq![b as char] =~= head.push(b as char));
    } else {
        assert(crate::object_path::encoded_bytes(bytes.push(b)).take(head.len() as int) =~= head);
    }
}

/// Whether `c` is the upper-case hexadecimal digit `d`.
pub open spec fn upper_digit(c: char, d: int) -> bool {
    ||| 0 <= d < 10 && c as int == 48 + d
    ||| 10 <= d < 16 && c as int == 65 + (d - 10)
}

/// The text of two paths one after the other: a delimiter between them unless one is empty.
pub open spec fn one_after_the_other(a: Seq<char>, b: Seq<char>) -> Seq<char> {
    if a.len() == 0 {
        b
    } else if b.len() == 0 {
        a
    } else {
        a + seq!['/'] + b
    }
}

proof fn lemma_extended_parts(base: Seq<char>, x: Seq<Seq<char>>, y: Seq<Seq<char>>)
    ensures
        crate::object_path::extended(base, x + y) == crate::object_path::extended(
            crate::object_path::extended(base, x),
            y,
        ),
    decreases x.len(),
{
    if x.len() == 0 {
        assert(x + y == y);
    } else {
        assert((x + y).drop_first() == x.drop_first() + y);
        if x[0].len() == 0 {
            lemma_extended_parts(base, x.drop_first(), y);
        } else {
            lemma_extended_parts(
                crate::object_path::joined(base, crate::object_path::encoded_segment(x[0])),
                x.drop_first(),
                y,
            );
        }
    }
}

proof fn lemma_extended_base(base: Seq<char>, middle: Seq<char>, x: Seq<Seq<char>>)
    ensures
        crate::object_path::extended(one_after_the_other(base, middle), x) == one_after_the_other(
            base,
            crate::object_path::extended(middle, x),
        ),
    decreases x.len(),
{
    if x.len() > 0 {
        let rest = x.drop_first();
        if x[0].len() == 0 {
            lemma_extended_base(base, middle, rest);
        } else {
            let text = crate::object_path::encoded_segment(x[0]);
            crate::object_path::lemma_encoded_segment(x[0]);
            let next = crate::object_path::joined(middle, text);
            assert(crate::object_path::joined(one_after_the_other(base, middle), text)
                =~= one_after_the_other(base, next));
            lemma_extended_base(base, next, rest);
        }
    }
}

proof fn lemma_pieces_parts(a: Seq<char>, b: Seq<char>)
    ensures
        crate::text::pieces(a + seq!['/'] + b, '/') == crate::text::pieces(a, '/')
            + crate::text::pieces(b, '/'),
    decreases a.len(),
{
    let whole = a + seq!['/'] + b;
    crate::text::lemma_position(a, '/');
    crate::text::lemma_position(whole, '/');
    let at = crate::text::position(a, '/') as int;
    let found = crate::text::position(whole, '/') as int;
    assert(whole[a.len() as int] == '/');
    assert(whole.contains('/'));
    assert(found == at) by {
        if found < at {
            assert(whole[found] == a[found]);
        }
        if at < found {
            if at < a.len() {
                assert(whole[at] == a[at]);
            }
        }
    }
    assert(whole.take(at) == a.take(at));
    if at < a.len() {
        let rest = a.skip(at + 1);
        lemma_pieces_parts(rest, b);
        assert(whole.skip(at + 1) =~= rest + seq!['/'] + b);
        assert(crate::text::pieces(whole, '/') =~= crate::text::pieces(a, '/')
            + crate::text::pieces(b, '/'));
    } else {
        assert(whole.skip(at + 1) =~= b);
        assert(a.take(at) == a);
        assert(crate::text::pieces(whole, '/') =~= crate::text::pieces(a, '/')
            + crate::text::pieces(b, '/'));
    }
}

/// What stands before a delimiter and what stands behind it are encoded each for itself; where one of
/// them comes to nothing, the delimiter goes too.
pub proof fn segments_are_encoded_each_for_itself(a: Seq<char>, b: Seq<char>)
    ensures
        crate::object_path::encoded_path(a + seq!['/'] + b) == one_after_the_other(
            crate::object_path::encoded_path(a),
            crate::object_path::encoded_path(b),
        ),
{
    let x = crate::text::pieces(a, '/');
    let y = crate::text::pieces(b, '/');
    let first = crate::object_path::encoded_path(a);
    lemma_pieces_parts(a, b);
    lemma_extended_parts(seq![], x, y);
    lemma_extended_base(first, seq![], y);
    assert(one_after_the_other(first, seq![]) =~= first);
}

/// One segment is encoded byte by byte, but for one dot and two dots, whose dots are encoded; nothing
/// comes of nothing.
pub proof fn one_segment_is_encoded_byte_by_byte(s: Seq<char>)
    requires
        !s.contains('/'),
    ensures
        s.len() == 0 ==> crate::object_path::encoded_path(s).len() == 0,
        s == "."@ ==> crate::object_path::encoded_path(s) == "%2E"@,
        s == ".."@ ==> crate::object_path::encoded_path(s) == "%2E%2E"@,
        s.len() > 0 && s != "."@ && s != ".."@ ==> crate::object_path::encoded_path(s)
            == crate::object_path::encoded_bytes(encode_utf8(s)),
{
    reveal_strlit(".");
    reveal_strlit("..");
    crate::text::lemma_position(s, '/');
    let pieces = crate::text::pieces(s, '/');
    assert(pieces =~= seq![s]);
    assert(pieces.drop_first() =~= seq![]);
    let none = Seq::<char>::empty();
    if s.len() > 0 {
        let text = crate::object_path::joined(none, crate::object_path::encoded_segment(s));
        assert(crate::object_path::extended(text, pieces.drop_first()) == text);
        if crate::object_path::relative_segment(s) {
            assert(s =~= "."@ || s =~= ".."@);
        }
    } else {
        assert(crate::object_path::extended(none, pieces.drop_first()) == none);
    }
}

proof fn lemma_no_delimiter_at_the_ends(s: Seq<char>)
    requires
        crate::object_path::path_text(s),
        s.len() > 0,
    ensures
        s[0] != '/',
        s.last() != '/',
{
    let n = s.len() as int;
    if s[0] == '/' {
        assert(crate::object_path::segment_at(s, 0, 0));
    }
    if s.last() == '/' {
        assert(crate::object_path::segment_at(s, n, n));
    }
}

/// The text of a path is taken as it is, with or without a delimiter at either end, and nothing but
/// such a text is taken.
pub proof fn paths_are_taken_as_they_are(s: Seq<char>, raw: Seq<char>)
    ensures
        crate::object_path::path_text(s) ==> crate::object_path::parsed_path(s) == Some(s),
        crate::object_path::path_text(s) ==> crate::object_path::parsed_path(seq!['/'] + s) == Some(
            s,
        ),
        crate::object_path::path_text(s) && s.len() > 0 ==> crate::object_path::parsed_path(
            s.push('/'),
        ) == Some(s) && crate::object_path::parsed_path(seq!['/'] + s.push('/')) == Some(s),
        crate::object_path::parsed_path(raw) == Some(s) ==> {
            &&& crate::object_path::path_text(s)
            &&& raw == s || raw == seq!['/'] + s || raw == s.push('/') || raw == seq!['/'] + s.push(
                '/',
            )
        },
{
    if crate::object_path::path_text(s) {
        if s.len() > 0 {
            lemma_no_delimiter_at_the_ends(s);
        }
        assert((seq!['/'] + s).drop_first() =~= s);
        assert(s.push('/').drop_last() =~= s);
        assert((seq!['/'] + s.push('/')).drop_first() =~= s.push('/'));
        if s.len() > 0 {
            assert(s.push('/')[0] == s[0]);
        }
    }
    if crate::object_path::parsed_path(raw) == Some(s) {
        let tail = if raw.len() > 0 && raw[0] == '/' {
            raw.drop_first()
        } else {
            raw
        };
        if raw.len() > 0 && raw[0] == '/' {
            assert(raw =~= seq!['/'] + tail);
        }
        if tail.len() > 0 && tail.last() == '/' {
            assert(tail =~= s.push('/'));
        }
    }
}

/// The text of a path holds no control characters, and between its delimiters nothing that is empty,
/// one dot or two dots; and every such text is that of a path.
pub proof fn paths_are_made_of_segments(s: Seq<char>)
    requires
        s.len() > 0,
    ensures
        crate::object_path::path_text(s) <==> {
            &&& forall|i: int| 0 <= i < s.len() ==> (#[trigger] s[i]) as int >= 32 && s[i] as int != 127
            &&& forall|i: int|
                0 <= i < crate::text::pieces(s, '/').len() ==> {
                    let piece = #[trigger] crate::text::pieces(s, '/')[i];
                    piece.len() > 0 && piece != "."@ && piece != ".."@
                }
        },
{
    reveal_strlit(".");
    reveal_strlit("..");
    let pieces = crate::text::pieces(s, '/');
    assert(s.skip(0) == s);
    if crate::object_path::path_text(s) {
        assert forall|i: int| 0 <= i < s.len() implies (#[trigger] s[i]) as int >= 32 && s[i] as int
            != 127 by {
            assert(!crate::object_path::control_char(s[i]));
        }
        assert forall|i: int| 0 <= i < pieces.len() implies {
            let piece = #[trigger] pieces[i];
            piece.len() > 0 && piece != "."@ && piece != ".."@
        } by {
            let (from, to) = lemma_piece_is_segment(s, 0, i);
            let piece = pieces[i];
            assert(piece == s.subrange(from, to));
        }
    } else {
        if forall|i: int|
            0 <= i < s.len() ==> (#[trigger] s[i]) as int >= 32 && s[i] as int != 127 {
            assert forall|i: int| 0 <= i < s.len() implies !crate::object_path::control_char(
                #[trigger] s[i],
            ) by {
                assert(s[i] as int >= 32);
            }
            let (from, to) = choose|from: int, to: int| #[trigger]
                crate::object_path::segment_at(s, from, to) && !(from < to
                    && !crate::object_path::relative_segment(s.subrange(from, to)));
            let i = lemma_segment_is_piece(s, 0, from, to);
            let piece = pieces[i];
            assert(piece == s.subrange(from, to));
            if from < to {
                assert(piece =~= "."@ || piece =~= ".."@);
            }
        }
    }
}

proof fn lemma_piece_is_segment(s: Seq<char>, start: int, i: int) -> (bounds: (int, int))
    requires
        0 <= start <= s.len(),
        start == 0 || s[start - 1] == '/',
        0 <= i < crate::text::pieces(s.skip(start), '/').len(),
    ensures
        crate::object_path::segment_at(s, bounds.0, bounds.1),
        crate::text::pieces(s.skip(start), '/')[i] == s.subrange(bounds.0, bounds.1),
    decreases s.len() - start,
{
    let rest = s.skip(start);
    crate::text::lemma_position(rest, '/');
    let at = crate::text::position(rest, '/') as int;
    let pieces = crate::text::pieces(rest, '/');
    if i == 0 {
        assert forall|k: int| start <= k < start + at implies s[k] != '/' by {
            assert(rest[k - start] == s[k]);
        }
        if at < rest.len() {
            assert(rest[at] == s[start + at]);
        }
        assert(pieces[0] =~= s.subrange(start, start + at));
        (start, start + at)
    } else {
        assert(rest[at] == s[start + at]);
        assert(rest.skip(at + 1) =~= s.skip(start + at + 1));
        assert(pieces[i] == crate::text::pieces(s.skip(start + at + 1), '/')[i - 1]);
        lemma_piece_is_segment(s, start + at + 1, i - 1)
    }
}

proof fn lemma_segment_is_piece(s: Seq<char>, start: int, from: int, to: int) -> (i: int)
    requires
        0 <= start <= from,
        start == 0 || s[start - 1] == '/',
        crate::object_path::segment_at(s, from, to),
    ensures
        0 <= i < crate::text::pieces(s.skip(start), '/').len(),
        crate::text::pieces(s.skip(start), '/')[i] == s.subrange(from, to),
    decreases s.len() - start,
{
    let rest = s.skip(start);
    crate::text::lemma_position(rest, '/');
    let at = crate::text::position(rest, '/') as int;
    let pieces = crate::text::pieces(rest, '/');
    if at < rest.len() {
        assert(rest[at] == s[start + at]);
    }
    if from <= start + at {
        assert(from == start) by {
            if from > start {
                assert(rest[from - 1 - start] == s[from - 1]);
            }
        }
        assert(to == start + at) by {
            if to < start + at {
                assert(rest[to - start] == s[to]);
            }
        }
        assert(pieces[0] =~= s.subrange(from, to));
        0
    } else {
        assert(at < rest.len());
        assert(rest.skip(at + 1) =~= s.skip(start + at + 1));
        let k = lemma_segment_is_piece(s, start + at + 1, from, to);
        assert(pieces[k + 1] == crate::text::pieces(s.skip(start + at + 1), '/')[k]);
        k + 1
    }
}

} // verus!
