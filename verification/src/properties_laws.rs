//! What holds of every line and of every properties file, stated over their characters.

use vstd::prelude::*;

use crate::properties::{FaultView, LineView, PropertiesError};

verus! {

proof fn lemma_start_parts(s: Seq<char>) -> (left: Seq<char>)
    ensures
        crate::text_laws::blank(left),
        s == left + crate::text::trim_start(s),
    decreases s.len(),
{
    if s.len() > 0 && crate::text::white_space(s[0]) {
        let less = lemma_start_parts(s.drop_first());
        let left = seq![s[0]] + less;
        assert forall|i: int| 0 <= i < left.len() implies crate::text::white_space(
            #[trigger] left[i],
        ) by {
            if i > 0 {
                assert(left[i] == less[i - 1]);
            }
        }
        assert(s == seq![s[0]] + s.drop_first());
        assert(s == left + crate::text::trim_start(s));
        left
    } else {
        assert(s == seq![] + s);
        seq![]
    }
}

proof fn lemma_end_parts(s: Seq<char>) -> (right: Seq<char>)
    ensures
        crate::text_laws::blank(right),
        s == crate::text::trim_end(s) + right,
    decreases s.len(),
{
    if s.len() > 0 && crate::text::white_space(s.last()) {
        let less = lemma_end_parts(s.drop_last());
        let right = less.push(s.last());
        assert forall|i: int| 0 <= i < right.len() implies crate::text::white_space(
            #[trigger] right[i],
        ) by {
            if i < less.len() {
                assert(right[i] == less[i]);
            }
        }
        assert(s == s.drop_last().push(s.last()));
        assert(s == crate::text::trim_end(s) + right);
        right
    } else {
        assert(s == s + seq![]);
        seq![]
    }
}

proof fn lemma_blank_parts(a: Seq<char>, b: Seq<char>)
    requires
        crate::text_laws::blank(a),
        crate::text_laws::blank(b),
    ensures
        crate::text_laws::blank(a + b),
{
    assert forall|i: int| 0 <= i < (a + b).len() implies crate::text::white_space(
        #[trigger] (a + b)[i],
    ) by {
        if i < a.len() {
            assert((a + b)[i] == a[i]);
        } else {
            assert((a + b)[i] == b[i - a.len()]);
        }
    }
}

/// A key and a value are read as they are, whatever white space stands around the line, the key and
/// the value, and whatever the value holds.
pub proof fn entries_are_read_whatever_the_spacing(
    before: Seq<char>,
    key: Seq<char>,
    after_key: Seq<char>,
    before_value: Seq<char>,
    value: Seq<char>,
    after: Seq<char>,
)
    requires
        crate::text_laws::blank(before),
        crate::text_laws::blank(after_key),
        crate::text_laws::blank(before_value),
        crate::text_laws::blank(after),
        key.len() > 0,
        crate::text_laws::tight(key),
        !key.contains('='),
        key[0] != '#',
        key[0] != '!',
        crate::text_laws::tight(value),
    ensures
        crate::properties::line_view(
            before + key + after_key + seq!['='] + before_value + value + after,
        ) == (LineView::Entry { key, value }),
{
    let raw = before + key + after_key + seq!['='] + before_value + value + after;
    let name = key + after_key;
    let text = if value.len() > 0 {
        name + seq!['='] + before_value + value
    } else {
        name + seq!['=']
    };
    let right = if value.len() > 0 {
        after
    } else {
        before_value + after
    };
    lemma_blank_parts(before_value, after);
    assert(raw =~= before + text + right);
    assert(text[0] == key[0]);
    if value.len() > 0 {
        assert(text.last() == value.last());
    } else {
        assert(text.last() == '=');
    }
    crate::text_laws::trim_takes_white_space_alone(before, text, right);
    let n = name.len() as int;
    assert(text[n] == '=');
    assert(text.contains('='));
    crate::text::lemma_position(text, '=');
    let at = crate::text::position(text, '=') as int;
    assert(at == n) by {
        if at < n {
            assert(text[at] == name[at]);
            if at < key.len() {
                assert(key[at] == '=');
            } else {
                assert(crate::text::white_space(after_key[at - key.len()]));
            }
        }
    }
    assert(text.take(n) == name);
    crate::text_laws::trim_takes_white_space_alone(seq![], key, after_key);
    assert(seq![] + key + after_key == name);
    let rest = text.skip(n + 1);
    if value.len() > 0 {
        assert(rest =~= before_value + value + seq![]);
        crate::text_laws::trim_takes_white_space_alone(before_value, value, seq![]);
    } else {
        assert(rest =~= seq![]);
        assert(value =~= seq![]);
    }
}

/// Blank lines and comments say nothing.
pub proof fn blank_lines_and_comments_say_nothing(before: Seq<char>, mark: char, rest: Seq<char>)
    requires
        crate::text_laws::blank(before),
        mark == '#' || mark == '!',
    ensures
        crate::properties::line_view(before) is Nothing,
        crate::properties::line_view(before + seq![mark] + rest) is Nothing,
{
    crate::text_laws::blank_texts_are_trimmed_away(before);
    lemma_first_character(before, mark, rest);
}

proof fn lemma_first_character(before: Seq<char>, c: char, rest: Seq<char>)
    requires
        crate::text_laws::blank(before),
        !crate::text::white_space(c),
    ensures
        crate::text::trim(before + seq![c] + rest).len() > 0,
        crate::text::trim(before + seq![c] + rest)[0] == c,
{
    let raw = before + seq![c] + rest;
    let left = lemma_start_parts(raw);
    let start = crate::text::trim_start(raw);
    assert(raw[before.len() as int] == c);
    crate::text_laws::blank_texts_are_trimmed_away(raw);
    assert(!crate::text::white_space(raw[before.len() as int]));
    assert(crate::text::trim(raw).len() > 0);
    crate::text::trim_is_tight(raw);
    let right = lemma_end_parts(start);
    let text = crate::text::trim(raw);
    assert(start == text + right);
    assert(start[0] == text[0]);
    assert(raw[left.len() as int] == text[0]);
    if left.len() > before.len() {
        assert(left[before.len() as int] == c);
    } else if left.len() < before.len() {
        assert(before[left.len() as int] == text[0]);
    }
}

/// A line that says something and has no `=` has no value; one with nothing before its `=` has no
/// key.
pub proof fn other_lines_are_faults(before: Seq<char>, c: char, rest: Seq<char>)
    requires
        crate::text_laws::blank(before),
        !crate::text::white_space(c),
        c != '#',
        c != '!',
    ensures
        c != '=' && !rest.contains('=') ==> crate::properties::line_view(
            before + seq![c] + rest,
        ) is NoValue,
        c == '=' ==> crate::properties::line_view(before + seq![c] + rest) is NoKey,
{
    let raw = before + seq![c] + rest;
    let line = crate::text::trim(raw);
    lemma_first_character(before, c, rest);
    crate::text::lemma_position(line, '=');
    if c == '=' {
        assert(line[0] == '=');
        let none = line.take(0);
        crate::text_laws::blank_texts_are_trimmed_away(none);
    } else if !rest.contains('=') {
        if line.contains('=') {
            let left = lemma_start_parts(raw);
            let right = lemma_end_parts(crate::text::trim_start(raw));
            let k = line.index_of('=');
            let at = left.len() + k;
            assert(raw[at] == '=');
            if at < before.len() {
                assert(before[at] == '=');
                assert(crate::text::white_space(before[at]));
            } else if at > before.len() {
                assert(rest[at - before.len() - 1] == '=');
            }
        }
    }
}

/// Lines are read one after the other: a line that says nothing changes nothing, an entry takes the
/// place of an earlier one with its key, the first fault is reported with the number of its line, and
/// what comes after a fault does not matter.
pub proof fn lines_are_read_one_after_the_other(lines: Seq<Seq<char>>, line: Seq<char>)
    ensures
        crate::properties::properties_view(seq![]) == Ok::<Map<Seq<char>, Seq<char>>, FaultView>(
            Map::<Seq<char>, Seq<char>>::empty(),
        ),
        crate::properties::properties_view(lines) matches Err(fault)
            ==> crate::properties::properties_view(lines.push(line)) == Err::<
            Map<Seq<char>, Seq<char>>,
            FaultView,
        >(fault),
        crate::properties::properties_view(lines) matches Ok(properties) ==> match
            crate::properties::line_view(line) {
            LineView::Nothing => crate::properties::properties_view(lines.push(line)) == Ok::<
                Map<Seq<char>, Seq<char>>,
                FaultView,
            >(properties),
            LineView::Entry { key, value } => crate::properties::properties_view(lines.push(line))
                == Ok::<Map<Seq<char>, Seq<char>>, FaultView>(properties.insert(key, value)),
            LineView::NoValue => crate::properties::properties_view(lines.push(line)) == Err::<
                Map<Seq<char>, Seq<char>>,
                FaultView,
            >(FaultView::NoValue { line: lines.len() + 1 }),
            LineView::NoKey => crate::properties::properties_view(lines.push(line)) == Err::<
                Map<Seq<char>, Seq<char>>,
                FaultView,
            >(FaultView::NoKey { line: lines.len() + 1 }),
        },
{
    assert(lines.push(line).drop_last() == lines);
}

/// A file is its lines, which end at line feeds.
pub proof fn files_are_their_lines(contents: Seq<char>)
    ensures
        crate::properties::file_view(contents) == crate::properties::properties_view(
            crate::text::pieces(contents, '\n'),
        ),
{
}

/// Entries with different keys stand side by side, whatever their order; of two with one key the
/// later stands.
pub proof fn entries_stand_for_a_map(entries: Seq<(String, String)>, entry: (String, String))
    ensures
        crate::properties::entries_map(entries.push(entry)) == crate::properties::entries_map(
            entries,
        ).insert(entry.0@, entry.1@),
        crate::properties::entries_map(seq![]) == Map::<Seq<char>, Seq<char>>::empty(),
{
    assert(entries.push(entry).drop_last() == entries);
}

/// An error names the file and the line of its fault.
pub proof fn faults_name_their_file_and_line(path: String, line: usize)
    ensures
        (PropertiesError::NoValue { path, line }).file() == path@,
        (PropertiesError::NoValue { path, line }).fault() == (FaultView::NoValue {
            line: line as nat,
        }),
        (PropertiesError::NoKey { path, line }).file() == path@,
        (PropertiesError::NoKey { path, line }).fault() == (FaultView::NoKey { line: line as nat }),
{
}

} // verus!
