//! Properties files: lines of `key=value`.

use vstd::prelude::*;

use crate::text::{chars_of, find_char, push_decimal, same_text, text_of, trim_range};

verus! {

/// What a list of entries stands for, a later entry taking the place of an earlier one.
pub open spec fn entries_map(entries: Seq<(String, String)>) -> Map<Seq<char>, Seq<char>>
    decreases entries.len(),
{
    if entries.len() == 0 {
        Map::empty()
    } else {
        entries_map(entries.drop_last()).insert(entries.last().0@, entries.last().1@)
    }
}

/// Whether no key occurs twice.
pub open spec fn distinct_keys(entries: Seq<(String, String)>) -> bool {
    forall|i: int, j: int|
        0 <= i < j < entries.len() ==> (#[trigger] entries[i]).0@ != (#[trigger] entries[j]).0@
}

proof fn lemma_entries_map(entries: Seq<(String, String)>)
    requires
        distinct_keys(entries),
    ensures
        forall|i: int|
            0 <= i < entries.len() ==> entries_map(entries).contains_key(
                (#[trigger] entries[i]).0@,
            ) && entries_map(entries)[entries[i].0@] == entries[i].1@,
        forall|key: Seq<char>| #[trigger]
            entries_map(entries).contains_key(key) ==> exists|i: int|
                0 <= i < entries.len() && (#[trigger] entries[i]).0@ == key,
    decreases entries.len(),
{
    if entries.len() > 0 {
        let rest = entries.drop_last();
        lemma_entries_map(rest);
        assert forall|i: int| 0 <= i < entries.len() implies entries_map(entries).contains_key(
            (#[trigger] entries[i]).0@,
        ) && entries_map(entries)[entries[i].0@] == entries[i].1@ by {
            if i < rest.len() {
                assert(rest[i] == entries[i]);
            }
        }
        assert forall|key: Seq<char>| #[trigger] entries_map(entries).contains_key(key) implies exists|
            i: int,
        |
            0 <= i < entries.len() && (#[trigger] entries[i]).0@ == key by {
            if key != entries.last().0@ {
                assert(entries_map(rest).contains_key(key));
                let i = choose|i: int| 0 <= i < rest.len() && (#[trigger] rest[i]).0@ == key;
                assert(entries[i] == rest[i]);
            } else {
                assert(entries[entries.len() - 1].0@ == key);
            }
        }
    }
}

/// A list without repeated keys stands for the map that holds its entries and nothing else.
proof fn lemma_same_entries(
    a: Seq<(String, String)>,
    map: Map<Seq<char>, Seq<char>>,
)
    requires
        distinct_keys(a),
        forall|i: int|
            0 <= i < a.len() ==> map.contains_key((#[trigger] a[i]).0@) && map[a[i].0@] == a[i].1@,
        forall|key: Seq<char>| #[trigger]
            map.contains_key(key) ==> exists|i: int| 0 <= i < a.len() && (#[trigger] a[i]).0@ == key,
    ensures
        entries_map(a) == map,
{
    lemma_entries_map(a);
    assert forall|key: Seq<char>| #[trigger] entries_map(a).contains_key(key) <==> map.contains_key(
        key,
    ) by {
        if entries_map(a).contains_key(key) {
            let i = choose|i: int| 0 <= i < a.len() && (#[trigger] a[i]).0@ == key;
            assert(map.contains_key(a[i].0@));
        }
        if map.contains_key(key) {
            let i = choose|i: int| 0 <= i < a.len() && (#[trigger] a[i]).0@ == key;
            assert(entries_map(a).contains_key(a[i].0@));
        }
    }
    assert forall|key: Seq<char>| #[trigger] entries_map(a).contains_key(key) implies entries_map(
        a,
    )[key] == map[key] by {
        let i = choose|i: int| 0 <= i < a.len() && (#[trigger] a[i]).0@ == key;
        assert(map[a[i].0@] == a[i].1@);
    }
    assert(entries_map(a) =~= map);
}

/// Keys with their values.
#[derive(Debug)]
pub struct Properties {
    entries: Vec<(String, String)>,
}

impl View for Properties {
    type V = Map<Seq<char>, Seq<char>>;

    closed spec fn view(&self) -> Map<Seq<char>, Seq<char>> {
        entries_map(self.entries@)
    }
}

impl Properties {
    #[verifier::type_invariant]
    spec fn well_formed(self) -> bool {
        distinct_keys(self.entries@)
    }

    /// The entries, in the order in which `entry` hands them out.
    pub closed spec fn entries(&self) -> Seq<(String, String)> {
        self.entries@
    }

    /// No entries.
    pub fn new() -> (res: Properties)
        ensures
            res@ == Map::<Seq<char>, Seq<char>>::empty(),
    {
        Properties { entries: Vec::new() }
    }

    /// How many entries there are.
    pub fn len(&self) -> (len: usize)
        ensures
            len == self.entries().len(),
            self@ == entries_map(self.entries()),
            distinct_keys(self.entries()),
    {
        proof {
            use_type_invariant(self);
        }
        self.entries.len()
    }

    /// The key and the value of an entry.
    pub fn entry(&self, at: usize) -> (entry: (&str, &str))
        requires
            at < self.entries().len(),
        ensures
            entry.0@ == self.entries()[at as int].0@,
            entry.1@ == self.entries()[at as int].1@,
    {
        let entry = &self.entries[at];
        (entry.0.as_str(), entry.1.as_str())
    }

    /// Where the entry for `key` stands, or the number of entries where there is none.
    fn find(&self, key: &str) -> (at: usize)
        ensures
            at <= self.entries@.len(),
            at < self.entries@.len() ==> self.entries@[at as int].0@ == key@,
            forall|k: int| 0 <= k < at ==> (#[trigger] self.entries@[k]).0@ != key@,
            at < self.entries@.len() <==> self@.contains_key(key@),
            at < self.entries@.len() ==> self@[key@] == self.entries@[at as int].1@,
    {
        proof {
            use_type_invariant(self);
            lemma_entries_map(self.entries@);
        }
        let mut at: usize = 0;
        while at < self.entries.len() && !same_text(self.entries[at].0.as_str(), key)
            invariant
                at <= self.entries@.len(),
                forall|k: int| 0 <= k < at ==> (#[trigger] self.entries@[k]).0@ != key@,
            decreases self.entries@.len() - at,
        {
            at += 1;
        }
        at
    }

    /// The value of `key`.
    pub fn get(&self, key: &str) -> (value: Option<&str>)
        ensures
            match value {
                Some(value) => self@.contains_key(key@) && value@ == self@[key@],
                None => !self@.contains_key(key@),
            },
    {
        let at = self.find(key);
        if at < self.entries.len() {
            Some(self.entries[at].1.as_str())
        } else {
            None
        }
    }

    /// Gives `key` a value, in place of the one it had.
    pub fn insert(&mut self, key: String, value: String)
        ensures
            final(self)@ == old(self)@.insert(key@, value@),
    {
        proof {
            use_type_invariant(&*self);
        }
        let at = self.find(key.as_str());
        let ghost map = self@;
        let ghost before = self.entries@;
        let mut entries: Vec<(String, String)> = Vec::new();
        std::mem::swap(&mut entries, &mut self.entries);
        if at < entries.len() {
            entries.remove(at);
        }
        proof {
            lemma_entries_map(before);
            let rest = if at < before.len() {
                before.remove(at as int)
            } else {
                before
            };
            assert(entries@ == rest);
            assert forall|i: int| 0 <= i < rest.len() implies (#[trigger] rest[i]).0@ != key@ by {
                if at < before.len() && i >= at {
                    assert(rest[i] == before[i + 1]);
                    assert(before[at as int].0@ != before[i + 1].0@);
                } else {
                    assert(rest[i] == before[i]);
                }
            }
            lemma_removed(before, at as int, key@, map);
        }
        entries.push((key, value));
        proof {
            assert(entries@.drop_last() == (if at < before.len() {
                before.remove(at as int)
            } else {
                before
            }));
            assert(entries_map(entries@) =~= map.insert(key@, value@));
        }
        self.entries = entries;
    }

    /// Takes `key` out, with its value.
    pub fn remove(&mut self, key: &str) -> (value: Option<String>)
        ensures
            final(self)@ == old(self)@.remove(key@),
            match value {
                Some(value) => old(self)@.contains_key(key@) && value@ == old(self)@[key@],
                None => !old(self)@.contains_key(key@),
            },
    {
        proof {
            use_type_invariant(&*self);
        }
        let at = self.find(key);
        let ghost map = self@;
        let ghost before = self.entries@;
        if at >= self.entries.len() {
            assert(map.remove(key@) =~= map);
            return None;
        }
        let mut entries: Vec<(String, String)> = Vec::new();
        std::mem::swap(&mut entries, &mut self.entries);
        let entry = entries.remove(at);
        proof {
            lemma_removed(before, at as int, key@, map);
        }
        self.entries = entries;
        Some(entry.1)
    }
}

/// Taking out the entry of a key takes the key out of the map.
proof fn lemma_removed(
    before: Seq<(String, String)>,
    at: int,
    key: Seq<char>,
    map: Map<Seq<char>, Seq<char>>,
)
    requires
        distinct_keys(before),
        map == entries_map(before),
        0 <= at <= before.len(),
        at < before.len() ==> before[at].0@ == key,
        at == before.len() ==> !map.contains_key(key),
    ensures
        at < before.len() ==> distinct_keys(before.remove(at)),
        at < before.len() ==> entries_map(before.remove(at)) == map.remove(key),
        at == before.len() ==> map.remove(key) == map,
{
    lemma_entries_map(before);
    if at < before.len() {
        let rest = before.remove(at);
        assert forall|i: int, j: int| 0 <= i < j < rest.len() implies (#[trigger] rest[i]).0@ != (
        #[trigger] rest[j]).0@ by {
            let x = if i >= at {
                i + 1
            } else {
                i
            };
            let y = if j >= at {
                j + 1
            } else {
                j
            };
            assert(rest[i] == before[x]);
            assert(rest[j] == before[y]);
            assert(before[x].0@ != before[y].0@);
        }
        let removed = map.remove(key);
        assert forall|i: int| 0 <= i < rest.len() implies removed.contains_key(
            (#[trigger] rest[i]).0@,
        ) && removed[rest[i].0@] == rest[i].1@ by {
            let x = if i >= at {
                i + 1
            } else {
                i
            };
            assert(rest[i] == before[x]);
            if x < at {
                assert(before[x].0@ != before[at].0@);
            } else {
                assert(before[at].0@ != before[x].0@);
            }
        }
        assert forall|k: Seq<char>| #[trigger] removed.contains_key(k) implies exists|i: int|
            0 <= i < rest.len() && (#[trigger] rest[i]).0@ == k by {
            let x = choose|x: int| 0 <= x < before.len() && (#[trigger] before[x]).0@ == k;
            if x < at {
                assert(rest[x] == before[x]);
            } else {
                assert(rest[x - 1] == before[x]);
            }
        }
        lemma_same_entries(rest, removed);
    } else {
        assert(map.remove(key) =~= map);
    }
}

// ---------------------------------------------------------------------------
// Reading
// ---------------------------------------------------------------------------

/// What a line of a properties file says.
pub enum LineView {
    /// Nothing: it is blank or a comment.
    Nothing,
    /// Something without a `=`.
    NoValue,
    /// A value without a key.
    NoKey,
    /// A key and its value.
    Entry { key: Seq<char>, value: Seq<char> },
}

/// What a line of a properties file says. White space around the line, the key and the value does
/// not count; the first `=` ends the key.
pub open spec fn line_view(raw: Seq<char>) -> LineView {
    let line = crate::text::trim(raw);
    let equals = crate::text::position(line, '=') as int;
    if line.len() == 0 || line[0] == '#' || line[0] == '!' {
        LineView::Nothing
    } else if equals == line.len() {
        LineView::NoValue
    } else if crate::text::trim(line.take(equals)).len() == 0 {
        LineView::NoKey
    } else {
        LineView::Entry {
            key: crate::text::trim(line.take(equals)),
            value: crate::text::trim(line.skip(equals + 1)),
        }
    }
}

/// What is wrong with a properties file, and in which line, counted from one.
pub enum FaultView {
    NoValue { line: nat },
    NoKey { line: nat },
}

/// What the lines of a properties file come to: the entries, a later one taking the place of an
/// earlier one with the same key; or what is wrong with the first line that is neither an entry
/// nor nothing.
pub open spec fn properties_view(lines: Seq<Seq<char>>) -> Result<
    Map<Seq<char>, Seq<char>>,
    FaultView,
>
    decreases lines.len(),
{
    if lines.len() == 0 {
        Ok(Map::empty())
    } else {
        match properties_view(lines.drop_last()) {
            Err(fault) => Err(fault),
            Ok(properties) => match line_view(lines.last()) {
                LineView::Nothing => Ok(properties),
                LineView::NoValue => Err(FaultView::NoValue { line: lines.len() }),
                LineView::NoKey => Err(FaultView::NoKey { line: lines.len() }),
                LineView::Entry { key, value } => Ok(properties.insert(key, value)),
            },
        }
    }
}

/// What the text of a properties file comes to.
pub open spec fn file_view(contents: Seq<char>) -> Result<Map<Seq<char>, Seq<char>>, FaultView> {
    properties_view(crate::text::pieces(contents, '\n'))
}

/// A line of a properties file that cannot be used.
#[derive(Debug)]
pub enum PropertiesError {
    /// The line has no `=`.
    NoValue { path: String, line: usize },
    /// The line has nothing before its `=`.
    NoKey { path: String, line: usize },
}

impl PropertiesError {
    /// The file.
    pub open spec fn file(&self) -> Seq<char> {
        match *self {
            PropertiesError::NoValue { path, .. } => path@,
            PropertiesError::NoKey { path, .. } => path@,
        }
    }

    /// The fault.
    pub open spec fn fault(&self) -> FaultView {
        match *self {
            PropertiesError::NoValue { line, .. } => FaultView::NoValue { line: line as nat },
            PropertiesError::NoKey { line, .. } => FaultView::NoKey { line: line as nat },
        }
    }

    /// What `message` says of a fault.
    pub open spec fn message_of(file: Seq<char>, fault: FaultView) -> Seq<char> {
        match fault {
            FaultView::NoValue { line } => "invalid Kafka property at "@ + file + ":"@
                + crate::text::decimal(line) + "; expected key=value"@,
            FaultView::NoKey { line } => "empty Kafka property key at "@ + file + ":"@
                + crate::text::decimal(line),
        }
    }

    /// The error in words.
    pub fn message(&self) -> (text: String)
        ensures
            text@ == Self::message_of(self.file(), self.fault()),
    {
        match self {
            PropertiesError::NoValue { path, line } => {
                let mut text = "invalid Kafka property at ".to_owned();
                text.append(path.as_str());
                text.append(":");
                push_decimal(&mut text, *line as u64);
                text.append("; expected key=value");
                text
            },
            PropertiesError::NoKey { path, line } => {
                let mut text = "empty Kafka property key at ".to_owned();
                text.append(path.as_str());
                text.append(":");
                push_decimal(&mut text, *line as u64);
                text
            },
        }
    }
}

/// What comes after the first fault does not change it.
proof fn lemma_first_fault(lines: Seq<Seq<char>>, more: Seq<Seq<char>>)
    requires
        properties_view(lines) is Err,
    ensures
        properties_view(lines + more) == properties_view(lines),
    decreases more.len(),
{
    if more.len() == 0 {
        assert(lines + more == lines);
    } else {
        lemma_first_fault(lines, more.drop_last());
        assert((lines + more).drop_last() == lines + more.drop_last());
    }
}

/// Reads the text of the properties file at `path`.
pub fn read_properties(path: &str, contents: &str) -> (res: Result<Properties, PropertiesError>)
    ensures
        match res {
            Ok(properties) => file_view(contents@) == Ok::<Map<Seq<char>, Seq<char>>, FaultView>(
                properties@,
            ),
            Err(error) => {
                &&& file_view(contents@) == Err::<Map<Seq<char>, Seq<char>>, FaultView>(
                    error.fault(),
                )
                &&& error.file() == path@
            },
        },
{
    let chars = chars_of(contents);
    let len = chars.len();
    let mut properties = Properties::new();
    let mut start: usize = 0;
    let mut index: usize = 0;
    let ghost mut read: Seq<Seq<char>> = seq![];
    let ghost lines = crate::text::pieces(contents@, '\n');
    proof {
        assert(contents@.skip(0) == contents@);
        assert(read + lines == lines);
    }
    loop
        invariant
            chars@ == contents@,
            len == chars@.len(),
            index <= start <= len,
            lines == crate::text::pieces(contents@, '\n'),
            read + crate::text::pieces(contents@.skip(start as int), '\n') == lines,
            read.len() == index,
            properties_view(read) == Ok::<Map<Seq<char>, Seq<char>>, FaultView>(properties@),
        decreases len - start,
    {
        let end = find_char(&chars, start, len, '\n');
        let ghost rest = contents@.skip(start as int);
        let ghost raw = contents@.subrange(start as int, end as int);
        let ghost after = lines.skip(index + 1);
        proof {
            assert(chars@.subrange(start as int, len as int) == rest);
            assert(rest.take(end - start) == raw);
            if end < len {
                assert(rest.skip(end - start + 1) == contents@.skip(end + 1));
            }
            assert(crate::text::pieces(rest, '\n')[0] == raw);
            assert(lines[index as int] == raw);
            assert(read.push(raw) + after == lines);
            assert(read.push(raw).drop_last() == read);
        }
        let (from, to) = trim_range(&chars, start, end);
        if from < to && chars[from] != '#' && chars[from] != '!' {
            let equals = find_char(&chars, from, to, '=');
            let ghost line = contents@.subrange(from as int, to as int);
            proof {
                assert(line.take(equals - from) == contents@.subrange(from as int, equals as int));
            }
            if equals == to {
                proof {
                    lemma_first_fault(read.push(raw), after);
                }
                return Err(PropertiesError::NoValue { path: path.to_owned(), line: index + 1 });
            }
            proof {
                assert(line.skip(equals - from + 1) == contents@.subrange(equals + 1, to as int));
            }
            let (key_from, key_to) = trim_range(&chars, from, equals);
            if key_from == key_to {
                proof {
                    lemma_first_fault(read.push(raw), after);
                }
                return Err(PropertiesError::NoKey { path: path.to_owned(), line: index + 1 });
            }
            let (value_from, value_to) = trim_range(&chars, equals + 1, to);
            properties.insert(
                text_of(&chars, key_from, key_to),
                text_of(&chars, value_from, value_to),
            );
        }
        proof {
            read = read.push(raw);
        }
        if end == len {
            proof {
                assert(crate::text::pieces(rest, '\n').len() == 1);
                assert(read == lines);
            }
            return Ok(properties);
        }
        proof {
            assert(crate::text::pieces(rest, '\n').skip(1) == crate::text::pieces(
                contents@.skip(end + 1),
                '\n',
            ));
        }
        start = end + 1;
        index += 1;
    }
}

// ---------------------------------------------------------------------------
// Writing and reading back
// ---------------------------------------------------------------------------

/// Whether a file can hold `key` as a key: it is trimmed, not empty, and neither looks like a comment
/// nor holds the characters that end a key or a line.
pub open spec fn writable_key(key: Seq<char>) -> bool {
    &&& key.len() > 0
    &&& crate::text::trim(key) == key
    &&& key[0] != '#'
    &&& key[0] != '!'
    &&& !key.contains('=')
    &&& !key.contains('\n')
}

/// Whether a file can hold `value` as a value: it is trimmed and does not go over the end of a line.
pub open spec fn writable_value(value: Seq<char>) -> bool {
    crate::text::trim(value) == value && !value.contains('\n')
}

/// Whether a file can hold all of `entries`.
pub open spec fn writable(entries: Seq<(Seq<char>, Seq<char>)>) -> bool {
    forall|i: int|
        0 <= i < entries.len() ==> writable_key((#[trigger] entries[i]).0) && writable_value(
            entries[i].1,
        )
}

/// The line of an entry.
pub open spec fn entry_line(entry: (Seq<char>, Seq<char>)) -> Seq<char> {
    entry.0.push('=') + entry.1
}

/// The text of a file that holds `entries`, one to a line.
pub open spec fn entries_text(entries: Seq<(Seq<char>, Seq<char>)>) -> Seq<char>
    decreases entries.len(),
{
    if entries.len() == 0 {
        seq![]
    } else {
        entry_line(entries[0]).push('\n') + entries_text(entries.drop_first())
    }
}

/// What `entries` stand for, a later entry taking the place of an earlier one.
pub open spec fn written_map(entries: Seq<(Seq<char>, Seq<char>)>) -> Map<Seq<char>, Seq<char>>
    decreases entries.len(),
{
    if entries.len() == 0 {
        Map::empty()
    } else {
        written_map(entries.drop_last()).insert(entries.last().0, entries.last().1)
    }
}

spec fn entry_lines(entries: Seq<(Seq<char>, Seq<char>)>) -> Seq<Seq<char>> {
    entries.map_values(|entry: (Seq<char>, Seq<char>)| entry_line(entry))
}

proof fn lemma_entry_line(entry: (Seq<char>, Seq<char>))
    requires
        writable_key(entry.0),
        writable_value(entry.1),
    ensures
        line_view(entry_line(entry)) == (LineView::Entry { key: entry.0, value: entry.1 }),
        !entry_line(entry).contains('\n'),
{
    let (key, value) = entry;
    let line = entry_line(entry);
    let n = key.len() as int;
    crate::text::trim_is_tight(key);
    crate::text::trim_is_tight(value);
    assert(line[0] == key[0]);
    assert(line[n] == '=');
    if value.len() > 0 {
        assert(line.last() == value.last());
    } else {
        assert(line.last() == '=');
    }
    assert(crate::text::trim(line) == line);
    crate::text::lemma_position(line, '=');
    let at = crate::text::position(line, '=') as int;
    assert(line.contains('='));
    assert(at == n) by {
        if at < n {
            assert(key[at] == line[at]);
        }
    }
    assert(line.take(n) == key);
    assert(line.skip(n + 1) == value);
    if line.contains('\n') {
        let k = line.index_of('\n');
        if k < n {
            assert(key[k] == '\n');
        } else if k > n {
            assert(value[k - n - 1] == '\n');
        }
    }
}

proof fn lemma_pieces_of_text(entries: Seq<(Seq<char>, Seq<char>)>)
    requires
        writable(entries),
    ensures
        crate::text::pieces(entries_text(entries), '\n') == entry_lines(entries).push(seq![]),
    decreases entries.len(),
{
    let text = entries_text(entries);
    if entries.len() == 0 {
        assert(crate::text::pieces(text, '\n') =~= seq![text]);
        assert(entry_lines(entries).push(seq![]) =~= seq![text]);
    } else {
        let rest = entries.drop_first();
        let line = entry_line(entries[0]);
        let n = line.len() as int;
        assert(writable_key(entries[0].0));
        lemma_entry_line(entries[0]);
        assert forall|i: int| 0 <= i < rest.len() implies writable_key((#[trigger] rest[i]).0)
            && writable_value(rest[i].1) by {
            assert(rest[i] == entries[i + 1]);
        }
        lemma_pieces_of_text(rest);
        crate::text::lemma_position(text, '\n');
        let at = crate::text::position(text, '\n') as int;
        assert(text[n] == '\n');
        assert(text.contains('\n'));
        assert(at == n) by {
            if at < n {
                assert(line[at] == text[at]);
            }
        }
        assert(text.take(n) == line);
        assert(text.skip(n + 1) == entries_text(rest));
        assert(entry_lines(entries).push(seq![]) =~= seq![line] + entry_lines(rest).push(seq![]));
    }
}

proof fn lemma_lines_view(entries: Seq<(Seq<char>, Seq<char>)>)
    requires
        writable(entries),
    ensures
        properties_view(entry_lines(entries)) == Ok::<Map<Seq<char>, Seq<char>>, FaultView>(
            written_map(entries),
        ),
    decreases entries.len(),
{
    if entries.len() > 0 {
        let before = entries.drop_last();
        assert forall|i: int| 0 <= i < before.len() implies writable_key((#[trigger] before[i]).0)
            && writable_value(before[i].1) by {
            assert(before[i] == entries[i]);
        }
        lemma_lines_view(before);
        assert(entry_lines(entries).drop_last() =~= entry_lines(before));
        assert(writable_key(entries[entries.len() - 1].0));
        lemma_entry_line(entries.last());
    }
}

/// Entries that a file can hold, written out one to a line, are read back as they are.
pub proof fn written_properties_read_back(entries: Seq<(Seq<char>, Seq<char>)>)
    requires
        writable(entries),
    ensures
        file_view(entries_text(entries)) == Ok::<Map<Seq<char>, Seq<char>>, FaultView>(
            written_map(entries),
        ),
{
    lemma_pieces_of_text(entries);
    lemma_lines_view(entries);
    let lines = entry_lines(entries).push(seq![]);
    assert(lines.drop_last() == entry_lines(entries));
    assert(lines.last().len() == 0);
}

} // verus!
