//! The objects of a storage view and the order in which they are listed.

use vstd::prelude::*;
use vstd::utf8::*;

verus! {

/// Object store containing a referenced object.
#[derive(Clone, Copy, Debug, Eq, Ord, PartialEq, PartialOrd, Structural)]
pub enum StorageViewObjectStore {
    Main,
    Wal,
}

/// Role an object has in the checkpoint-backed read view.
#[derive(Clone, Copy, Debug, Eq, Ord, PartialEq, PartialOrd, Structural)]
pub enum StorageViewObjectKind {
    Manifest,
    Wal,
    L0,
    SortedRun,
}

/// Exact physical object referenced by a storage view.
#[derive(Clone, Debug, Eq, Ord, PartialEq, PartialOrd)]
pub struct StorageViewObject {
    pub store: StorageViewObjectStore,
    pub kind: StorageViewObjectKind,
    pub path: String,
}

/// Latest root manifest revision observed while resolving a checkpoint.
#[derive(Clone, Debug, Eq, Ord, PartialEq, PartialOrd)]
pub struct StorageViewRevision {
    pub db_path: String,
    pub manifest_id: u64,
}

/// What a `StorageViewObject` stands for.
pub struct ObjectView {
    pub store: StorageViewObjectStore,
    pub kind: StorageViewObjectKind,
    pub path: Seq<char>,
}

impl View for StorageViewObject {
    type V = ObjectView;

    open spec fn view(&self) -> ObjectView {
        ObjectView { store: self.store, kind: self.kind, path: self.path@ }
    }
}

/// What a `StorageViewRevision` stands for.
pub struct RevisionView {
    pub db_path: Seq<char>,
    pub manifest_id: u64,
}

impl View for StorageViewRevision {
    type V = RevisionView;

    open spec fn view(&self) -> RevisionView {
        RevisionView { db_path: self.db_path@, manifest_id: self.manifest_id }
    }
}

/// Place of a store among the stores.
pub open spec fn store_rank(store: StorageViewObjectStore) -> int {
    match store {
        StorageViewObjectStore::Main => 0,
        StorageViewObjectStore::Wal => 1,
    }
}

/// Place of a kind among the kinds.
pub open spec fn kind_rank(kind: StorageViewObjectKind) -> int {
    match kind {
        StorageViewObjectKind::Manifest => 0,
        StorageViewObjectKind::Wal => 1,
        StorageViewObjectKind::L0 => 2,
        StorageViewObjectKind::SortedRun => 3,
    }
}

/// Lexicographic order of byte strings.
pub open spec fn bytes_before(a: Seq<u8>, b: Seq<u8>) -> bool
    decreases a.len(),
{
    if b.len() == 0 {
        false
    } else if a.len() == 0 {
        true
    } else if a[0] == b[0] {
        bytes_before(a.drop_first(), b.drop_first())
    } else {
        a[0] < b[0]
    }
}

/// Order of texts: that of their UTF-8 bytes.
pub open spec fn text_before(a: Seq<char>, b: Seq<char>) -> bool {
    bytes_before(encode_utf8(a), encode_utf8(b))
}

/// Order of objects: by store, then by kind, then by path.
pub open spec fn object_before(a: ObjectView, b: ObjectView) -> bool {
    if a.store != b.store {
        store_rank(a.store) < store_rank(b.store)
    } else if a.kind != b.kind {
        kind_rank(a.kind) < kind_rank(b.kind)
    } else {
        text_before(a.path, b.path)
    }
}

/// Whether each object comes before all that follow it; nothing then occurs twice.
pub open spec fn ascending(objects: Seq<ObjectView>) -> bool {
    forall|i: int, j: int|
        0 <= i < j < objects.len() ==> object_before(#[trigger] objects[i], #[trigger] objects[j])
}

/// What a list of objects stands for.
pub open spec fn object_views(objects: Seq<StorageViewObject>) -> Seq<ObjectView> {
    objects.map_values(|object: StorageViewObject| object@)
}

/// What a list of revisions stands for.
pub open spec fn revision_views(revisions: Seq<StorageViewRevision>) -> Seq<RevisionView> {
    revisions.map_values(|revision: StorageViewRevision| revision@)
}

/// Whether the path of each revision comes before those of all that follow it; no path then occurs
/// twice.
pub open spec fn ascending_revisions(revisions: Seq<RevisionView>) -> bool {
    forall|i: int, j: int|
        0 <= i < j < revisions.len() ==> text_before(
            (#[trigger] revisions[i]).db_path,
            (#[trigger] revisions[j]).db_path,
        )
}

// ---------------------------------------------------------------------------
// The order is a strict total order
// ---------------------------------------------------------------------------

proof fn lemma_bytes_irreflexive(a: Seq<u8>)
    ensures
        !bytes_before(a, a),
    decreases a.len(),
{
    if a.len() > 0 {
        lemma_bytes_irreflexive(a.drop_first());
    }
}

proof fn lemma_bytes_transitive(a: Seq<u8>, b: Seq<u8>, c: Seq<u8>)
    requires
        bytes_before(a, b),
        bytes_before(b, c),
    ensures
        bytes_before(a, c),
    decreases a.len(),
{
    if a.len() > 0 && a[0] == b[0] && b[0] == c[0] {
        lemma_bytes_transitive(a.drop_first(), b.drop_first(), c.drop_first());
    }
}

proof fn lemma_bytes_total(a: Seq<u8>, b: Seq<u8>)
    ensures
        bytes_before(a, b) || bytes_before(b, a) || a == b,
    decreases a.len(),
{
    if a.len() == 0 && b.len() == 0 {
        assert(a == b);
    } else if a.len() > 0 && b.len() > 0 && a[0] == b[0] {
        lemma_bytes_total(a.drop_first(), b.drop_first());
        if a.drop_first() == b.drop_first() {
            assert(a == seq![a[0]] + a.drop_first());
            assert(b == seq![b[0]] + b.drop_first());
        }
    }
}

proof fn lemma_bytes_after_prefix(prefix: Seq<u8>, a: Seq<u8>, b: Seq<u8>)
    ensures
        bytes_before(prefix + a, prefix + b) == bytes_before(a, b),
    decreases prefix.len(),
{
    if prefix.len() == 0 {
        assert(prefix + a == a);
        assert(prefix + b == b);
    } else {
        lemma_bytes_after_prefix(prefix.drop_first(), a, b);
        assert((prefix + a).drop_first() == prefix.drop_first() + a);
        assert((prefix + b).drop_first() == prefix.drop_first() + b);
    }
}

proof fn lemma_bytes_before_suffix(a: Seq<u8>, b: Seq<u8>, x: Seq<u8>, y: Seq<u8>)
    requires
        a.len() == b.len(),
        bytes_before(a, b),
    ensures
        bytes_before(a + x, b + y),
    decreases a.len(),
{
    if a[0] == b[0] {
        lemma_bytes_before_suffix(a.drop_first(), b.drop_first(), x, y);
        assert((a + x).drop_first() == a.drop_first() + x);
        assert((b + y).drop_first() == b.drop_first() + y);
    }
}

proof fn lemma_padded_bytes(n: nat, width: nat)
    ensures
        encode_utf8(crate::text::padded(n, width)).len() == width,
{
    let text = crate::text::padded(n, width);
    crate::text::lemma_padded(n, width);
    assert forall|i: int| 0 <= i < text.len() implies '\0' <= #[trigger] text[i] <= '\u{7f}' by {
        assert(crate::text::is_digit(text[i]));
    }
    is_ascii_chars_encode_utf8(text);
}

proof fn lemma_digit_order(a: int, b: int)
    requires
        0 <= a < b < 10,
    ensures
        text_before(seq![crate::text::digit_char(a)], seq![crate::text::digit_char(b)]),
{
    let x = seq![crate::text::digit_char(a)];
    let y = seq![crate::text::digit_char(b)];
    is_ascii_chars_encode_utf8(x);
    is_ascii_chars_encode_utf8(y);
    assert(x[0] as u8 == encode_utf8(x)[0]);
    assert(y[0] as u8 == encode_utf8(y)[0]);
}

/// Zero-padded numbers of one width are in the order of the numbers.
pub proof fn padded_numbers_sort_by_value(a: nat, b: nat, width: nat)
    requires
        a < b < crate::text::pow10(width),
    ensures
        text_before(crate::text::padded(a, width), crate::text::padded(b, width)),
    decreases width,
{
    let less = (width - 1) as nat;
    let x = crate::text::padded(a / 10, less);
    let y = crate::text::padded(b / 10, less);
    let c = seq![crate::text::digit_char((a % 10) as int)];
    let d = seq![crate::text::digit_char((b % 10) as int)];
    assert(crate::text::padded(a, width) == x + c);
    assert(crate::text::padded(b, width) == y + d);
    crate::text::lemma_bytes_of_parts(x, c);
    crate::text::lemma_bytes_of_parts(y, d);
    if a / 10 < b / 10 {
        padded_numbers_sort_by_value(a / 10, b / 10, less);
        lemma_padded_bytes(a / 10, less);
        lemma_padded_bytes(b / 10, less);
        lemma_bytes_before_suffix(
            encode_utf8(x),
            encode_utf8(y),
            encode_utf8(c),
            encode_utf8(d),
        );
    } else {
        lemma_digit_order((a % 10) as int, (b % 10) as int);
        lemma_bytes_after_prefix(encode_utf8(x), encode_utf8(c), encode_utf8(d));
    }
}

/// Texts that differ in a zero-padded number alone are in the order of the numbers.
pub proof fn numbered_texts_sort_by_number(
    prefix: Seq<char>,
    a: nat,
    b: nat,
    width: nat,
    suffix: Seq<char>,
)
    requires
        a < b < crate::text::pow10(width),
    ensures
        text_before(
            prefix + (crate::text::padded(a, width) + suffix),
            prefix + (crate::text::padded(b, width) + suffix),
        ),
{
    let x = crate::text::padded(a, width);
    let y = crate::text::padded(b, width);
    padded_numbers_sort_by_value(a, b, width);
    lemma_padded_bytes(a, width);
    lemma_padded_bytes(b, width);
    crate::text::lemma_bytes_of_parts(x, suffix);
    crate::text::lemma_bytes_of_parts(y, suffix);
    crate::text::lemma_bytes_of_parts(prefix, x + suffix);
    crate::text::lemma_bytes_of_parts(prefix, y + suffix);
    lemma_bytes_before_suffix(
        encode_utf8(x),
        encode_utf8(y),
        encode_utf8(suffix),
        encode_utf8(suffix),
    );
    lemma_bytes_after_prefix(encode_utf8(prefix), encode_utf8(x + suffix), encode_utf8(y + suffix));
}

/// No object comes before itself.
pub proof fn object_order_is_irreflexive(a: ObjectView)
    ensures
        !object_before(a, a),
{
    lemma_bytes_irreflexive(encode_utf8(a.path));
}

/// What comes before an object comes before all that follow that object.
pub proof fn object_order_is_transitive(a: ObjectView, b: ObjectView, c: ObjectView)
    requires
        object_before(a, b),
        object_before(b, c),
    ensures
        object_before(a, c),
{
    if a.store == b.store && b.store == c.store && a.kind == b.kind && b.kind == c.kind {
        lemma_bytes_transitive(encode_utf8(a.path), encode_utf8(b.path), encode_utf8(c.path));
    }
}

/// Of two different objects, one comes before the other.
pub proof fn object_order_is_total(a: ObjectView, b: ObjectView)
    ensures
        object_before(a, b) || object_before(b, a) || a == b,
{
    lemma_bytes_total(encode_utf8(a.path), encode_utf8(b.path));
    if encode_utf8(a.path) == encode_utf8(b.path) {
        crate::text::lemma_bytes_determine_text(a.path, b.path);
    }
}

/// Two ascending lists of the same objects are the same list: what a view holds determines how
/// it is listed.
pub proof fn ascending_list_is_determined(a: Seq<ObjectView>, b: Seq<ObjectView>)
    requires
        ascending(a),
        ascending(b),
        forall|object: ObjectView| a.contains(object) <==> b.contains(object),
    ensures
        a == b,
    decreases a.len(),
{
    if a.len() == 0 {
        if b.len() > 0 {
            assert(b.contains(b[0]));
            assert(a.contains(b[0]));
        }
    } else {
        assert(a.contains(a.last()));
        assert(b.contains(a.last()));
        assert(b.contains(b.last()));
        assert(a.contains(b.last()));
        let i = a.index_of(b.last());
        let j = b.index_of(a.last());
        if i < a.len() - 1 && j < b.len() - 1 {
            object_order_is_transitive(a[i], a.last(), b.last());
            object_order_is_irreflexive(b.last());
        }
        assert(a.last() == b.last());
        let x = a.drop_last();
        let y = b.drop_last();
        assert forall|object: ObjectView| x.contains(object) <==> y.contains(object) by {
            if x.contains(object) {
                lemma_rest_of_list(a, b, object);
            }
            if y.contains(object) {
                lemma_rest_of_list(b, a, object);
            }
        }
        ascending_list_is_determined(x, y);
        assert(a == x.push(a.last()));
        assert(b == y.push(b.last()));
    }
}

proof fn lemma_rest_of_list(a: Seq<ObjectView>, b: Seq<ObjectView>, object: ObjectView)
    requires
        a.len() > 0,
        b.len() > 0,
        ascending(a),
        a.last() == b.last(),
        forall|o: ObjectView| a.contains(o) ==> b.contains(o),
        a.drop_last().contains(object),
    ensures
        b.drop_last().contains(object),
{
    let k = a.drop_last().index_of(object);
    assert(a[k] == object);
    object_order_is_irreflexive(object);
    assert(object_before(a[k], a[a.len() - 1]));
    assert(b.contains(object));
    let m = b.index_of(object);
    assert(b.drop_last()[m] == object);
}

// ---------------------------------------------------------------------------
// Comparing and inserting
// ---------------------------------------------------------------------------

fn store_number(store: StorageViewObjectStore) -> (rank: u8)
    ensures
        rank == store_rank(store),
{
    match store {
        StorageViewObjectStore::Main => 0,
        StorageViewObjectStore::Wal => 1,
    }
}

fn kind_number(kind: StorageViewObjectKind) -> (rank: u8)
    ensures
        rank == kind_rank(kind),
{
    match kind {
        StorageViewObjectKind::Manifest => 0,
        StorageViewObjectKind::Wal => 1,
        StorageViewObjectKind::L0 => 2,
        StorageViewObjectKind::SortedRun => 3,
    }
}

/// Whether `a` comes before `b` in the order of their bytes.
pub fn text_precedes(a: &str, b: &str) -> (res: bool)
    ensures
        res == text_before(a@, b@),
{
    let x = a.as_bytes();
    let y = b.as_bytes();
    assert(x@.skip(0) == x@);
    assert(y@.skip(0) == y@);
    let mut i: usize = 0;
    while i < x.len() && i < y.len() && x[i] == y[i]
        invariant
            i <= x@.len(),
            i <= y@.len(),
            bytes_before(x@, y@) == bytes_before(x@.skip(i as int), y@.skip(i as int)),
        decreases x@.len() - i,
    {
        assert(x@.skip(i as int).drop_first() == x@.skip(i + 1));
        assert(y@.skip(i as int).drop_first() == y@.skip(i + 1));
        i += 1;
    }
    if i == y.len() {
        false
    } else if i == x.len() {
        true
    } else {
        x[i] < y[i]
    }
}

/// Whether `a` comes before `b` in the order of objects.
pub fn object_precedes(a: &StorageViewObject, b: &StorageViewObject) -> (res: bool)
    ensures
        res == object_before(a@, b@),
{
    if a.store != b.store {
        store_number(a.store) < store_number(b.store)
    } else if a.kind != b.kind {
        kind_number(a.kind) < kind_number(b.kind)
    } else {
        text_precedes(a.path.as_str(), b.path.as_str())
    }
}

/// Adds `object` to an ascending list of objects, at its place; a list that holds it already
/// stays as it is.
pub fn insert_object(objects: &mut Vec<StorageViewObject>, object: StorageViewObject)
    requires
        ascending(object_views(old(objects)@)),
    ensures
        ascending(object_views(final(objects)@)),
        forall|o: ObjectView| #[trigger]
            object_views(final(objects)@).contains(o) <==> object_views(old(objects)@).contains(o)
                || o == object@,
{
    let ghost before = object_views(objects@);
    let mut low: usize = 0;
    let mut high: usize = objects.len();
    while low < high
        invariant
            low <= high <= objects@.len(),
            objects@ == old(objects)@,
            before == object_views(objects@),
            ascending(before),
            forall|k: int| 0 <= k < low ==> object_before(#[trigger] before[k], object@),
            forall|k: int| high <= k < objects@.len() ==> !object_before(#[trigger] before[k], object@),
        decreases high - low,
    {
        let middle: usize = low + (high - low) / 2;
        assert(before[middle as int] == objects@[middle as int]@);
        if object_precedes(&objects[middle], &object) {
            proof {
                assert forall|k: int| 0 <= k < middle + 1 implies object_before(
                    #[trigger] before[k],
                    object@,
                ) by {
                    if k < middle {
                        object_order_is_transitive(before[k], before[middle as int], object@);
                    }
                }
            }
            low = middle + 1;
        } else {
            proof {
                assert forall|k: int| middle <= k < objects@.len() implies !object_before(
                    #[trigger] before[k],
                    object@,
                ) by {
                    if k > middle && object_before(before[k], object@) {
                        object_order_is_transitive(before[middle as int], before[k], object@);
                    }
                }
            }
            high = middle;
        }
    }
    if low < objects.len() && !object_precedes(&object, &objects[low]) {
        proof {
            assert(before[low as int] == objects@[low as int]@);
            object_order_is_total(object@, before[low as int]);
            assert(before.contains(before[low as int]));
        }
        return;
    }
    objects.insert(low, object);
    proof {
        let after = object_views(objects@);
        assert(after == before.insert(low as int, object@));
        assert forall|k: int| low <= k < before.len() implies object_before(
            object@,
            #[trigger] before[k],
        ) by {
            if k > low {
                object_order_is_transitive(object@, before[low as int], before[k]);
            }
        }
        assert forall|i: int, j: int| 0 <= i < j < after.len() implies object_before(
            #[trigger] after[i],
            #[trigger] after[j],
        ) by {
            if i < low && j < low {
                assert(object_before(before[i], before[j]));
            } else if i < low && j == low {
                assert(object_before(before[i], object@));
            } else if i < low {
                assert(object_before(before[i], before[j - 1]));
            } else if i == low {
                assert(object_before(object@, before[j - 1]));
            } else {
                assert(object_before(before[i - 1], before[j - 1]));
            }
        }
        assert forall|o: ObjectView| #[trigger] after.contains(o) <==> before.contains(o) || o
            == object@ by {
            assert(after[low as int] == object@);
            if before.contains(o) {
                let k = before.index_of(o);
                if k < low {
                    assert(after[k] == o);
                } else {
                    assert(after[k + 1] == o);
                }
            }
            if after.contains(o) {
                let k = after.index_of(o);
                if k < low {
                    assert(before[k] == o);
                } else if k > low {
                    assert(before[k - 1] == o);
                }
            }
        }
    }
}

} // verus!
