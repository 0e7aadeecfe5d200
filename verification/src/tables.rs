//! Sorted string tables and where they are stored.

use std::collections::HashMap;
use vstd::prelude::*;

use crate::ids::ulid_to_string;
use crate::object_path::ObjectPath;
use crate::text::push_padded;

verus! {

broadcast use vstd::std_specs::hash::group_hash_axioms;

/// Digits in the file names of write-ahead log tables and manifests.
pub const ID_WIDTH: usize = 20;

/// Identity of a sorted string table.
#[derive(Clone, Copy, Debug, PartialEq, Eq, Structural)]
pub enum SsTableId {
    /// A table of the write-ahead log, by its number.
    Wal(u64),
    /// A table of the tree, by its ULID.
    Compacted(u128),
}

/// The path of the table `id` of the database at `root`.
pub open spec fn table_path(root: Seq<char>, id: SsTableId) -> Seq<char> {
    match id {
        SsTableId::Wal(id) => crate::object_path::joined(
            crate::object_path::joined(root, "wal"@),
            crate::text::padded(id as nat, ID_WIDTH as nat) + ".sst"@,
        ),
        SsTableId::Compacted(id) => crate::object_path::joined(
            crate::object_path::joined(root, "compacted"@),
            crate::ids::ulid_text(id) + ".sst"@,
        ),
    }
}

/// The databases that own tables which another database reads.
#[derive(Debug)]
pub struct ExternalSsts {
    wal: HashMap<u64, ObjectPath>,
    compacted: HashMap<u128, ObjectPath>,
}

impl View for ExternalSsts {
    type V = Map<SsTableId, Seq<char>>;

    closed spec fn view(&self) -> Map<SsTableId, Seq<char>> {
        Map::new(
            |id: SsTableId|
                match id {
                    SsTableId::Wal(id) => self.wal@.contains_key(id),
                    SsTableId::Compacted(id) => self.compacted@.contains_key(id),
                },
            |id: SsTableId|
                match id {
                    SsTableId::Wal(id) => self.wal@[id]@,
                    SsTableId::Compacted(id) => self.compacted@[id]@,
                },
        )
    }
}

impl ExternalSsts {
    /// No table at all.
    pub fn new() -> (res: ExternalSsts)
        ensures
            res@ == Map::<SsTableId, Seq<char>>::empty(),
    {
        let res = ExternalSsts { wal: HashMap::new(), compacted: HashMap::new() };
        assert(res@ =~= Map::<SsTableId, Seq<char>>::empty());
        res
    }

    /// Records that the database at `path` owns the table `id`; says whether an owner of that
    /// table was recorded already.
    pub fn insert(&mut self, id: SsTableId, path: ObjectPath) -> (present: bool)
        ensures
            final(self)@ == old(self)@.insert(id, path@),
            present == old(self)@.contains_key(id),
    {
        let present = match id {
            SsTableId::Wal(wal_id) => self.wal.insert(wal_id, path).is_some(),
            SsTableId::Compacted(ulid) => self.compacted.insert(ulid, path).is_some(),
        };
        assert(self@ =~= old(self)@.insert(id, path@));
        present
    }

    /// The database that owns the table `id`, if it is recorded.
    pub fn get(&self, id: SsTableId) -> (path: Option<&ObjectPath>)
        ensures
            match path {
                Some(path) => self@.contains_key(id) && path@ == self@[id],
                None => !self@.contains_key(id),
            },
    {
        match id {
            SsTableId::Wal(wal_id) => self.wal.get(&wal_id),
            SsTableId::Compacted(ulid) => self.compacted.get(&ulid),
        }
    }
}

/// Finds the objects that hold the tables of a database.
#[derive(Debug)]
pub struct PathResolver {
    root_path: ObjectPath,
    external_ssts: ExternalSsts,
}

impl PathResolver {
    /// The path of the database.
    pub closed spec fn root(&self) -> Seq<char> {
        self.root_path@
    }

    /// The owners of the tables that belong to other databases.
    pub closed spec fn externals(&self) -> Map<SsTableId, Seq<char>> {
        self.external_ssts@
    }

    /// The path at which the table `id` is stored.
    pub open spec fn resolved(&self, id: SsTableId) -> Seq<char> {
        resolved_path(self.root(), self.externals(), id)
    }

    /// A resolver for a database that owns all of its tables.
    pub fn new(root_path: ObjectPath) -> (res: PathResolver)
        ensures
            res.root() == root_path@,
            res.externals() == Map::<SsTableId, Seq<char>>::empty(),
    {
        PathResolver { root_path, external_ssts: ExternalSsts::new() }
    }

    /// A resolver for a database some of whose tables belong to others.
    pub fn new_with_external_ssts(root_path: ObjectPath, external_ssts: ExternalSsts) -> (res:
        PathResolver)
        ensures
            res.root() == root_path@,
            res.externals() == external_ssts@,
    {
        PathResolver { root_path, external_ssts }
    }

    /// The path at which the table `id` is stored.
    pub fn table_path(&self, id: SsTableId) -> (path: ObjectPath)
        ensures
            path@ == self.resolved(id),
            path@ == resolved_path(self.root(), self.externals(), id),
    {
        let root = match self.external_ssts.get(id) {
            Some(path) => path,
            None => &self.root_path,
        };
        match id {
            SsTableId::Wal(wal_id) => {
                let mut name = String::new();
                push_padded(&mut name, wal_id, ID_WIDTH);
                name.append(".sst");
                proof {
                    lemma_plain_names();
                    lemma_padded_name_is_plain(wal_id, ".sst"@);
                }
                root.join("wal").join(name.as_str())
            },
            SsTableId::Compacted(ulid) => {
                let mut name = ulid_to_string(ulid);
                name.append(".sst");
                proof {
                    lemma_plain_names();
                    lemma_ulid_name_is_plain(ulid, ".sst"@);
                }
                root.join("compacted").join(name.as_str())
            },
        }
    }
}

/// The path at which the table `id` is stored: under the database that owns it, which is the one
/// at `root` unless `externals` names another.
pub open spec fn resolved_path(
    root: Seq<char>,
    externals: Map<SsTableId, Seq<char>>,
    id: SsTableId,
) -> Seq<char> {
    if externals.contains_key(id) {
        table_path(externals[id], id)
    } else {
        table_path(root, id)
    }
}

/// The fixed parts of object names stand in a path as they are.
pub(crate) proof fn lemma_plain_names()
    ensures
        crate::object_path::plain_segment("wal"@),
        crate::object_path::plain_segment("compacted"@),
        crate::object_path::plain_segment("manifest"@),
        crate::object_path::plain_segment(".sst"@),
        crate::object_path::plain_segment(".manifest"@),
{
    reveal_strlit("wal");
    reveal_strlit("compacted");
    reveal_strlit("manifest");
    reveal_strlit(".sst");
    reveal_strlit(".manifest");
}

/// A padded number with a plain suffix stands in a path as it is.
pub(crate) proof fn lemma_padded_name_is_plain(id: u64, suffix: Seq<char>)
    requires
        crate::object_path::plain_segment(suffix),
    ensures
        crate::object_path::plain_segment(
            crate::text::padded(id as nat, ID_WIDTH as nat) + suffix,
        ),
{
    crate::text::lemma_padded(id as nat, ID_WIDTH as nat);
}

proof fn lemma_base32_is_plain(d: int)
    requires
        0 <= d < 32,
    ensures
        crate::object_path::plain_char(crate::ids::base32_char(d)),
{
}

proof fn lemma_ulid_name_is_plain(id: u128, suffix: Seq<char>)
    requires
        crate::object_path::plain_segment(suffix),
    ensures
        crate::object_path::plain_segment(crate::ids::ulid_text(id) + suffix),
{
    let name = crate::ids::ulid_text(id) + suffix;
    crate::ids::lemma_base32_digits(id as nat, 26);
    assert forall|i: int| 0 <= i < name.len() implies crate::object_path::plain_char(
        #[trigger] name[i],
    ) by {
        if i < 26 {
            let d = choose|d: int|
                0 <= d < 32 && crate::ids::ulid_text(id)[i] == crate::ids::base32_char(d);
            lemma_base32_is_plain(d);
        } else {
            assert(name[i] == suffix[i - 26]);
        }
    }
}

} // verus!
