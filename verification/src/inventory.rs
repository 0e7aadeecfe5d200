//! Read-only physical inventory for a checkpoint-backed storage view.
//!
//! Callers can freeze and retain the listed paths without knowing how a database lays out its
//! objects.

use vstd::prelude::*;

use crate::ids::uuid_to_string;
use crate::manifest::{Checkpoint, ExternalDb, Manifest, TreeState};
use crate::object_path::ObjectPath;
use crate::storage_view::{
    insert_object, StorageViewObject, StorageViewObjectKind, StorageViewObjectStore,
    StorageViewRevision, ObjectView, RevisionView,
};
use crate::tables::{ExternalSsts, PathResolver, SsTableId, ID_WIDTH};
use crate::text::{push_decimal, push_padded, same_text};

verus! {

// ---------------------------------------------------------------------------
// Errors
// ---------------------------------------------------------------------------

/// A failure of the storage engine, by what it says of itself.
#[derive(Debug)]
pub struct SlateDbError {
    pub message: String,
}

/// Failure while resolving an exact checkpoint-backed storage view.
#[derive(Debug)]
#[non_exhaustive]
pub enum StorageViewInventoryError {
    /// The root latest manifest changed while the inventory was being captured.
    RevisionChanged { db_path: String, expected: u64, observed: u64 },
    /// The explicit root checkpoint no longer exists.
    CheckpointMissing { db_path: String, checkpoint_id: u128 },
    /// Persisted clone metadata cannot describe one unambiguous storage view.
    InvalidGraph { reason: &'static str },
    /// Any other storage or data error.
    SlateDb(SlateDbError),
}

/// What a `StorageViewInventoryError` stands for.
pub enum ErrorView {
    RevisionChanged { db_path: Seq<char>, expected: u64, observed: u64 },
    CheckpointMissing { db_path: Seq<char>, checkpoint_id: u128 },
    InvalidGraph { reason: Seq<char> },
    SlateDb { message: Seq<char> },
}

impl View for StorageViewInventoryError {
    type V = ErrorView;

    open spec fn view(&self) -> ErrorView {
        match *self {
            StorageViewInventoryError::RevisionChanged { db_path, expected, observed } =>
                ErrorView::RevisionChanged { db_path: db_path@, expected, observed },
            StorageViewInventoryError::CheckpointMissing { db_path, checkpoint_id } =>
                ErrorView::CheckpointMissing { db_path: db_path@, checkpoint_id },
            StorageViewInventoryError::InvalidGraph { reason } => ErrorView::InvalidGraph {
                reason: reason@,
            },
            StorageViewInventoryError::SlateDb(error) => ErrorView::SlateDb {
                message: error.message@,
            },
        }
    }
}

impl From<SlateDbError> for StorageViewInventoryError {
    fn from(error: SlateDbError) -> (res: Self)
        ensures
            res == StorageViewInventoryError::SlateDb(error),
    {
        StorageViewInventoryError::SlateDb(error)
    }
}

impl vstd::std_specs::convert::FromSpecImpl<SlateDbError> for StorageViewInventoryError {
    open spec fn obeys_from_spec() -> bool {
        true
    }

    open spec fn from_spec(error: SlateDbError) -> Self {
        StorageViewInventoryError::SlateDb(error)
    }
}

impl StorageViewInventoryError {
    /// What `message` says of an error.
    pub open spec fn message_of(error: ErrorView) -> Seq<char> {
        match error {
            ErrorView::RevisionChanged { db_path, expected, observed } =>
                "storage view revision changed. db_path=`"@ + db_path + "`, expected=`"@
                    + crate::text::decimal(expected as nat) + "`, observed=`"@
                    + crate::text::decimal(observed as nat) + "`"@,
            ErrorView::CheckpointMissing { db_path, checkpoint_id } =>
                "checkpoint missing. db_path=`"@ + db_path + "`, checkpoint_id=`"@
                    + crate::ids::uuid_text(checkpoint_id) + "`"@,
            ErrorView::InvalidGraph { reason } => "invalid storage view graph: "@ + reason,
            ErrorView::SlateDb { message } => message,
        }
    }

    /// The error in words.
    pub fn message(&self) -> (text: String)
        ensures
            text@ == Self::message_of(self@),
    {
        match self {
            StorageViewInventoryError::RevisionChanged { db_path, expected, observed } => {
                let mut text = "storage view revision changed. db_path=`".to_owned();
                text.append(db_path.as_str());
                text.append("`, expected=`");
                push_decimal(&mut text, *expected);
                text.append("`, observed=`");
                push_decimal(&mut text, *observed);
                text.append("`");
                text
            },
            StorageViewInventoryError::CheckpointMissing { db_path, checkpoint_id } => {
                let mut text = "checkpoint missing. db_path=`".to_owned();
                text.append(db_path.as_str());
                text.append("`, checkpoint_id=`");
                text.append(uuid_to_string(*checkpoint_id).as_str());
                text.append("`");
                text
            },
            StorageViewInventoryError::InvalidGraph { reason } => {
                let mut text = "invalid storage view graph: ".to_owned();
                text.append(reason);
                text
            },
            StorageViewInventoryError::SlateDb(error) => error.message.clone(),
        }
    }
}

// ---------------------------------------------------------------------------
// Parts of the inventory
// ---------------------------------------------------------------------------

/// Whether `at` is the first of the checkpoints with the given UUID.
pub open spec fn first_checkpoint(
    checkpoints: Seq<Checkpoint>,
    checkpoint_id: u128,
    at: int,
) -> bool {
    &&& 0 <= at < checkpoints.len()
    &&& checkpoints[at].id == checkpoint_id
    &&& forall|i: int| 0 <= i < at ==> (#[trigger] checkpoints[i]).id != checkpoint_id
}

/// Whether one of the checkpoints has the given UUID.
pub open spec fn has_checkpoint(checkpoints: Seq<Checkpoint>, checkpoint_id: u128) -> bool {
    exists|i: int|
        0 <= i < checkpoints.len() && (#[trigger] checkpoints[i]).id == checkpoint_id
}

/// The first of the checkpoints with the given UUID.
pub fn find_checkpoint<'a>(
    checkpoints: &'a [Checkpoint],
    checkpoint_id: u128,
    db_path: &ObjectPath,
) -> (res: Result<&'a Checkpoint, StorageViewInventoryError>)
    ensures
        match res {
            Ok(checkpoint) => exists|at: int| #[trigger]
                first_checkpoint(checkpoints@, checkpoint_id, at) && *checkpoint
                    == checkpoints@[at],
            Err(error) => {
                &&& !has_checkpoint(checkpoints@, checkpoint_id)
                &&& error@ == ErrorView::CheckpointMissing { db_path: db_path@, checkpoint_id }
            },
        },
{
    let mut i: usize = 0;
    while i < checkpoints.len()
        invariant
            i <= checkpoints@.len(),
            forall|k: int| 0 <= k < i ==> (#[trigger] checkpoints@[k]).id != checkpoint_id,
        decreases checkpoints@.len() - i,
    {
        if checkpoints[i].id == checkpoint_id {
            assert(first_checkpoint(checkpoints@, checkpoint_id, i as int));
            return Ok(&checkpoints[i]);
        }
        i += 1;
    }
    Err(StorageViewInventoryError::CheckpointMissing { db_path: db_path.to_text(), checkpoint_id })
}

/// The object that holds the manifest `manifest_id` of the database at `path`.
pub open spec fn manifest_object_view(path: Seq<char>, manifest_id: u64) -> ObjectView {
    ObjectView {
        store: StorageViewObjectStore::Main,
        kind: StorageViewObjectKind::Manifest,
        path: crate::object_path::joined(
            crate::object_path::joined(path, "manifest"@),
            crate::text::padded(manifest_id as nat, ID_WIDTH as nat) + ".manifest"@,
        ),
    }
}

/// The object that holds the manifest `manifest_id` of the database at `path`.
pub fn manifest_object(path: &ObjectPath, manifest_id: u64) -> (object: StorageViewObject)
    ensures
        object@ == manifest_object_view(path@, manifest_id),
{
    let mut name = String::new();
    push_padded(&mut name, manifest_id, ID_WIDTH);
    name.append(".manifest");
    proof {
        crate::tables::lemma_plain_names();
        crate::tables::lemma_padded_name_is_plain(manifest_id, ".manifest"@);
    }
    StorageViewObject {
        store: StorageViewObjectStore::Main,
        kind: StorageViewObjectKind::Manifest,
        path: path.join("manifest").join(name.as_str()).to_text(),
    }
}

/// Whether the external database `db`, in its list of tables, names `id` at `at`.
pub open spec fn claims(dbs: Seq<ExternalDb>, db: int, at: int, id: SsTableId) -> bool {
    &&& 0 <= db < dbs.len()
    &&& 0 <= at < dbs[db].sst_ids@.len()
    &&& dbs[db].sst_ids@[at] == id
}

/// Whether the external database `db` names the table `id`.
pub open spec fn claimed_by(dbs: Seq<ExternalDb>, db: int, id: SsTableId) -> bool {
    exists|at: int| claims(dbs, db, at, id)
}

/// Whether an external database names the table `id`.
pub open spec fn claimed(dbs: Seq<ExternalDb>, id: SsTableId) -> bool {
    exists|db: int| claimed_by(dbs, db, id)
}

/// Whether no table is named twice, by one external database or by two.
pub open spec fn unambiguous(dbs: Seq<ExternalDb>) -> bool {
    forall|db: int, at: int, other_db: int, other_at: int, id: SsTableId| #[trigger]
        claims(dbs, db, at, id) && #[trigger] claims(dbs, other_db, other_at, id) ==> db == other_db
            && at == other_at
}

/// An external database that names the table `id`.
pub open spec fn claimant(dbs: Seq<ExternalDb>, id: SsTableId) -> int {
    choose|db: int| claimed_by(dbs, db, id)
}

/// The external tables, with the paths of the databases that name them.
pub open spec fn external_paths(dbs: Seq<ExternalDb>) -> Map<SsTableId, Seq<char>> {
    Map::new(
        |id: SsTableId| claimed(dbs, id),
        |id: SsTableId| crate::object_path::encoded_path(dbs[claimant(dbs, id)].path@),
    )
}

/// Whether position `at` of database `db` comes before position `end_at` of database `end_db`.
spec fn earlier(db: int, at: int, end_db: int, end_at: int) -> bool {
    db < end_db || (db == end_db && at < end_at)
}

/// What `external_sst_paths` has gathered when it reaches position `end_at` of `end_db`.
spec fn gathered(
    dbs: Seq<ExternalDb>,
    end_db: int,
    end_at: int,
    paths: Map<SsTableId, Seq<char>>,
) -> bool {
    &&& forall|db: int, at: int, id: SsTableId| #[trigger]
        claims(dbs, db, at, id) && earlier(db, at, end_db, end_at) ==> paths.contains_key(id)
            && paths[id] == crate::object_path::encoded_path(dbs[db].path@)
    &&& forall|id: SsTableId| #[trigger]
        paths.contains_key(id) ==> exists|db: int, at: int|
            claims(dbs, db, at, id) && earlier(db, at, end_db, end_at)
    &&& forall|db: int, at: int, other_db: int, other_at: int, id: SsTableId| #[trigger]
        claims(dbs, db, at, id) && #[trigger] claims(dbs, other_db, other_at, id) && earlier(
            db,
            at,
            end_db,
            end_at,
        ) && earlier(other_db, other_at, end_db, end_at) ==> db == other_db && at == other_at
}

/// The databases that own the external tables.
pub fn external_sst_paths(manifest: &Manifest) -> (res: Result<
    ExternalSsts,
    StorageViewInventoryError,
>)
    ensures
        match res {
            Ok(paths) => {
                &&& unambiguous(manifest.external_dbs@)
                &&& paths@ == external_paths(manifest.external_dbs@)
            },
            Err(error) => {
                &&& !unambiguous(manifest.external_dbs@)
                &&& error@ == ErrorView::InvalidGraph { reason: "duplicate external SST identity"@ }
            },
        },
{
    let external_dbs = &manifest.external_dbs;
    let mut paths = ExternalSsts::new();
    let mut db: usize = 0;
    while db < external_dbs.len()
        invariant
            external_dbs@ == manifest.external_dbs@,
            db <= external_dbs@.len(),
            gathered(external_dbs@, db as int, 0, paths@),
        decreases external_dbs@.len() - db,
    {
        let external_db = &external_dbs[db];
        let mut at: usize = 0;
        while at < external_db.sst_ids.len()
            invariant
                external_dbs@ == manifest.external_dbs@,
                db < external_dbs@.len(),
                *external_db == external_dbs@[db as int],
                at <= external_db.sst_ids@.len(),
                gathered(external_dbs@, db as int, at as int, paths@),
            decreases external_db.sst_ids@.len() - at,
        {
            let id = external_db.sst_ids[at];
            let ghost before = paths@;
            let present = paths.insert(id, ObjectPath::encode(external_db.path.as_str()));
            assert(claims(external_dbs@, db as int, at as int, id));
            if present {
                assert(exists|d: int, a: int|
                    claims(external_dbs@, d, a, id) && earlier(d, a, db as int, at as int));
                return Err(
                    StorageViewInventoryError::InvalidGraph {
                        reason: "duplicate external SST identity",
                    },
                );
            }
            proof {
                assert forall|i: SsTableId| #[trigger] paths@.contains_key(i) implies exists|
                    d: int,
                    a: int,
                |
                    claims(external_dbs@, d, a, i) && earlier(d, a, db as int, at + 1) by {
                    if before.contains_key(i) {
                        let (d, a) = choose|d: int, a: int|
                            claims(external_dbs@, d, a, i) && earlier(d, a, db as int, at as int);
                        assert(claims(external_dbs@, d, a, i) && earlier(d, a, db as int, at + 1));
                    } else {
                        assert(claims(external_dbs@, db as int, at as int, i) && earlier(
                            db as int,
                            at as int,
                            db as int,
                            at + 1,
                        ));
                    }
                }
            }
            at += 1;
        }
        proof {
            assert forall|i: SsTableId| #[trigger] paths@.contains_key(i) implies exists|
                d: int,
                a: int,
            |
                claims(external_dbs@, d, a, i) && earlier(d, a, db + 1, 0) by {
                let (d, a) = choose|d: int, a: int|
                    claims(external_dbs@, d, a, i) && earlier(d, a, db as int, at as int);
                assert(claims(external_dbs@, d, a, i) && earlier(d, a, db + 1, 0));
            }
        }
        db += 1;
    }
    proof {
        let dbs = external_dbs@;
        assert forall|id: SsTableId| #[trigger] paths@.contains_key(id) <==> claimed(dbs, id) by {
            if paths@.contains_key(id) {
                let (d, a) = choose|d: int, a: int|
                    claims(dbs, d, a, id) && earlier(d, a, db as int, 0);
                assert(claimed_by(dbs, d, id));
            }
            if claimed(dbs, id) {
                let d = claimant(dbs, id);
                let a = choose|a: int| claims(dbs, d, a, id);
                assert(claims(dbs, d, a, id) && earlier(d, a, db as int, 0));
            }
        }
        assert forall|id: SsTableId| claimed(dbs, id) implies #[trigger] paths@[id]
            == crate::object_path::encoded_path(dbs[claimant(dbs, id)].path@) by {
            let d = claimant(dbs, id);
            let a = choose|a: int| claims(dbs, d, a, id);
            assert(claims(dbs, d, a, id) && earlier(d, a, db as int, 0));
        }
        assert(paths@ =~= external_paths(dbs));
    }
    Ok(paths)
}

// ---------------------------------------------------------------------------
// The objects of a view
// ---------------------------------------------------------------------------

/// The object that holds the log table `wal_id` of the database at `root`.
pub open spec fn wal_object(root: Seq<char>, wal_id: u64) -> ObjectView {
    ObjectView {
        store: StorageViewObjectStore::Wal,
        kind: StorageViewObjectKind::Wal,
        path: crate::tables::table_path(root, SsTableId::Wal(wal_id)),
    }
}

/// The object that holds a table of the tree, in the given role.
pub open spec fn tree_object(
    kind: StorageViewObjectKind,
    root: Seq<char>,
    externals: Map<SsTableId, Seq<char>>,
    id: SsTableId,
) -> ObjectView {
    ObjectView {
        store: StorageViewObjectStore::Main,
        kind,
        path: crate::tables::resolved_path(root, externals, id),
    }
}

/// Whether `object` holds one of the log tables after `replayed` and before `next`.
pub open spec fn in_log(object: ObjectView, root: Seq<char>, replayed: int, next: int) -> bool {
    exists|wal_id: u64| replayed < wal_id < next && object == #[trigger] wal_object(root, wal_id)
}

/// Whether `object` holds one of the tables `ids`, in the given role.
pub open spec fn among_tables(
    object: ObjectView,
    kind: StorageViewObjectKind,
    root: Seq<char>,
    externals: Map<SsTableId, Seq<char>>,
    ids: Seq<SsTableId>,
) -> bool {
    exists|i: int|
        0 <= i < ids.len() && object == tree_object(kind, root, externals, #[trigger] ids[i])
}

/// Whether `object` holds a table of one of the sorted runs of `tree`.
pub open spec fn in_sorted_runs(
    object: ObjectView,
    root: Seq<char>,
    externals: Map<SsTableId, Seq<char>>,
    tree: TreeState,
) -> bool {
    exists|run: int|
        0 <= run < tree.compacted@.len() && among_tables(
            object,
            StorageViewObjectKind::SortedRun,
            root,
            externals,
            (#[trigger] tree.compacted@[run]).ssts@,
        )
}

/// Whether `object` holds a table of `tree`.
pub open spec fn in_tree(
    object: ObjectView,
    root: Seq<char>,
    externals: Map<SsTableId, Seq<char>>,
    tree: TreeState,
) -> bool {
    ||| among_tables(object, StorageViewObjectKind::L0, root, externals, tree.l0@)
    ||| in_sorted_runs(object, root, externals, tree)
}

/// Whether `object` holds a table of one of the trees.
pub open spec fn in_trees(
    object: ObjectView,
    root: Seq<char>,
    externals: Map<SsTableId, Seq<char>>,
    trees: Seq<TreeState>,
) -> bool {
    exists|t: int| 0 <= t < trees.len() && in_tree(object, root, externals, #[trigger] trees[t])
}

/// Whether `object` belongs to the view that the manifest `manifest_id` of the database at
/// `root` describes: the manifest itself, the log that is not in the trees yet, and the tables of
/// the trees, each under the database that owns it.
pub open spec fn in_storage_view(
    object: ObjectView,
    root: Seq<char>,
    manifest_id: u64,
    manifest: Manifest,
) -> bool {
    ||| object == manifest_object_view(root, manifest_id)
    ||| in_log(
        object,
        root,
        manifest.replay_after_wal_id as int,
        manifest.next_wal_sst_id as int,
    )
    ||| in_trees(object, root, external_paths(manifest.external_dbs@), manifest.trees@)
}

/// Adds the objects that hold the tables `ids`, in the given role.
fn insert_tables(
    objects: &mut Vec<StorageViewObject>,
    kind: StorageViewObjectKind,
    resolver: &PathResolver,
    ids: &Vec<SsTableId>,
)
    requires
        crate::storage_view::ascending(crate::storage_view::object_views(old(objects)@)),
    ensures
        crate::storage_view::ascending(crate::storage_view::object_views(final(objects)@)),
        forall|o: ObjectView| #[trigger]
            crate::storage_view::object_views(final(objects)@).contains(o)
                <==> crate::storage_view::object_views(old(objects)@).contains(o) || among_tables(
                o,
                kind,
                resolver.root(),
                resolver.externals(),
                ids@,
            ),
{
    let mut i: usize = 0;
    while i < ids.len()
        invariant
            i <= ids@.len(),
            crate::storage_view::ascending(crate::storage_view::object_views(objects@)),
            forall|o: ObjectView| #[trigger]
                crate::storage_view::object_views(objects@).contains(o)
                    <==> crate::storage_view::object_views(old(objects)@).contains(o)
                    || among_tables(
                    o,
                    kind,
                    resolver.root(),
                    resolver.externals(),
                    ids@.take(i as int),
                ),
        decreases ids@.len() - i,
    {
        let ghost before = crate::storage_view::object_views(objects@);
        let id = ids[i];
        let object = StorageViewObject {
            store: StorageViewObjectStore::Main,
            kind,
            path: resolver.table_path(id).to_text(),
        };
        assert(object@ == tree_object(kind, resolver.root(), resolver.externals(), id));
        insert_object(objects, object);
        proof {
            let after = crate::storage_view::object_views(objects@);
            assert forall|o: ObjectView| #[trigger] after.contains(o)
                <==> crate::storage_view::object_views(old(objects)@).contains(o) || among_tables(
                o,
                kind,
                resolver.root(),
                resolver.externals(),
                ids@.take(i + 1),
            ) by {
                assert(after.contains(o) <==> before.contains(o) || o == object@);
                lemma_one_more_table(o, kind, resolver.root(), resolver.externals(), ids@, i as int);
            }
        }
        i += 1;
    }
    assert(ids@.take(i as int) == ids@);
}

proof fn lemma_one_more_table(
    o: ObjectView,
    kind: StorageViewObjectKind,
    root: Seq<char>,
    externals: Map<SsTableId, Seq<char>>,
    ids: Seq<SsTableId>,
    i: int,
)
    requires
        0 <= i < ids.len(),
    ensures
        among_tables(o, kind, root, externals, ids.take(i + 1)) <==> o == tree_object(
            kind,
            root,
            externals,
            ids[i],
        ) || among_tables(o, kind, root, externals, ids.take(i)),
{
    let more = ids.take(i + 1);
    let less = ids.take(i);
    assert(more[i] == ids[i]);
    if among_tables(o, kind, root, externals, less) {
        let k = choose|k: int|
            0 <= k < less.len() && o == tree_object(kind, root, externals, #[trigger] less[k]);
        assert(more[k] == less[k]);
    }
    if among_tables(o, kind, root, externals, more) {
        let k = choose|k: int|
            0 <= k < more.len() && o == tree_object(kind, root, externals, #[trigger] more[k]);
        if k < i {
            assert(less[k] == more[k]);
        }
    }
}

/// Adds the objects of the log tables after `replayed` and before `next`.
fn insert_log(
    objects: &mut Vec<StorageViewObject>,
    resolver: &PathResolver,
    replayed: u64,
    next: u64,
)
    requires
        replayed < u64::MAX,
        resolver.externals() == Map::<SsTableId, Seq<char>>::empty(),
        crate::storage_view::ascending(crate::storage_view::object_views(old(objects)@)),
    ensures
        crate::storage_view::ascending(crate::storage_view::object_views(final(objects)@)),
        forall|o: ObjectView| #[trigger]
            crate::storage_view::object_views(final(objects)@).contains(o)
                <==> crate::storage_view::object_views(old(objects)@).contains(o) || in_log(
                o,
                resolver.root(),
                replayed as int,
                next as int,
            ),
{
    let mut wal_id: u64 = replayed + 1;
    while wal_id < next
        invariant
            replayed < wal_id,
            wal_id <= next || wal_id == replayed + 1,
            resolver.externals() == Map::<SsTableId, Seq<char>>::empty(),
            crate::storage_view::ascending(crate::storage_view::object_views(objects@)),
            forall|o: ObjectView| #[trigger]
                crate::storage_view::object_views(objects@).contains(o)
                    <==> crate::storage_view::object_views(old(objects)@).contains(o) || in_log(
                    o,
                    resolver.root(),
                    replayed as int,
                    wal_id as int,
                ),
        decreases next - wal_id,
    {
        insert_object(
            objects,
            StorageViewObject {
                store: StorageViewObjectStore::Wal,
                kind: StorageViewObjectKind::Wal,
                path: resolver.table_path(SsTableId::Wal(wal_id)).to_text(),
            },
        );
        proof {
            let root = resolver.root();
            assert forall|o: ObjectView| in_log(o, root, replayed as int, wal_id + 1) <==> o
                == wal_object(root, wal_id) || in_log(o, root, replayed as int, wal_id as int) by {
                if in_log(o, root, replayed as int, wal_id as int) {
                    let w = choose|w: u64|
                        replayed < w < wal_id && o == #[trigger] wal_object(root, w);
                    assert(replayed < w < wal_id + 1 && o == wal_object(root, w));
                }
            }
        }
        wal_id += 1;
    }
    proof {
        let root = resolver.root();
        assert forall|o: ObjectView| in_log(o, root, replayed as int, wal_id as int)
            == in_log(o, root, replayed as int, next as int) by {}
    }
}

/// The objects of the view that a manifest describes, in ascending order.
pub fn storage_view_objects(
    root: &ObjectPath,
    manifest_id: u64,
    manifest: &Manifest,
) -> (res: Result<Vec<StorageViewObject>, StorageViewInventoryError>)
    requires
        manifest.replay_after_wal_id < u64::MAX,
    ensures
        match res {
            Ok(objects) => {
                &&& unambiguous(manifest.external_dbs@)
                &&& crate::storage_view::ascending(crate::storage_view::object_views(objects@))
                &&& forall|o: ObjectView| #[trigger]
                    crate::storage_view::object_views(objects@).contains(o) <==> in_storage_view(
                        o,
                        root@,
                        manifest_id,
                        *manifest,
                    )
            },
            Err(error) => {
                &&& !unambiguous(manifest.external_dbs@)
                &&& error@ == ErrorView::InvalidGraph { reason: "duplicate external SST identity"@ }
            },
        },
{
    let mut objects: Vec<StorageViewObject> = Vec::new();
    insert_object(&mut objects, manifest_object(root, manifest_id));

    let local_resolver = PathResolver::new(root.clone());
    insert_log(
        &mut objects,
        &local_resolver,
        manifest.replay_after_wal_id,
        manifest.next_wal_sst_id,
    );

    let external_ssts = match external_sst_paths(manifest) {
        Ok(paths) => paths,
        Err(error) => return Err(error),
    };
    let resolver = PathResolver::new_with_external_ssts(root.clone(), external_ssts);
    let ghost externals = external_paths(manifest.external_dbs@);
    let ghost first = crate::storage_view::object_views(objects@);
    let mut t: usize = 0;
    while t < manifest.trees.len()
        invariant
            t <= manifest.trees@.len(),
            resolver.root() == root@,
            resolver.externals() == externals,
            crate::storage_view::ascending(crate::storage_view::object_views(objects@)),
            forall|o: ObjectView| #[trigger]
                crate::storage_view::object_views(objects@).contains(o) <==> first.contains(o)
                    || in_trees(o, root@, externals, manifest.trees@.take(t as int)),
        decreases manifest.trees@.len() - t,
    {
        let tree = &manifest.trees[t];
        let ghost before = crate::storage_view::object_views(objects@);
        insert_tables(&mut objects, StorageViewObjectKind::L0, &resolver, &tree.l0);
        let mut run: usize = 0;
        let ghost with_l0 = crate::storage_view::object_views(objects@);
        while run < tree.compacted.len()
            invariant
                run <= tree.compacted@.len(),
                resolver.root() == root@,
                resolver.externals() == externals,
                crate::storage_view::ascending(crate::storage_view::object_views(objects@)),
                forall|o: ObjectView| #[trigger]
                    crate::storage_view::object_views(objects@).contains(o) <==> with_l0.contains(o)
                        || exists|r: int|
                        0 <= r < run && among_tables(
                            o,
                            StorageViewObjectKind::SortedRun,
                            root@,
                            externals,
                            (#[trigger] tree.compacted@[r]).ssts@,
                        ),
            decreases tree.compacted@.len() - run,
        {
            insert_tables(
                &mut objects,
                StorageViewObjectKind::SortedRun,
                &resolver,
                &tree.compacted[run].ssts,
            );
            run += 1;
        }
        proof {
            let trees = manifest.trees@;
            let after = crate::storage_view::object_views(objects@);
            assert forall|o: ObjectView| #[trigger] after.contains(o) <==> first.contains(o)
                || in_trees(o, root@, externals, trees.take(t + 1)) by {
                assert(with_l0.contains(o) <==> before.contains(o) || among_tables(
                    o,
                    StorageViewObjectKind::L0,
                    root@,
                    externals,
                    tree.l0@,
                ));
                assert(after.contains(o) <==> before.contains(o) || in_tree(
                    o,
                    root@,
                    externals,
                    *tree,
                ));
                let more = trees.take(t + 1);
                let less = trees.take(t as int);
                assert(more[t as int] == *tree);
                if in_trees(o, root@, externals, less) {
                    let k = choose|k: int|
                        0 <= k < less.len() && in_tree(o, root@, externals, #[trigger] less[k]);
                    assert(more[k] == less[k]);
                }
                if in_trees(o, root@, externals, more) {
                    let k = choose|k: int|
                        0 <= k < more.len() && in_tree(o, root@, externals, #[trigger] more[k]);
                    if k < t {
                        assert(less[k] == more[k]);
                    }
                }
            }
        }
        t += 1;
    }
    assert(manifest.trees@.take(t as int) == manifest.trees@);
    Ok(objects)
}

// ---------------------------------------------------------------------------
// Revisions
// ---------------------------------------------------------------------------

/// The path of the database that the text `db_path` stands for; the text of the root path stands
/// for the root path itself.
pub open spec fn revision_path_view(root: Seq<char>, db_path: Seq<char>) -> Seq<char> {
    if db_path == root {
        root
    } else {
        crate::object_path::encoded_path(db_path)
    }
}

/// The path of the database that the text `db_path` stands for.
pub fn revision_path(root_path: &ObjectPath, db_path: &str) -> (path: ObjectPath)
    ensures
        path@ == revision_path_view(root_path@, db_path@),
{
    if same_text(db_path, root_path.as_str()) {
        root_path.clone()
    } else {
        ObjectPath::encode(db_path)
    }
}

/// What an expected revision comes to when the latest manifest of its database is read again.
pub open spec fn revision_outcome(
    expected: RevisionView,
    observed: Result<u64, SlateDbError>,
) -> Result<(), ErrorView> {
    match observed {
        Err(error) => Err(ErrorView::SlateDb { message: error.message@ }),
        Ok(id) => if id == expected.manifest_id {
            Ok(())
        } else {
            Err(
                ErrorView::RevisionChanged {
                    db_path: expected.db_path,
                    expected: expected.manifest_id,
                    observed: id,
                },
            )
        },
    }
}

/// A result with what its error stands for.
pub open spec fn viewed<T>(res: Result<T, StorageViewInventoryError>) -> Result<T, ErrorView> {
    match res {
        Ok(value) => Ok(value),
        Err(error) => Err(error@),
    }
}

/// A comparison, one database after the other in the order of their paths, of expected revisions
/// with those that are there.
#[derive(Debug)]
pub struct RevisionCheck {
    root_path: ObjectPath,
    expected: Vec<StorageViewRevision>,
    position: usize,
}

impl RevisionCheck {
    #[verifier::type_invariant]
    spec fn well_formed(self) -> bool {
        &&& self.position <= self.expected@.len()
        &&& crate::storage_view::ascending_revisions(
            crate::storage_view::revision_views(self.expected@),
        )
    }

    /// The path of the root database.
    pub closed spec fn root(&self) -> Seq<char> {
        self.root_path@
    }

    /// The expected revisions.
    pub closed spec fn expected(&self) -> Seq<StorageViewRevision> {
        self.expected@
    }

    /// How many of them were found unchanged.
    pub closed spec fn verified(&self) -> nat {
        self.position as nat
    }

    /// Starts to compare the expected revisions, of which there is one for each path, in the order
    /// of the paths.
    pub fn verify_revisions(root_path: ObjectPath, expected: Vec<StorageViewRevision>) -> (check:
        RevisionCheck)
        requires
            crate::storage_view::ascending_revisions(
                crate::storage_view::revision_views(expected@),
            ),
        ensures
            check.root() == root_path@,
            check.expected() == expected@,
            check.verified() == 0,
    {
        RevisionCheck { root_path, expected, position: 0 }
    }

    /// The database whose latest manifest is to be read next; none once all were found unchanged.
    pub fn next_read(&self) -> (path: Option<ObjectPath>)
        ensures
            match path {
                Some(path) => self.verified() < self.expected().len() && path@
                    == revision_path_view(
                    self.root(),
                    self.expected()[self.verified() as int].db_path@,
                ),
                None => self.verified() == self.expected().len(),
            },
            crate::storage_view::ascending_revisions(
                crate::storage_view::revision_views(self.expected()),
            ),
    {
        proof {
            use_type_invariant(self);
        }
        if self.position < self.expected.len() {
            Some(revision_path(&self.root_path, self.expected[self.position].db_path.as_str()))
        } else {
            None
        }
    }

    /// Takes what reading that manifest gave: its id, or how the read failed.
    pub fn observe(&mut self, observed: Result<u64, SlateDbError>) -> (res: Result<
        (),
        StorageViewInventoryError,
    >)
        requires
            old(self).verified() < old(self).expected().len(),
        ensures
            viewed(res) == revision_outcome(
                old(self).expected()[old(self).verified() as int]@,
                observed,
            ),
            final(self).root() == old(self).root(),
            final(self).expected() == old(self).expected(),
            final(self).verified() == old(self).verified() + if res is Ok {
                1nat
            } else {
                0nat
            },
    {
        proof {
            use_type_invariant(&*self);
        }
        let id = match observed {
            Ok(id) => id,
            Err(error) => return Err(StorageViewInventoryError::from(error)),
        };
        let expected = &self.expected[self.position];
        if id != expected.manifest_id {
            return Err(
                StorageViewInventoryError::RevisionChanged {
                    db_path: expected.db_path.clone(),
                    expected: expected.manifest_id,
                    observed: id,
                },
            );
        }
        assert(self.position < self.expected.len());
        self.position += 1;
        Ok(())
    }
}

} // verus!
