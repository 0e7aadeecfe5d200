//! What holds of every inventory.

use vstd::prelude::*;

use crate::capture::{
    CheckpointSearch, ManifestWait, ReadView, RevisionWait, StorageViewInventory,
};
use crate::inventory::{ErrorView, SlateDbError};
use crate::manifest::{Checkpoint, ExternalDb, LatestManifest, Manifest};
use crate::storage_view::{
    ObjectView, RevisionView, StorageViewObject, StorageViewObjectKind, StorageViewObjectStore,
    StorageViewRevision,
};
use crate::tables::{SsTableId, ID_WIDTH};

verus! {

/// Whether one of `objects` stands for `object`.
pub open spec fn listed(objects: Seq<StorageViewObject>, object: ObjectView) -> bool {
    exists|i: int| 0 <= i < objects.len() && (#[trigger] objects[i])@ == object
}

/// A list of objects stands for what each of them stands for, in the same order.
pub proof fn lists_stand_for_their_objects(objects: Seq<StorageViewObject>)
    ensures
        crate::storage_view::object_views(objects).len() == objects.len(),
        forall|i: int|
            0 <= i < objects.len() ==> #[trigger] crate::storage_view::object_views(objects)[i]
                == objects[i]@,
        forall|o: ObjectView|
            crate::storage_view::object_views(objects).contains(o) <==> #[trigger] listed(
                objects,
                o,
            ),
        crate::storage_view::ascending(crate::storage_view::object_views(objects)) <==> forall|
            i: int,
            j: int,
        |
            0 <= i < j < objects.len() ==> crate::storage_view::object_before(
                (#[trigger] objects[i])@,
                (#[trigger] objects[j])@,
            ),
{
    let views = crate::storage_view::object_views(objects);
    assert forall|o: ObjectView| views.contains(o) <==> #[trigger] listed(objects, o) by {
        if views.contains(o) {
            let k = views.index_of(o);
            assert(objects[k]@ == o);
        }
        if listed(objects, o) {
            let k = choose|k: int| 0 <= k < objects.len() && (#[trigger] objects[k])@ == o;
            assert(views[k] == o);
        }
    }
    if crate::storage_view::ascending(views) {
        assert forall|i: int, j: int|
            0 <= i < j < objects.len() implies crate::storage_view::object_before(
            (#[trigger] objects[i])@,
            (#[trigger] objects[j])@,
        ) by {
            assert(crate::storage_view::object_before(views[i], views[j]));
        }
    }
}

/// What a whole capture comes to, by what each of its three reads gave.
pub open spec fn capture_outcome(
    root: Seq<char>,
    checkpoint_id: u128,
    latest: Result<LatestManifest, SlateDbError>,
    manifest: Result<Manifest, SlateDbError>,
    observed: Result<u64, SlateDbError>,
    outcome: Result<StorageViewInventory, ErrorView>,
) -> bool {
    match latest {
        Err(error) => outcome == Err::<StorageViewInventory, ErrorView>(
            ErrorView::SlateDb { message: error.message@ },
        ),
        Ok(latest) => if !crate::inventory::has_checkpoint(latest.checkpoints@, checkpoint_id) {
            outcome == Err::<StorageViewInventory, ErrorView>(
                ErrorView::CheckpointMissing { db_path: root, checkpoint_id },
            )
        } else {
            match manifest {
                Err(error) => outcome == Err::<StorageViewInventory, ErrorView>(
                    ErrorView::SlateDb { message: error.message@ },
                ),
                Ok(manifest) => if !crate::inventory::unambiguous(manifest.external_dbs@) {
                    outcome == Err::<StorageViewInventory, ErrorView>(
                        ErrorView::InvalidGraph { reason: "duplicate external SST identity"@ },
                    )
                } else {
                    match observed {
                        Err(error) => outcome == Err::<StorageViewInventory, ErrorView>(
                            ErrorView::SlateDb { message: error.message@ },
                        ),
                        Ok(observed) => if observed != latest.id {
                            outcome == Err::<StorageViewInventory, ErrorView>(
                                ErrorView::RevisionChanged {
                                    db_path: root,
                                    expected: latest.id,
                                    observed,
                                },
                            )
                        } else {
                            &&& outcome matches Ok(inventory)
                            &&& inventory.checkpoint_id == checkpoint_id
                            &&& exists|at: int| #[trigger]
                                crate::inventory::first_checkpoint(
                                    latest.checkpoints@,
                                    checkpoint_id,
                                    at,
                                ) && inventory.checkpoint_manifest_id
                                    == latest.checkpoints@[at].manifest_id
                            &&& forall|i: int, j: int|
                                0 <= i < j < inventory.objects@.len()
                                    ==> crate::storage_view::object_before(
                                    (#[trigger] inventory.objects@[i])@,
                                    (#[trigger] inventory.objects@[j])@,
                                )
                            &&& forall|o: ObjectView| #[trigger]
                                listed(inventory.objects@, o)
                                    <==> crate::inventory::in_storage_view(
                                    o,
                                    root,
                                    inventory.checkpoint_manifest_id,
                                    manifest,
                                )
                            &&& inventory.observed_revisions@.len() == 1
                            &&& inventory.observed_revisions@[0]@ == (RevisionView {
                                db_path: root,
                                manifest_id: latest.id,
                            })
                        },
                    }
                },
            }
        },
    }
}

/// What the three stages of a capture come to, one after the other, up to the first that fails.
pub open spec fn stages_outcome(
    found: Result<ManifestWait, ErrorView>,
    resolved: Result<RevisionWait, ErrorView>,
    observed: Result<u64, SlateDbError>,
) -> Result<StorageViewInventory, ErrorView> {
    match found {
        Err(error) => Err(error),
        Ok(_) => match resolved {
            Err(error) => Err(error),
            Ok(wait) => crate::capture::recheck_outcome(wait, observed),
        },
    }
}

/// A capture, carried from stage to stage, comes to exactly what its three reads determine: an
/// inventory of the view of its checkpoint where the latest manifest did not change, and the
/// error that belongs to the first thing that went wrong otherwise.
pub proof fn capture_comes_to_its_outcome(
    search: CheckpointSearch,
    latest: Result<LatestManifest, SlateDbError>,
    found: Result<ManifestWait, ErrorView>,
    manifest: Result<Manifest, SlateDbError>,
    resolved: Result<RevisionWait, ErrorView>,
    observed: Result<u64, SlateDbError>,
)
    requires
        crate::capture::search_outcome(search, latest, found),
        found matches Ok(wait) ==> crate::capture::manifest_outcome(wait, manifest, resolved),
    ensures
        capture_outcome(
            search.root(),
            search.checkpoint(),
            latest,
            manifest,
            observed,
            stages_outcome(found, resolved, observed),
        ),
{
    if let Ok(wait) = resolved {
        lists_stand_for_their_objects(wait.captured().objects@);
    }
}

/// What a capture asks of the object stores, stage by stage, up to the first that fails.
pub open spec fn reads_asked_for(
    search: CheckpointSearch,
    found: Result<ManifestWait, ErrorView>,
    resolved: Result<RevisionWait, ErrorView>,
) -> Seq<ReadView> {
    match found {
        Err(_) => seq![search.read()],
        Ok(wait) => match resolved {
            Err(_) => seq![search.read(), wait.read()],
            Ok(next) => seq![search.read(), wait.read(), next.read()],
        },
    }
}

/// All that a capture asks of the object stores are reads of manifests of the database itself: the
/// latest; if that holds the checkpoint, the one that the checkpoint pins; and if that describes one
/// view, the latest again. It asks for no write, and for nothing of the databases that own external
/// tables.
pub proof fn capture_reads_manifests_of_its_database_alone(
    search: CheckpointSearch,
    latest: Result<LatestManifest, SlateDbError>,
    found: Result<ManifestWait, ErrorView>,
    manifest: Result<Manifest, SlateDbError>,
    resolved: Result<RevisionWait, ErrorView>,
)
    requires
        crate::capture::search_outcome(search, latest, found),
        found matches Ok(wait) ==> crate::capture::manifest_outcome(wait, manifest, resolved),
    ensures
        ({
            let reads = reads_asked_for(search, found, resolved);
            let root = search.root();
            &&& 1 <= reads.len() <= 3
            &&& reads[0] == (ReadView::Latest { path: root })
            &&& reads.len() >= 2 <==> {
                &&& latest matches Ok(latest)
                &&& crate::inventory::has_checkpoint(latest.checkpoints@, search.checkpoint())
            }
            &&& reads.len() >= 2 ==> exists|at: int| #[trigger]
                crate::inventory::first_checkpoint(
                    latest->Ok_0.checkpoints@,
                    search.checkpoint(),
                    at,
                ) && reads[1] == (ReadView::Pinned {
                    path: root,
                    manifest_id: latest->Ok_0.checkpoints@[at].manifest_id,
                })
            &&& reads.len() == 3 <==> {
                &&& reads.len() >= 2
                &&& manifest matches Ok(manifest)
                &&& crate::inventory::unambiguous(manifest.external_dbs@)
            }
            &&& reads.len() == 3 ==> reads[2] == (ReadView::Latest { path: root })
        }),
{
}

/// A changed revision is reported exactly when everything was read and resolved and the latest
/// manifest is no longer the one that the checkpoint was found in; nothing else is reported so.
pub proof fn revision_change_is_the_only_retry_signal(
    root: Seq<char>,
    checkpoint_id: u128,
    latest: Result<LatestManifest, SlateDbError>,
    manifest: Result<Manifest, SlateDbError>,
    observed: Result<u64, SlateDbError>,
    outcome: Result<StorageViewInventory, ErrorView>,
)
    requires
        capture_outcome(root, checkpoint_id, latest, manifest, observed, outcome),
    ensures
        (outcome matches Err(error) && error is RevisionChanged) <==> {
            &&& latest matches Ok(latest)
            &&& crate::inventory::has_checkpoint(latest.checkpoints@, checkpoint_id)
            &&& manifest matches Ok(manifest)
            &&& crate::inventory::unambiguous(manifest.external_dbs@)
            &&& observed matches Ok(observed)
            &&& observed != latest.id
        },
{
}

/// The manifest of the checkpoint is the only manifest in a view: the manifests of the databases
/// that own external tables are not part of it.
pub proof fn view_holds_one_manifest(
    object: ObjectView,
    root: Seq<char>,
    manifest_id: u64,
    manifest: Manifest,
)
    requires
        crate::inventory::in_storage_view(object, root, manifest_id, manifest),
        object.kind == StorageViewObjectKind::Manifest,
    ensures
        object == crate::inventory::manifest_object_view(root, manifest_id),
{
}

/// Log tables, and nothing else, are in the store of the log.
pub proof fn log_store_holds_the_log(
    object: ObjectView,
    root: Seq<char>,
    manifest_id: u64,
    manifest: Manifest,
)
    requires
        crate::inventory::in_storage_view(object, root, manifest_id, manifest),
    ensures
        object.store == StorageViewObjectStore::Wal <==> object.kind == StorageViewObjectKind::Wal,
{
}

/// An external table at the top level of a tree of the manifest is listed under the database that
/// owns it, whatever has become of the manifests and checkpoints of that database.
pub proof fn external_l0_table_is_listed_under_its_owner(
    root: Seq<char>,
    manifest_id: u64,
    manifest: Manifest,
    db: int,
    at: int,
    tree: int,
    i: int,
)
    requires
        crate::inventory::unambiguous(manifest.external_dbs@),
        0 <= tree < manifest.trees@.len(),
        0 <= i < manifest.trees@[tree].l0@.len(),
        crate::inventory::claims(manifest.external_dbs@, db, at, manifest.trees@[tree].l0@[i]),
    ensures
        crate::inventory::in_storage_view(
            ObjectView {
                store: StorageViewObjectStore::Main,
                kind: StorageViewObjectKind::L0,
                path: crate::tables::table_path(
                    crate::object_path::encoded_path(manifest.external_dbs@[db].path@),
                    manifest.trees@[tree].l0@[i],
                ),
            },
            root,
            manifest_id,
            manifest,
        ),
{
    let dbs = manifest.external_dbs@;
    let externals = crate::inventory::external_paths(dbs);
    let id = manifest.trees@[tree].l0@[i];
    lemma_owner(dbs, db, at, id);
    let object = crate::inventory::tree_object(StorageViewObjectKind::L0, root, externals, id);
    assert(crate::inventory::among_tables(
        object,
        StorageViewObjectKind::L0,
        root,
        externals,
        manifest.trees@[tree].l0@,
    ));
    assert(crate::inventory::in_tree(object, root, externals, manifest.trees@[tree]));
}

/// An external table of a sorted run of the manifest is listed under the database that owns
/// it, whatever has become of the manifests and checkpoints of that database.
pub proof fn external_run_table_is_listed_under_its_owner(
    root: Seq<char>,
    manifest_id: u64,
    manifest: Manifest,
    db: int,
    at: int,
    tree: int,
    run: int,
    i: int,
)
    requires
        crate::inventory::unambiguous(manifest.external_dbs@),
        0 <= tree < manifest.trees@.len(),
        0 <= run < manifest.trees@[tree].compacted@.len(),
        0 <= i < manifest.trees@[tree].compacted@[run].ssts@.len(),
        crate::inventory::claims(
            manifest.external_dbs@,
            db,
            at,
            manifest.trees@[tree].compacted@[run].ssts@[i],
        ),
    ensures
        crate::inventory::in_storage_view(
            ObjectView {
                store: StorageViewObjectStore::Main,
                kind: StorageViewObjectKind::SortedRun,
                path: crate::tables::table_path(
                    crate::object_path::encoded_path(manifest.external_dbs@[db].path@),
                    manifest.trees@[tree].compacted@[run].ssts@[i],
                ),
            },
            root,
            manifest_id,
            manifest,
        ),
{
    let dbs = manifest.external_dbs@;
    let externals = crate::inventory::external_paths(dbs);
    let id = manifest.trees@[tree].compacted@[run].ssts@[i];
    lemma_owner(dbs, db, at, id);
    let object = crate::inventory::tree_object(
        StorageViewObjectKind::SortedRun,
        root,
        externals,
        id,
    );
    assert(crate::inventory::among_tables(
        object,
        StorageViewObjectKind::SortedRun,
        root,
        externals,
        manifest.trees@[tree].compacted@[run].ssts@,
    ));
    assert(crate::inventory::in_sorted_runs(object, root, externals, manifest.trees@[tree]));
    assert(crate::inventory::in_tree(object, root, externals, manifest.trees@[tree]));
}

proof fn lemma_owner(dbs: Seq<ExternalDb>, db: int, at: int, id: SsTableId)
    requires
        crate::inventory::unambiguous(dbs),
        crate::inventory::claims(dbs, db, at, id),
    ensures
        crate::inventory::external_paths(dbs).contains_key(id),
        crate::inventory::external_paths(dbs)[id] == crate::object_path::encoded_path(
            dbs[db].path@,
        ),
{
    assert(crate::inventory::claimed_by(dbs, db, id));
    let owner = crate::inventory::claimant(dbs, id);
    let k = choose|k: int| crate::inventory::claims(dbs, owner, k, id);
    assert(crate::inventory::claims(dbs, owner, k, id));
}

proof fn lemma_pow10_20()
    ensures
        crate::text::pow10(ID_WIDTH as nat) > u64::MAX,
{
    reveal_with_fuel(crate::text::pow10, 21);
}

/// Different log tables of a database are held by different objects.
pub proof fn log_objects_are_distinct(root: Seq<char>, a: u64, b: u64)
    requires
        crate::inventory::wal_object(root, a) == crate::inventory::wal_object(root, b),
    ensures
        a == b,
{
    let directory = crate::object_path::joined(root, "wal"@);
    let x = crate::text::padded(a as nat, ID_WIDTH as nat);
    let y = crate::text::padded(b as nat, ID_WIDTH as nat);
    crate::object_path::joined_is_injective(directory, x + ".sst"@, y + ".sst"@);
    crate::text::lemma_padded(a as nat, ID_WIDTH as nat);
    crate::text::lemma_padded(b as nat, ID_WIDTH as nat);
    assert((x + ".sst"@).take(ID_WIDTH as int) == x);
    assert((y + ".sst"@).take(ID_WIDTH as int) == y);
    lemma_pow10_20();
    crate::text::padded_is_injective(a as nat, b as nat, ID_WIDTH as nat);
}

/// A log table is in a view exactly when it was written and its contents are not in the trees
/// yet.
pub proof fn view_holds_the_unreplayed_log(
    root: Seq<char>,
    manifest_id: u64,
    manifest: Manifest,
    wal_id: u64,
)
    ensures
        crate::inventory::in_storage_view(
            crate::inventory::wal_object(root, wal_id),
            root,
            manifest_id,
            manifest,
        ) <==> manifest.replay_after_wal_id < wal_id < manifest.next_wal_sst_id,
{
    let object = crate::inventory::wal_object(root, wal_id);
    if crate::inventory::in_storage_view(object, root, manifest_id, manifest) {
        let w = choose|w: u64|
            manifest.replay_after_wal_id < w < manifest.next_wal_sst_id && object
                == #[trigger] crate::inventory::wal_object(root, w);
        log_objects_are_distinct(root, wal_id, w);
    }
}

/// What a comparison of revisions comes to, by what reading each latest manifest again gave, up to
/// the first that does not match.
pub open spec fn comparison_outcome(
    expected: Seq<RevisionView>,
    observed: Seq<Result<u64, SlateDbError>>,
) -> Result<(), ErrorView>
    decreases observed.len(),
{
    if observed.len() == 0 {
        Ok(())
    } else {
        match comparison_outcome(expected, observed.drop_last()) {
            Err(error) => Err(error),
            Ok(_) => crate::inventory::revision_outcome(
                expected[observed.len() - 1],
                observed.last(),
            ),
        }
    }
}

/// A comparison of revisions succeeds exactly when every latest manifest is the expected one.
pub proof fn comparison_succeeds_if_nothing_changed(
    expected: Seq<RevisionView>,
    observed: Seq<Result<u64, SlateDbError>>,
)
    requires
        observed.len() == expected.len(),
    ensures
        comparison_outcome(expected, observed) is Ok <==> forall|i: int|
            0 <= i < expected.len() ==> #[trigger] observed[i] == Ok::<u64, SlateDbError>(
                expected[i].manifest_id,
            ),
{
    lemma_comparison(expected, observed);
}

proof fn lemma_comparison(expected: Seq<RevisionView>, observed: Seq<Result<u64, SlateDbError>>)
    requires
        observed.len() <= expected.len(),
    ensures
        comparison_outcome(expected, observed) is Ok <==> forall|i: int|
            0 <= i < observed.len() ==> #[trigger] observed[i] == Ok::<u64, SlateDbError>(
                expected[i].manifest_id,
            ),
    decreases observed.len(),
{
    if observed.len() > 0 {
        let before = observed.drop_last();
        lemma_comparison(expected, before);
        assert forall|i: int| 0 <= i < before.len() implies before[i] == observed[i] by {}
        if comparison_outcome(expected, before) is Ok {
            assert forall|i: int| 0 <= i < before.len() implies #[trigger] observed[i] == Ok::<
                u64,
                SlateDbError,
            >(expected[i].manifest_id) by {
                assert(before[i] == Ok::<u64, SlateDbError>(expected[i].manifest_id));
            }
            assert(observed[observed.len() - 1] == observed.last());
        } else {
            let k = choose|k: int|
                0 <= k < before.len() && #[trigger] before[k] != Ok::<u64, SlateDbError>(
                    expected[k].manifest_id,
                );
            assert(observed[k] == before[k]);
        }
    }
}

/// Whether the revision at `at` is not the expected one, or could not be read.
pub open spec fn differs(
    expected: Seq<RevisionView>,
    observed: Seq<Result<u64, SlateDbError>>,
    at: int,
) -> bool {
    0 <= at < observed.len() && crate::inventory::revision_outcome(expected[at], observed[at])
        is Err
}

/// Of the databases whose revision changed or could not be read, the one with the least path
/// decides what is reported.
pub proof fn least_path_that_differs_decides(
    expected: Seq<RevisionView>,
    observed: Seq<Result<u64, SlateDbError>>,
)
    requires
        crate::storage_view::ascending_revisions(expected),
        observed.len() == expected.len(),
    ensures
        comparison_outcome(expected, observed) is Err ==> exists|at: int| #[trigger]
            differs(expected, observed, at) && comparison_outcome(expected, observed)
                == crate::inventory::revision_outcome(expected[at], observed[at]) && forall|j: int|
             #[trigger]
                differs(expected, observed, j) && j != at ==> crate::storage_view::text_before(
                    expected[at].db_path,
                    expected[j].db_path,
                ),
{
    if comparison_outcome(expected, observed) is Err {
        let at = lemma_first_difference(expected, observed);
        assert(differs(expected, observed, at));
        assert forall|j: int| #[trigger]
            differs(expected, observed, j) && j != at implies crate::storage_view::text_before(
            expected[at].db_path,
            expected[j].db_path,
        ) by {
            assert(at < j);
        }
    }
}

proof fn lemma_first_difference(
    expected: Seq<RevisionView>,
    observed: Seq<Result<u64, SlateDbError>>,
) -> (at: int)
    requires
        comparison_outcome(expected, observed) is Err,
    ensures
        differs(expected, observed, at),
        comparison_outcome(expected, observed) == crate::inventory::revision_outcome(
            expected[at],
            observed[at],
        ),
        forall|j: int| 0 <= j < at ==> !#[trigger] differs(expected, observed, j),
    decreases observed.len(),
{
    let before = observed.drop_last();
    if comparison_outcome(expected, before) is Err {
        let at = lemma_first_difference(expected, before);
        assert(observed[at] == before[at]);
        assert forall|j: int| 0 <= j < at implies !#[trigger] differs(expected, observed, j) by {
            assert(!differs(expected, before, j));
            assert(observed[j] == before[j]);
        }
        at
    } else {
        let at = observed.len() - 1;
        assert forall|j: int| 0 <= j < at implies !#[trigger] differs(expected, observed, j) by {
            lemma_no_difference(expected, before, j);
            assert(observed[j] == before[j]);
        }
        at
    }
}

proof fn lemma_no_difference(
    expected: Seq<RevisionView>,
    observed: Seq<Result<u64, SlateDbError>>,
    j: int,
)
    requires
        comparison_outcome(expected, observed) is Ok,
        0 <= j < observed.len(),
    ensures
        !differs(expected, observed, j),
    decreases observed.len(),
{
    if j < observed.len() - 1 {
        lemma_no_difference(expected, observed.drop_last(), j);
        assert(observed.drop_last()[j] == observed[j]);
    }
}

proof fn lemma_numbered_paths(directory: Seq<char>, a: u64, b: u64, suffix: Seq<char>)
    requires
        a < b,
    ensures
        crate::storage_view::text_before(
            crate::object_path::joined(
                directory,
                crate::text::padded(a as nat, ID_WIDTH as nat) + suffix,
            ),
            crate::object_path::joined(
                directory,
                crate::text::padded(b as nat, ID_WIDTH as nat) + suffix,
            ),
        ),
{
    let prefix = if directory.len() == 0 {
        directory
    } else {
        directory.push('/')
    };
    let x = crate::text::padded(a as nat, ID_WIDTH as nat) + suffix;
    let y = crate::text::padded(b as nat, ID_WIDTH as nat) + suffix;
    lemma_pow10_20();
    crate::storage_view::numbered_texts_sort_by_number(
        prefix,
        a as nat,
        b as nat,
        ID_WIDTH as nat,
        suffix,
    );
    assert(crate::object_path::joined(directory, x) == prefix + x);
    assert(crate::object_path::joined(directory, y) == prefix + y);
}

/// The manifests of a database are listed in the order of their ids.
pub proof fn manifests_sort_by_id(root: Seq<char>, a: u64, b: u64)
    ensures
        crate::storage_view::object_before(
            crate::inventory::manifest_object_view(root, a),
            crate::inventory::manifest_object_view(root, b),
        ) <==> a < b,
{
    let directory = crate::object_path::joined(root, "manifest"@);
    let x = crate::inventory::manifest_object_view(root, a);
    let y = crate::inventory::manifest_object_view(root, b);
    if a < b {
        lemma_numbered_paths(directory, a, b, ".manifest"@);
    } else {
        crate::storage_view::object_order_is_irreflexive(x);
        if b < a {
            lemma_numbered_paths(directory, b, a, ".manifest"@);
            if crate::storage_view::object_before(x, y) {
                crate::storage_view::object_order_is_transitive(x, y, x);
            }
        }
    }
}

/// The log tables of a database are listed in the order of their ids.
pub proof fn log_tables_sort_by_id(root: Seq<char>, a: u64, b: u64)
    ensures
        crate::storage_view::object_before(
            crate::inventory::wal_object(root, a),
            crate::inventory::wal_object(root, b),
        ) <==> a < b,
{
    let directory = crate::object_path::joined(root, "wal"@);
    let x = crate::inventory::wal_object(root, a);
    let y = crate::inventory::wal_object(root, b);
    if a < b {
        lemma_numbered_paths(directory, a, b, ".sst"@);
    } else {
        crate::storage_view::object_order_is_irreflexive(x);
        if b < a {
            lemma_numbered_paths(directory, b, a, ".sst"@);
            if crate::storage_view::object_before(x, y) {
                crate::storage_view::object_order_is_transitive(x, y, x);
            }
        }
    }
}

/// Whether no two external databases have the same path.
pub open spec fn distinct_paths(dbs: Seq<ExternalDb>) -> bool {
    forall|i: int, j: int|
        0 <= i < j < dbs.len() ==> crate::object_path::encoded_path((#[trigger] dbs[i]).path@)
            != crate::object_path::encoded_path((#[trigger] dbs[j]).path@)
}

/// A table has an owner exactly when an external database names it, and a database that names it is
/// that owner. Where no two databases have the same path, a path is that of the owner only if its
/// database names the table.
pub proof fn owners_are_the_databases_that_name_a_table(
    dbs: Seq<ExternalDb>,
    db: int,
    id: SsTableId,
)
    requires
        crate::inventory::unambiguous(dbs),
        0 <= db < dbs.len(),
    ensures
        crate::inventory::external_paths(dbs).contains_key(id) <==> crate::inventory::claimed(
            dbs,
            id,
        ),
        crate::inventory::claimed_by(dbs, db, id) ==> crate::inventory::external_paths(
            dbs,
        ).contains_key(id) && crate::inventory::external_paths(dbs)[id]
            == crate::object_path::encoded_path(dbs[db].path@),
        distinct_paths(dbs) && crate::inventory::external_paths(dbs).contains_key(id)
            && crate::inventory::external_paths(dbs)[id] == crate::object_path::encoded_path(
            dbs[db].path@,
        ) ==> crate::inventory::claimed_by(dbs, db, id),
{
    if crate::inventory::claimed_by(dbs, db, id) {
        let at = choose|at: int| crate::inventory::claims(dbs, db, at, id);
        lemma_owner(dbs, db, at, id);
    }
    if crate::inventory::claimed(dbs, id) {
        let owner = crate::inventory::claimant(dbs, id);
        assert(crate::inventory::claimed_by(dbs, owner, id));
        let at = choose|at: int| crate::inventory::claims(dbs, owner, at, id);
        assert(0 <= owner < dbs.len());
        if distinct_paths(dbs) && owner != db {
            if owner < db {
                assert(crate::object_path::encoded_path(dbs[owner].path@)
                    != crate::object_path::encoded_path(dbs[db].path@));
            } else {
                assert(crate::object_path::encoded_path(dbs[db].path@)
                    != crate::object_path::encoded_path(dbs[owner].path@));
            }
        }
    }
}

// ---------------------------------------------------------------------------
// The objects of a view, by what the manifest names
// ---------------------------------------------------------------------------

/// Whether the external database `db` names the table `id`, at place `at` of its list.
pub open spec fn names_table(dbs: Seq<ExternalDb>, db: int, at: int, id: SsTableId) -> bool {
    0 <= db < dbs.len() && 0 <= at < dbs[db].sst_ids@.len() && dbs[db].sst_ids@[at] == id
}

/// Whether `owner` is the path of the database that owns a table: that of an external database that
/// names it, or the root where none does.
pub open spec fn owner_of(
    dbs: Seq<ExternalDb>,
    root: Seq<char>,
    id: SsTableId,
    owner: Seq<char>,
) -> bool {
    ||| exists|db: int, at: int| #[trigger]
        names_table(dbs, db, at, id) && owner == crate::object_path::encoded_path(dbs[db].path@)
    ||| owner == root && forall|db: int, at: int| !#[trigger] names_table(dbs, db, at, id)
}

/// Where a database keeps a table.
pub open spec fn kept_at(owner: Seq<char>, id: SsTableId) -> Seq<char> {
    let top = if owner.len() == 0 {
        owner
    } else {
        owner + "/"@
    };
    match id {
        SsTableId::Wal(number) => top + "wal/"@ + crate::text::padded(number as nat, 20) + ".sst"@,
        SsTableId::Compacted(ulid) => top + "compacted/"@ + crate::ids::ulid_text(ulid) + ".sst"@,
    }
}

/// A table of the log is kept under `wal/`, by its number in twenty digits; a table of a tree under
/// `compacted/`, by its ULID.
pub proof fn tables_are_kept_under_their_database(owner: Seq<char>, id: SsTableId)
    ensures
        crate::tables::table_path(owner, id) == kept_at(owner, id),
{
    reveal_strlit("wal");
    reveal_strlit("wal/");
    reveal_strlit("compacted");
    reveal_strlit("compacted/");
    reveal_strlit("/");
    assert(crate::tables::table_path(owner, id) =~= kept_at(owner, id));
}

/// A table that is recorded for another database is looked for there, and any other under the root.
pub proof fn recorded_tables_are_looked_for_at_their_owner(
    root: Seq<char>,
    owners: Map<SsTableId, Seq<char>>,
    id: SsTableId,
)
    ensures
        owners.contains_key(id) ==> crate::tables::resolved_path(root, owners, id) == kept_at(
            owners[id],
            id,
        ),
        !owners.contains_key(id) ==> crate::tables::resolved_path(root, owners, id) == kept_at(
            root,
            id,
        ),
{
    tables_are_kept_under_their_database(root, id);
    if owners.contains_key(id) {
        tables_are_kept_under_their_database(owners[id], id);
    }
}

/// The view of a checkpoint holds the manifest of the checkpoint, by its number in twenty digits.
pub proof fn view_holds_its_manifest(root: Seq<char>, manifest_id: u64, manifest: Manifest)
    ensures
        crate::inventory::in_storage_view(
            ObjectView {
                store: StorageViewObjectStore::Main,
                kind: StorageViewObjectKind::Manifest,
                path: (if root.len() == 0 {
                    root
                } else {
                    root + "/"@
                }) + "manifest/"@ + crate::text::padded(manifest_id as nat, 20) + ".manifest"@,
            },
            root,
            manifest_id,
            manifest,
        ),
{
    reveal_strlit("manifest");
    reveal_strlit("manifest/");
    reveal_strlit("/");
    let path = (if root.len() == 0 {
        root
    } else {
        root + "/"@
    }) + "manifest/"@ + crate::text::padded(manifest_id as nat, 20) + ".manifest"@;
    assert(crate::inventory::manifest_object_view(root, manifest_id).path =~= path);
}

/// Two places of the external databases name one table exactly when the view cannot be described.
pub proof fn tables_named_twice_are_ambiguous(dbs: Seq<ExternalDb>)
    ensures
        crate::inventory::unambiguous(dbs) <==> forall|
            db: int,
            at: int,
            other_db: int,
            other_at: int,
            id: SsTableId,
        | #[trigger]
            names_table(dbs, db, at, id) && #[trigger] names_table(dbs, other_db, other_at, id)
                ==> db == other_db && at == other_at,
{
    if crate::inventory::unambiguous(dbs) {
        assert forall|db: int, at: int, other_db: int, other_at: int, id: SsTableId| #[trigger]
            names_table(dbs, db, at, id) && #[trigger] names_table(
                dbs,
                other_db,
                other_at,
                id,
            ) implies db == other_db && at == other_at by {
            assert(crate::inventory::claims(dbs, db, at, id));
            assert(crate::inventory::claims(dbs, other_db, other_at, id));
        }
    } else {
        let (db, at, other_db, other_at, id) = choose|
            db: int,
            at: int,
            other_db: int,
            other_at: int,
            id: SsTableId,
        |
            #![trigger crate::inventory::claims(dbs, db, at, id), crate::inventory::claims(dbs, other_db, other_at, id)]
            crate::inventory::claims(dbs, db, at, id) && crate::inventory::claims(
                dbs,
                other_db,
                other_at,
                id,
            ) && !(db == other_db && at == other_at);
        assert(names_table(dbs, db, at, id));
        assert(names_table(dbs, other_db, other_at, id));
    }
}

/// A table is looked for under the database that owns it.
pub proof fn tables_are_resolved_under_their_owner(
    dbs: Seq<ExternalDb>,
    root: Seq<char>,
    id: SsTableId,
    owner: Seq<char>,
)
    requires
        crate::inventory::unambiguous(dbs),
        owner_of(dbs, root, id, owner),
    ensures
        crate::tables::resolved_path(root, crate::inventory::external_paths(dbs), id) == kept_at(
            owner,
            id,
        ),
{
    tables_are_kept_under_their_database(owner, id);
    if exists|db: int, at: int| #[trigger]
        names_table(dbs, db, at, id) && owner == crate::object_path::encoded_path(dbs[db].path@) {
        let (db, at) = choose|db: int, at: int| #[trigger]
            names_table(dbs, db, at, id) && owner == crate::object_path::encoded_path(dbs[db].path@);
        assert(crate::inventory::claims(dbs, db, at, id));
        lemma_owner(dbs, db, at, id);
    } else {
        if crate::inventory::claimed(dbs, id) {
            let db = crate::inventory::claimant(dbs, id);
            let at = choose|at: int| crate::inventory::claims(dbs, db, at, id);
            assert(names_table(dbs, db, at, id));
        }
    }
}

/// Every table at the top level of every tree, whoever owns it, is in the view, under its owner.
pub proof fn every_l0_table_is_in_the_view(
    root: Seq<char>,
    manifest_id: u64,
    manifest: Manifest,
    tree: int,
    i: int,
    owner: Seq<char>,
)
    requires
        crate::inventory::unambiguous(manifest.external_dbs@),
        0 <= tree < manifest.trees@.len(),
        0 <= i < manifest.trees@[tree].l0@.len(),
        owner_of(manifest.external_dbs@, root, manifest.trees@[tree].l0@[i], owner),
    ensures
        crate::inventory::in_storage_view(
            ObjectView {
                store: StorageViewObjectStore::Main,
                kind: StorageViewObjectKind::L0,
                path: kept_at(owner, manifest.trees@[tree].l0@[i]),
            },
            root,
            manifest_id,
            manifest,
        ),
{
    let dbs = manifest.external_dbs@;
    let externals = crate::inventory::external_paths(dbs);
    let id = manifest.trees@[tree].l0@[i];
    tables_are_resolved_under_their_owner(dbs, root, id, owner);
    let object = crate::inventory::tree_object(StorageViewObjectKind::L0, root, externals, id);
    assert(crate::inventory::among_tables(
        object,
        StorageViewObjectKind::L0,
        root,
        externals,
        manifest.trees@[tree].l0@,
    ));
    assert(crate::inventory::in_tree(object, root, externals, manifest.trees@[tree]));
}

/// Every table of every sorted run of every tree, whoever owns it, is in the view, under its owner.
pub proof fn every_run_table_is_in_the_view(
    root: Seq<char>,
    manifest_id: u64,
    manifest: Manifest,
    tree: int,
    run: int,
    i: int,
    owner: Seq<char>,
)
    requires
        crate::inventory::unambiguous(manifest.external_dbs@),
        0 <= tree < manifest.trees@.len(),
        0 <= run < manifest.trees@[tree].compacted@.len(),
        0 <= i < manifest.trees@[tree].compacted@[run].ssts@.len(),
        owner_of(
            manifest.external_dbs@,
            root,
            manifest.trees@[tree].compacted@[run].ssts@[i],
            owner,
        ),
    ensures
        crate::inventory::in_storage_view(
            ObjectView {
                store: StorageViewObjectStore::Main,
                kind: StorageViewObjectKind::SortedRun,
                path: kept_at(owner, manifest.trees@[tree].compacted@[run].ssts@[i]),
            },
            root,
            manifest_id,
            manifest,
        ),
{
    let dbs = manifest.external_dbs@;
    let externals = crate::inventory::external_paths(dbs);
    let id = manifest.trees@[tree].compacted@[run].ssts@[i];
    tables_are_resolved_under_their_owner(dbs, root, id, owner);
    let object = crate::inventory::tree_object(
        StorageViewObjectKind::SortedRun,
        root,
        externals,
        id,
    );
    assert(crate::inventory::among_tables(
        object,
        StorageViewObjectKind::SortedRun,
        root,
        externals,
        manifest.trees@[tree].compacted@[run].ssts@,
    ));
    assert(crate::inventory::in_sorted_runs(object, root, externals, manifest.trees@[tree]));
    assert(crate::inventory::in_tree(object, root, externals, manifest.trees@[tree]));
}

/// Every table of the log after the last one that was replayed and before the next one to be written
/// is in the view, under the root, in the store of the log.
pub proof fn every_unreplayed_log_table_is_in_the_view(
    root: Seq<char>,
    manifest_id: u64,
    manifest: Manifest,
    wal_id: u64,
)
    requires
        manifest.replay_after_wal_id < wal_id < manifest.next_wal_sst_id,
    ensures
        crate::inventory::in_storage_view(
            ObjectView {
                store: StorageViewObjectStore::Wal,
                kind: StorageViewObjectKind::Wal,
                path: kept_at(root, SsTableId::Wal(wal_id)),
            },
            root,
            manifest_id,
            manifest,
        ),
{
    tables_are_kept_under_their_database(root, SsTableId::Wal(wal_id));
    view_holds_the_unreplayed_log(root, manifest_id, manifest, wal_id);
}

/// Whether an object holds the table at the top level of a tree that `tree` and `i` point at.
pub open spec fn holds_l0_table(
    object: ObjectView,
    root: Seq<char>,
    manifest: Manifest,
    tree: int,
    i: int,
    owner: Seq<char>,
) -> bool {
    &&& 0 <= tree < manifest.trees@.len()
    &&& 0 <= i < manifest.trees@[tree].l0@.len()
    &&& owner_of(manifest.external_dbs@, root, manifest.trees@[tree].l0@[i], owner)
    &&& object == (ObjectView {
        store: StorageViewObjectStore::Main,
        kind: StorageViewObjectKind::L0,
        path: kept_at(owner, manifest.trees@[tree].l0@[i]),
    })
}

/// Whether an object holds the table of a sorted run that `tree`, `run` and `i` point at.
pub open spec fn holds_run_table(
    object: ObjectView,
    root: Seq<char>,
    manifest: Manifest,
    tree: int,
    run: int,
    i: int,
    owner: Seq<char>,
) -> bool {
    &&& 0 <= tree < manifest.trees@.len()
    &&& 0 <= run < manifest.trees@[tree].compacted@.len()
    &&& 0 <= i < manifest.trees@[tree].compacted@[run].ssts@.len()
    &&& owner_of(
        manifest.external_dbs@,
        root,
        manifest.trees@[tree].compacted@[run].ssts@[i],
        owner,
    )
    &&& object == (ObjectView {
        store: StorageViewObjectStore::Main,
        kind: StorageViewObjectKind::SortedRun,
        path: kept_at(owner, manifest.trees@[tree].compacted@[run].ssts@[i]),
    })
}

proof fn lemma_some_owner(dbs: Seq<ExternalDb>, root: Seq<char>, id: SsTableId) -> (owner: Seq<
    char,
>)
    ensures
        owner_of(dbs, root, id, owner),
{
    if exists|db: int, at: int| names_table(dbs, db, at, id) {
        let (db, at) = choose|db: int, at: int| names_table(dbs, db, at, id);
        let owner = crate::object_path::encoded_path(dbs[db].path@);
        assert(names_table(dbs, db, at, id) && owner == crate::object_path::encoded_path(
            dbs[db].path@,
        ));
        owner
    } else {
        root
    }
}

/// Nothing but what the manifest names is in a view: its objects are the manifest, tables of the log
/// that are not replayed, and tables of the trees, of the kind that their place in the trees says.
pub proof fn view_holds_what_the_manifest_names_alone(
    object: ObjectView,
    root: Seq<char>,
    manifest_id: u64,
    manifest: Manifest,
)
    requires
        crate::inventory::unambiguous(manifest.external_dbs@),
        crate::inventory::in_storage_view(object, root, manifest_id, manifest),
    ensures
        match object.kind {
            StorageViewObjectKind::Manifest => object.store == StorageViewObjectStore::Main
                && object.path == (if root.len() == 0 {
                root
            } else {
                root + "/"@
            }) + "manifest/"@ + crate::text::padded(manifest_id as nat, 20) + ".manifest"@,
            StorageViewObjectKind::Wal => object.store == StorageViewObjectStore::Wal && exists|
                wal_id: u64,
            |
                manifest.replay_after_wal_id < wal_id < manifest.next_wal_sst_id && object.path
                    == #[trigger] kept_at(root, SsTableId::Wal(wal_id)),
            StorageViewObjectKind::L0 => exists|tree: int, i: int, owner: Seq<char>| #[trigger]
                holds_l0_table(object, root, manifest, tree, i, owner),
            StorageViewObjectKind::SortedRun => exists|
                tree: int,
                run: int,
                i: int,
                owner: Seq<char>,
            | #[trigger]
                holds_run_table(object, root, manifest, tree, run, i, owner),
        },
{
    let dbs = manifest.external_dbs@;
    let externals = crate::inventory::external_paths(dbs);
    match object.kind {
        StorageViewObjectKind::Manifest => {
            reveal_strlit("manifest");
            reveal_strlit("manifest/");
            reveal_strlit("/");
            let path = (if root.len() == 0 {
                root
            } else {
                root + "/"@
            }) + "manifest/"@ + crate::text::padded(manifest_id as nat, 20) + ".manifest"@;
            assert(crate::inventory::manifest_object_view(root, manifest_id).path =~= path);
        },
        StorageViewObjectKind::Wal => {
            let w = choose|w: u64|
                manifest.replay_after_wal_id < w < manifest.next_wal_sst_id && object
                    == #[trigger] crate::inventory::wal_object(root, w);
            tables_are_kept_under_their_database(root, SsTableId::Wal(w));
            assert(object.path == kept_at(root, SsTableId::Wal(w)));
        },
        StorageViewObjectKind::L0 => {
            let t = choose|t: int|
                0 <= t < manifest.trees@.len() && crate::inventory::in_tree(
                    object,
                    root,
                    externals,
                    #[trigger] manifest.trees@[t],
                );
            let ids = manifest.trees@[t].l0@;
            let i = choose|i: int|
                0 <= i < ids.len() && object == crate::inventory::tree_object(
                    StorageViewObjectKind::L0,
                    root,
                    externals,
                    #[trigger] ids[i],
                );
            let owner = lemma_some_owner(dbs, root, ids[i]);
            tables_are_resolved_under_their_owner(dbs, root, ids[i], owner);
            assert(holds_l0_table(object, root, manifest, t, i, owner));
        },
        StorageViewObjectKind::SortedRun => {
            let t = choose|t: int|
                0 <= t < manifest.trees@.len() && crate::inventory::in_tree(
                    object,
                    root,
                    externals,
                    #[trigger] manifest.trees@[t],
                );
            let tree = manifest.trees@[t];
            let r = choose|r: int|
                0 <= r < tree.compacted@.len() && crate::inventory::among_tables(
                    object,
                    StorageViewObjectKind::SortedRun,
                    root,
                    externals,
                    (#[trigger] tree.compacted@[r]).ssts@,
                );
            let ids = tree.compacted@[r].ssts@;
            let i = choose|i: int|
                0 <= i < ids.len() && object == crate::inventory::tree_object(
                    StorageViewObjectKind::SortedRun,
                    root,
                    externals,
                    #[trigger] ids[i],
                );
            let owner = lemma_some_owner(dbs, root, ids[i]);
            tables_are_resolved_under_their_owner(dbs, root, ids[i], owner);
            assert(holds_run_table(object, root, manifest, t, r, i, owner));
        },
    }
}

// ---------------------------------------------------------------------------
// Checkpoints and revisions
// ---------------------------------------------------------------------------

/// The checkpoint that is found has the UUID that is looked for, and none before it has.
pub proof fn first_checkpoint_is_the_first_with_its_id(
    checkpoints: Seq<Checkpoint>,
    checkpoint_id: u128,
    at: int,
)
    ensures
        crate::inventory::first_checkpoint(checkpoints, checkpoint_id, at) <==> {
            &&& 0 <= at < checkpoints.len()
            &&& checkpoints[at].id == checkpoint_id
            &&& forall|i: int|
                0 <= i < checkpoints.len() && (#[trigger] checkpoints[i]).id == checkpoint_id
                    ==> at <= i
        },
        0 <= at < checkpoints.len() && checkpoints[at].id == checkpoint_id
            ==> crate::inventory::has_checkpoint(checkpoints, checkpoint_id),
        crate::inventory::has_checkpoint(checkpoints, checkpoint_id) ==> !(forall|i: int|
            0 <= i < checkpoints.len() ==> (#[trigger] checkpoints[i]).id != checkpoint_id),
{
    if crate::inventory::first_checkpoint(checkpoints, checkpoint_id, at) {
        assert forall|i: int|
            0 <= i < checkpoints.len() && (#[trigger] checkpoints[i]).id
                == checkpoint_id implies at <= i by {
            if i < at {
                assert(checkpoints[i].id != checkpoint_id);
            }
        }
    }
}

/// A revision holds exactly when the latest manifest is the expected one; one that changed is
/// reported with its path and both numbers, and a failed read as what the engine says.
pub proof fn revisions_hold_if_the_number_is_the_same(
    expected: RevisionView,
    observed: Result<u64, SlateDbError>,
)
    ensures
        crate::inventory::revision_outcome(expected, observed) is Ok <==> observed == Ok::<
            u64,
            SlateDbError,
        >(expected.manifest_id),
        observed matches Ok(id) && id != expected.manifest_id
            ==> crate::inventory::revision_outcome(expected, observed) == Err::<(), ErrorView>(
            ErrorView::RevisionChanged {
                db_path: expected.db_path,
                expected: expected.manifest_id,
                observed: observed->Ok_0,
            },
        ),
        observed matches Err(error) ==> crate::inventory::revision_outcome(expected, observed)
            == Err::<(), ErrorView>(ErrorView::SlateDb { message: error.message@ }),
{
}

/// The text of the root path stands for the root path as it is; any other text is encoded.
pub proof fn root_path_is_not_encoded_again(root: Seq<char>, db_path: Seq<char>)
    ensures
        crate::inventory::revision_path_view(root, root) == root,
        db_path != root ==> crate::inventory::revision_path_view(root, db_path)
            == crate::object_path::encoded_path(db_path),
{
}

// ---------------------------------------------------------------------------
// The order of objects
// ---------------------------------------------------------------------------

/// Whether `at` is the first place at which two byte strings differ, and the first is the lesser
/// there, or ends there.
pub open spec fn lesser_at(a: Seq<u8>, b: Seq<u8>, at: int) -> bool {
    &&& 0 <= at <= a.len()
    &&& at < b.len()
    &&& a.take(at) == b.take(at)
    &&& at == a.len() || a[at] < b[at]
}

proof fn lemma_bytes_before(a: Seq<u8>, b: Seq<u8>)
    ensures
        crate::storage_view::bytes_before(a, b) <==> exists|at: int| #[trigger] lesser_at(a, b, at),
    decreases a.len(),
{
    if b.len() > 0 && a.len() > 0 && a[0] == b[0] {
        let x = a.drop_first();
        let y = b.drop_first();
        lemma_bytes_before(x, y);
        if crate::storage_view::bytes_before(x, y) {
            let at = choose|at: int| #[trigger] lesser_at(x, y, at);
            assert(a.take(at + 1) == seq![a[0]] + x.take(at));
            assert(b.take(at + 1) == seq![b[0]] + y.take(at));
            assert(lesser_at(a, b, at + 1));
        }
        if exists|at: int| #[trigger] lesser_at(a, b, at) {
            let at = choose|at: int| #[trigger] lesser_at(a, b, at);
            assert(at > 0);
            assert(x.take(at - 1) == a.take(at).drop_first());
            assert(y.take(at - 1) == b.take(at).drop_first());
            assert(lesser_at(x, y, at - 1));
        }
    } else if b.len() > 0 {
        if exists|at: int| #[trigger] lesser_at(a, b, at) {
            let at = choose|at: int| #[trigger] lesser_at(a, b, at);
            if at > 0 {
                assert(a.take(at)[0] == b.take(at)[0]);
            }
        }
        if crate::storage_view::bytes_before(a, b) {
            assert(a.take(0) =~= b.take(0));
            assert(lesser_at(a, b, 0));
        }
    }
}

/// The place of a kind in a list.
pub open spec fn kind_place(kind: StorageViewObjectKind) -> int {
    if kind == StorageViewObjectKind::Manifest {
        1
    } else if kind == StorageViewObjectKind::Wal {
        2
    } else if kind == StorageViewObjectKind::L0 {
        3
    } else {
        4
    }
}

/// Objects of the main store come before those of the log; in one store manifests come first, then
/// tables of the log, tables at the top level and tables of sorted runs; and in one kind paths are in
/// the order of their bytes.
pub proof fn objects_sort_by_store_kind_and_path(a: ObjectView, b: ObjectView)
    ensures
        crate::storage_view::object_before(a, b) <==> {
            ||| a.store == StorageViewObjectStore::Main && b.store == StorageViewObjectStore::Wal
            ||| a.store == b.store && kind_place(a.kind) < kind_place(b.kind)
            ||| a.store == b.store && a.kind == b.kind && exists|at: int| #[trigger]
                lesser_at(
                    vstd::utf8::encode_utf8(a.path),
                    vstd::utf8::encode_utf8(b.path),
                    at,
                )
        },
{
    lemma_bytes_before(vstd::utf8::encode_utf8(a.path), vstd::utf8::encode_utf8(b.path));
}

/// Whether the first place at which the bytes of two texts differ puts the first before the second.
pub open spec fn lesser_text(a: Seq<char>, b: Seq<char>) -> bool {
    exists|at: int| #[trigger]
        lesser_at(vstd::utf8::encode_utf8(a), vstd::utf8::encode_utf8(b), at)
}

/// Texts are in the order of their bytes.
pub proof fn texts_sort_by_their_bytes(a: Seq<char>, b: Seq<char>)
    ensures
        crate::storage_view::text_before(a, b) <==> lesser_text(a, b),
{
    lemma_bytes_before(vstd::utf8::encode_utf8(a), vstd::utf8::encode_utf8(b));
}

/// Revisions ascend when each path is before all that follow it, in the order of their bytes.
pub proof fn revisions_ascend_by_path(revisions: Seq<RevisionView>)
    ensures
        crate::storage_view::ascending_revisions(revisions) <==> forall|i: int, j: int|
            0 <= i < j < revisions.len() ==> lesser_text(
                (#[trigger] revisions[i]).db_path,
                (#[trigger] revisions[j]).db_path,
            ),
{
    assert forall|i: int, j: int|
        0 <= i < j < revisions.len() implies crate::storage_view::text_before(
        (#[trigger] revisions[i]).db_path,
        (#[trigger] revisions[j]).db_path,
    ) == lesser_text(revisions[i].db_path, revisions[j].db_path) by {
        texts_sort_by_their_bytes(revisions[i].db_path, revisions[j].db_path);
    }
}

/// A list of revisions stands for what each of them stands for, in the same order.
pub proof fn lists_stand_for_their_revisions(revisions: Seq<StorageViewRevision>)
    ensures
        crate::storage_view::revision_views(revisions).len() == revisions.len(),
        forall|i: int|
            0 <= i < revisions.len() ==> #[trigger] crate::storage_view::revision_views(
                revisions,
            )[i] == revisions[i]@,
{
}

} // verus!
