use slatedb_wal_bench::capture::{
    Admin, CheckpointSearch, ManifestRead, ManifestWait, RevisionWait, StorageViewInventory,
};
use slatedb_wal_bench::inventory::{
    external_sst_paths, find_checkpoint, manifest_object, revision_path, storage_view_objects,
    RevisionCheck, SlateDbError, StorageViewInventoryError,
};
use slatedb_wal_bench::manifest::{
    Checkpoint, ExternalDb, LatestManifest, Manifest, SortedRun, TreeState,
};
use slatedb_wal_bench::object_path::ObjectPath;
use slatedb_wal_bench::storage_view::{
    StorageViewObject, StorageViewObjectKind, StorageViewObjectStore, StorageViewRevision,
};
use slatedb_wal_bench::tables::{PathResolver, SsTableId};
use std::collections::BTreeSet;
use ulid::Ulid;
use uuid::Uuid;

fn path(text: &str) -> ObjectPath {
    ObjectPath::encode(text)
}

fn empty_manifest() -> Manifest {
    Manifest {
        replay_after_wal_id: 0,
        next_wal_sst_id: 1,
        trees: vec![TreeState { l0: vec![], compacted: vec![] }],
        external_dbs: vec![],
    }
}

fn external_db(path: &str, sst_ids: Vec<SsTableId>) -> ExternalDb {
    ExternalDb {
        path: path.to_string(),
        source_checkpoint_id: Uuid::from_u128(1).as_u128(),
        final_checkpoint_id: None,
        sst_ids,
    }
}

fn object(
    store: StorageViewObjectStore,
    kind: StorageViewObjectKind,
    path: &str,
) -> StorageViewObject {
    StorageViewObject { store, kind, path: path.to_string() }
}

fn engine_error(message: &str) -> SlateDbError {
    SlateDbError { message: message.to_string() }
}

fn reads_latest(read: ManifestRead, root: &str) -> bool {
    matches!(read, ManifestRead::Latest { path } if path.as_str() == root)
}

fn reads_pinned(read: ManifestRead, root: &str, id: u64) -> bool {
    matches!(
        read,
        ManifestRead::Pinned { path, manifest_id } if path.as_str() == root && manifest_id == id
    )
}

fn found(root: &str, checkpoint_id: u128, manifest_id: u64, latest_id: u64) -> ManifestWait {
    let admin = Admin { path: path(root) };
    let search: CheckpointSearch = admin.read_storage_view_inventory(checkpoint_id);
    assert!(reads_latest(search.next_read(), root));
    search
        .latest(Ok(LatestManifest {
            id: latest_id,
            checkpoints: vec![Checkpoint { id: checkpoint_id, manifest_id }],
        }))
        .unwrap()
}

fn resolved(root: &str, latest_id: u64, manifest: Manifest) -> RevisionWait {
    let wait = found(root, 7, 3, latest_id);
    assert!(reads_pinned(wait.next_read(), root, 3));
    wait.resolve(Ok(manifest)).unwrap()
}

#[test]
fn invalid_graph_is_not_classified_as_revision_change() {
    let sst_id = SsTableId::Compacted(Ulid::from_parts(1, 0).0);
    let mut manifest = empty_manifest();
    manifest.external_dbs = vec![
        ExternalDb {
            path: "source-a".into(),
            source_checkpoint_id: Uuid::from_u128(1).as_u128(),
            final_checkpoint_id: Some(Uuid::from_u128(2).as_u128()),
            sst_ids: vec![sst_id],
        },
        ExternalDb {
            path: "source-b".into(),
            source_checkpoint_id: Uuid::from_u128(3).as_u128(),
            final_checkpoint_id: Some(Uuid::from_u128(4).as_u128()),
            sst_ids: vec![sst_id],
        },
    ];

    assert!(matches!(
        external_sst_paths(&manifest),
        Err(StorageViewInventoryError::InvalidGraph { .. })
    ));
}

#[test]
fn missing_checkpoint_preserves_identity_without_retry_classification() {
    let checkpoint_id = Uuid::from_u128(1).as_u128();
    assert!(matches!(
        find_checkpoint(&[], checkpoint_id, &path("root")),
        Err(StorageViewInventoryError::CheckpointMissing {
            db_path,
            checkpoint_id: observed,
        }) if db_path == "root" && observed == checkpoint_id
    ));
}

#[test]
fn external_ssts_do_not_require_source_manifest_or_final_checkpoint() {
    let root = path("root");
    let source = path("missing-source");
    let external_sst_id = SsTableId::Compacted(Ulid::from_parts(1, 0).0);
    let mut manifest = empty_manifest();
    manifest.trees[0].compacted.push(SortedRun { id: 1, ssts: vec![external_sst_id] });
    manifest.external_dbs.push(ExternalDb {
        path: source.to_text(),
        source_checkpoint_id: Uuid::from_u128(1).as_u128(),
        final_checkpoint_id: None,
        sst_ids: vec![external_sst_id],
    });
    let checkpoint = Checkpoint { id: Uuid::from_u128(2).as_u128(), manifest_id: 2 };
    let admin = Admin { path: root.clone() };

    let search = admin.read_storage_view_inventory(checkpoint.id);
    assert!(reads_latest(search.next_read(), "root"));
    let wait = search
        .latest(Ok(LatestManifest { id: 2, checkpoints: vec![checkpoint] }))
        .unwrap();
    assert!(reads_pinned(wait.next_read(), "root", checkpoint.manifest_id));
    let wait = wait.resolve(Ok(manifest)).unwrap();
    assert!(reads_latest(wait.next_read(), "root"));
    let inventory = wait.confirm(Ok(2)).unwrap();

    assert!(inventory
        .objects
        .contains(&manifest_object(&root, checkpoint.manifest_id)));
    assert!(inventory.objects.contains(&StorageViewObject {
        store: StorageViewObjectStore::Main,
        kind: StorageViewObjectKind::SortedRun,
        path: PathResolver::new(source.clone())
            .table_path(external_sst_id)
            .to_text(),
    }));
    assert!(!inventory.objects.iter().any(|object| {
        object.kind == StorageViewObjectKind::Manifest
            && object.path.starts_with(source.as_str())
    }));
    assert_eq!(
        inventory.observed_revisions,
        vec![StorageViewRevision { db_path: root.to_text(), manifest_id: 2 }]
    );
}

#[test]
fn revision_mismatch_is_the_only_typed_retry_signal() {
    let root = path("root");
    let mut check = RevisionCheck::verify_revisions(
        root,
        vec![StorageViewRevision { db_path: "root".into(), manifest_id: 0 }],
    );
    assert_eq!(check.next_read().unwrap().as_str(), "root");

    assert!(matches!(
        check.observe(Ok(1)),
        Err(StorageViewInventoryError::RevisionChanged {
            db_path,
            expected: 0,
            observed: 1,
        }) if db_path == "root"
    ));
}

#[test]
fn view_lists_manifest_log_and_trees_in_order() {
    let l0 = SsTableId::Compacted(Ulid::from_parts(5, 1).0);
    let run = SsTableId::Compacted(Ulid::from_parts(2, 1).0);
    let external = SsTableId::Compacted(Ulid::from_parts(3, 1).0);
    let manifest = Manifest {
        replay_after_wal_id: 8,
        next_wal_sst_id: 11,
        trees: vec![
            TreeState {
                l0: vec![l0, external],
                compacted: vec![SortedRun { id: 4, ssts: vec![run] }],
            },
            TreeState { l0: vec![l0], compacted: vec![] },
        ],
        external_dbs: vec![external_db("other/db", vec![external])],
    };
    let objects = storage_view_objects(&path("root"), 12, &manifest).unwrap();
    let expected = vec![
        object(
            StorageViewObjectStore::Main,
            StorageViewObjectKind::Manifest,
            "root/manifest/00000000000000000012.manifest",
        ),
        object(
            StorageViewObjectStore::Main,
            StorageViewObjectKind::L0,
            &format!("other/db/compacted/{}.sst", Ulid::from_parts(3, 1)),
        ),
        object(
            StorageViewObjectStore::Main,
            StorageViewObjectKind::L0,
            &format!("root/compacted/{}.sst", Ulid::from_parts(5, 1)),
        ),
        object(
            StorageViewObjectStore::Main,
            StorageViewObjectKind::SortedRun,
            &format!("root/compacted/{}.sst", Ulid::from_parts(2, 1)),
        ),
        object(
            StorageViewObjectStore::Wal,
            StorageViewObjectKind::Wal,
            "root/wal/00000000000000000009.sst",
        ),
        object(
            StorageViewObjectStore::Wal,
            StorageViewObjectKind::Wal,
            "root/wal/00000000000000000010.sst",
        ),
    ];
    assert_eq!(objects, expected);
    let as_set: BTreeSet<StorageViewObject> = expected.into_iter().rev().collect();
    assert_eq!(objects, as_set.into_iter().collect::<Vec<_>>());
}

#[test]
fn replayed_log_is_not_listed() {
    let mut manifest = empty_manifest();
    manifest.replay_after_wal_id = 9;
    manifest.next_wal_sst_id = 10;
    assert_eq!(storage_view_objects(&path("root"), 1, &manifest).unwrap().len(), 1);
    manifest.next_wal_sst_id = 4;
    assert_eq!(storage_view_objects(&path("root"), 1, &manifest).unwrap().len(), 1);
    manifest.next_wal_sst_id = 11;
    assert_eq!(
        storage_view_objects(&path("root"), 1, &manifest).unwrap()[1].path,
        "root/wal/00000000000000000010.sst"
    );
    manifest.replay_after_wal_id = u64::MAX - 2;
    manifest.next_wal_sst_id = u64::MAX;
    assert_eq!(
        storage_view_objects(&path("root"), 1, &manifest).unwrap()[1].path,
        "root/wal/18446744073709551614.sst"
    );
}

#[test]
fn log_tables_stay_with_the_root_even_if_another_database_claims_them() {
    let mut manifest = empty_manifest();
    manifest.next_wal_sst_id = 2;
    manifest.trees[0].l0.push(SsTableId::Wal(1));
    manifest.external_dbs.push(external_db("elsewhere", vec![SsTableId::Wal(1)]));
    let objects = storage_view_objects(&path("root"), 1, &manifest).unwrap();
    assert_eq!(
        objects,
        vec![
            manifest_object(&path("root"), 1),
            object(
                StorageViewObjectStore::Main,
                StorageViewObjectKind::L0,
                "elsewhere/wal/00000000000000000001.sst",
            ),
            object(
                StorageViewObjectStore::Wal,
                StorageViewObjectKind::Wal,
                "root/wal/00000000000000000001.sst",
            ),
        ]
    );
}

#[test]
fn one_database_may_not_name_a_table_twice_either() {
    let id = SsTableId::Wal(3);
    let mut manifest = empty_manifest();
    manifest.external_dbs.push(external_db("source", vec![id, SsTableId::Compacted(3), id]));
    let error = storage_view_objects(&path("root"), 1, &manifest).unwrap_err();
    assert_eq!(
        error.message(),
        "invalid storage view graph: duplicate external SST identity"
    );
}

#[test]
fn external_paths_are_encoded_like_any_other() {
    let id = SsTableId::Compacted(9);
    let mut manifest = empty_manifest();
    manifest.external_dbs.push(external_db("/a b//c#d/", vec![id]));
    let paths = external_sst_paths(&manifest).unwrap();
    assert_eq!(
        paths.get(id).unwrap().as_str(),
        object_store::path::Path::from("/a b//c#d/").as_ref()
    );
    assert_eq!(paths.get(id).unwrap().as_str(), "a b/c%23d");
    assert!(paths.get(SsTableId::Wal(9)).is_none());
}

#[test]
fn first_of_several_checkpoints_is_found() {
    let checkpoints = [
        Checkpoint { id: 4, manifest_id: 10 },
        Checkpoint { id: 5, manifest_id: 11 },
        Checkpoint { id: 5, manifest_id: 12 },
    ];
    assert_eq!(find_checkpoint(&checkpoints, 5, &path("root")).unwrap().manifest_id, 11);
    assert_eq!(find_checkpoint(&checkpoints, 4, &path("root")).unwrap().manifest_id, 10);
    assert!(find_checkpoint(&checkpoints, 6, &path("root")).is_err());
}

#[test]
fn manifest_objects_are_zero_padded() {
    assert_eq!(
        manifest_object(&path("a/b"), u64::MAX).path,
        "a/b/manifest/18446744073709551615.manifest"
    );
    assert_eq!(
        manifest_object(&path(""), 1).path,
        "manifest/00000000000000000001.manifest"
    );
}

#[test]
fn capture_reports_the_first_thing_that_went_wrong() {
    let search = Admin { path: path("root") }.read_storage_view_inventory(7);
    assert!(matches!(
        search.latest(Err(engine_error("gone"))),
        Err(StorageViewInventoryError::SlateDb(error)) if error.message == "gone"
    ));

    let search = Admin { path: path("root") }.read_storage_view_inventory(7);
    assert!(matches!(
        search.latest(Ok(LatestManifest { id: 1, checkpoints: vec![] })),
        Err(StorageViewInventoryError::CheckpointMissing { db_path, checkpoint_id: 7 })
            if db_path == "root"
    ));

    assert!(matches!(
        found("root", 7, 3, 4).resolve(Err(engine_error("corrupt"))),
        Err(StorageViewInventoryError::SlateDb(error)) if error.message == "corrupt"
    ));

    let mut manifest = empty_manifest();
    manifest.external_dbs.push(external_db("s", vec![SsTableId::Wal(1), SsTableId::Wal(1)]));
    assert!(matches!(
        found("root", 7, 3, 4).resolve(Ok(manifest)),
        Err(StorageViewInventoryError::InvalidGraph { .. })
    ));

    assert!(matches!(
        resolved("root", 4, empty_manifest()).confirm(Err(engine_error("unreachable"))),
        Err(StorageViewInventoryError::SlateDb(error)) if error.message == "unreachable"
    ));
    assert!(matches!(
        resolved("root", 4, empty_manifest()).confirm(Ok(5)),
        Err(StorageViewInventoryError::RevisionChanged { db_path, expected: 4, observed: 5 })
            if db_path == "root"
    ));
}

#[test]
fn unchanged_capture_gives_the_inventory() {
    let wait = resolved("root", 4, empty_manifest());
    assert!(reads_latest(wait.next_read(), "root"));
    let inventory = wait.confirm(Ok(4)).unwrap();
    assert_eq!(
        inventory,
        StorageViewInventory {
            checkpoint_id: 7,
            checkpoint_manifest_id: 3,
            objects: vec![manifest_object(&path("root"), 3)],
            observed_revisions: vec![StorageViewRevision {
                db_path: "root".into(),
                manifest_id: 4,
            }],
        }
    );
}

#[test]
fn revisions_are_compared_one_database_after_the_other() {
    let mut check = RevisionCheck::verify_revisions(
        path("root"),
        vec![
            StorageViewRevision { db_path: "a#b".into(), manifest_id: 3 },
            StorageViewRevision { db_path: "root".into(), manifest_id: 5 },
        ],
    );
    assert_eq!(check.next_read().unwrap().as_str(), "a%23b");
    assert!(matches!(
        check.observe(Err(engine_error("later"))),
        Err(StorageViewInventoryError::SlateDb(_))
    ));
    check.observe(Ok(3)).unwrap();
    assert_eq!(check.next_read().unwrap().as_str(), "root");
    check.observe(Ok(5)).unwrap();
    assert!(check.next_read().is_none());
}

#[test]
fn least_path_that_changed_is_reported() {
    let mut check = RevisionCheck::verify_revisions(
        path("root"),
        vec![
            StorageViewRevision { db_path: "a".into(), manifest_id: 1 },
            StorageViewRevision { db_path: "b".into(), manifest_id: 1 },
            StorageViewRevision { db_path: "c".into(), manifest_id: 1 },
        ],
    );
    let mut failure = None;
    for observed in [1, 2, 3] {
        if let Err(error) = check.observe(Ok(observed)) {
            failure = Some(error);
            break;
        }
    }
    assert!(matches!(
        failure,
        Some(StorageViewInventoryError::RevisionChanged { db_path, expected: 1, observed: 2 })
            if db_path == "b"
    ));
    assert_eq!(check.next_read().unwrap().as_str(), "b");
}

#[test]
fn root_path_is_taken_as_it_is() {
    let root = ObjectPath::parse("a%20b").unwrap();
    assert_eq!(revision_path(&root, "a%20b").as_str(), "a%20b");
    assert_eq!(revision_path(&root, "c%20d").as_str(), "c%2520d");
}

#[test]
fn errors_name_what_went_wrong() {
    let changed = resolved("root", 4, empty_manifest()).confirm(Ok(50)).unwrap_err();
    assert_eq!(
        changed.message(),
        "storage view revision changed. db_path=`root`, expected=`4`, observed=`50`"
    );
    let id = Uuid::from_u128(0x0123_4567_89ab_cdef_0123_4567_89ab_cdef);
    let missing = find_checkpoint(&[], id.as_u128(), &path("root")).unwrap_err();
    assert_eq!(
        missing.message(),
        format!("checkpoint missing. db_path=`root`, checkpoint_id=`{id}`")
    );
    assert_eq!(
        missing.message(),
        "checkpoint missing. db_path=`root`, checkpoint_id=`01234567-89ab-cdef-0123-456789abcdef`"
    );
    let engine = StorageViewInventoryError::from(engine_error("out of space"));
    assert_eq!(engine.message(), "out of space");
}

#[test]
fn manifests_and_log_tables_sort_by_id() {
    let ids = [0, 1, 9, 10, 99, 100, u64::MAX - 1, u64::MAX];
    for pair in ids.windows(2) {
        let a = manifest_object(&path("root"), pair[0]);
        let b = manifest_object(&path("root"), pair[1]);
        assert!(a < b && a.path < b.path);
        let resolver = PathResolver::new(path(""));
        let a = resolver.table_path(SsTableId::Wal(pair[0]));
        let b = resolver.table_path(SsTableId::Wal(pair[1]));
        assert!(a.as_str() < b.as_str());
    }
}

#[test]
fn tables_are_owned_by_the_database_that_names_them() {
    let (a, b, c) = (SsTableId::Wal(1), SsTableId::Wal(2), SsTableId::Compacted(1));
    let mut manifest = empty_manifest();
    manifest.external_dbs.push(external_db("x", vec![a]));
    manifest.external_dbs.push(external_db("y", vec![b]));
    let owners = external_sst_paths(&manifest).unwrap();
    assert_eq!(owners.get(a).unwrap().as_str(), "x");
    assert_eq!(owners.get(b).unwrap().as_str(), "y");
    assert!(owners.get(c).is_none());
}
