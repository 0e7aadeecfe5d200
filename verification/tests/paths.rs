use object_store::path::Path;
use slatedb_wal_bench::object_path::ObjectPath;
use slatedb_wal_bench::storage_view::{
    insert_object, object_precedes, text_precedes, StorageViewObject, StorageViewObjectKind,
    StorageViewObjectStore,
};
use slatedb_wal_bench::tables::{ExternalSsts, PathResolver, SsTableId};
use std::collections::BTreeSet;
use ulid::Ulid;

const RAW: [&str; 14] = [
    "",
    "/",
    "root",
    "/root/",
    "foo//bar",
    "foo/../bar",
    "./a",
    "a b",
    "50%",
    "a%20b",
    "tab\there",
    "b\u{fc}cher",
    "{x}[y]~",
    "wal-rfc-proto/01j0",
];

#[test]
fn encoding_follows_the_object_store() {
    for raw in RAW {
        assert_eq!(ObjectPath::encode(raw).as_str(), Path::from(raw).as_ref(), "{raw}");
    }
    assert_eq!(ObjectPath::encode("foo/../bar").as_str(), "foo/%2E%2E/bar");
    assert_eq!(ObjectPath::encode("foo//bar").as_str(), "foo/bar");
    assert_eq!(ObjectPath::encode("a-b_c.d/e f").as_str(), "a-b_c.d/e f");
    assert_eq!(ObjectPath::encode("b\u{fc}cher/./x").as_str(), "b%C3%BCcher/%2E/x");
}

#[test]
fn every_character_is_kept_or_encoded_byte_by_byte() {
    for code in 0..0x300_u32 {
        let c = char::from_u32(code).unwrap();
        if c == '/' || c == '.' {
            continue;
        }
        let plain = (' '..='}').contains(&c) && !"\\{^}%`]\">[<#|*?".contains(c);
        let expected = if plain {
            c.to_string()
        } else {
            c.to_string().bytes().map(|byte| format!("%{byte:02X}")).collect::<String>()
        };
        let path = ObjectPath::encode(&c.to_string());
        assert_eq!(path.as_str(), expected, "{code:x}");
        assert_eq!(ObjectPath::parse(path.as_str()).unwrap().as_str(), expected);
    }
}

#[test]
fn parsing_follows_the_object_store() {
    for raw in RAW {
        let expected = Path::parse(raw).ok().map(|path| path.to_string());
        assert_eq!(ObjectPath::parse(raw).map(|path| path.to_text()), expected, "{raw}");
    }
    assert_eq!(ObjectPath::parse("/root/").unwrap().as_str(), "root");
    assert_eq!(ObjectPath::parse("a%20b").unwrap().as_str(), "a%20b");
    assert!(ObjectPath::parse("//").is_none());
    assert!(ObjectPath::parse("foo//bar").is_none());
    assert!(ObjectPath::parse("foo/../bar").is_none());
    assert!(ObjectPath::parse("a\u{7f}").is_none());
}

#[test]
fn segments_are_joined_with_one_delimiter() {
    assert_eq!(ObjectPath::encode("a/b").join("c.sst").as_str(), "a/b/c.sst");
    assert_eq!(ObjectPath::encode("").join("c.sst").as_str(), "c.sst");
    assert_eq!(
        ObjectPath::encode("a#").join("c").as_str(),
        Path::from("a#").join("c").as_ref()
    );
    let base = ObjectPath::encode("a");
    assert_ne!(base.join("x").as_str(), base.join("y").as_str());
}

#[test]
fn tables_are_found_under_the_database_that_owns_them() {
    let ulid = Ulid::from_parts(1_700_000_000_000, 42);
    let local = PathResolver::new(ObjectPath::encode("root"));
    assert_eq!(
        local.table_path(SsTableId::Wal(12)).as_str(),
        "root/wal/00000000000000000012.sst"
    );
    assert_eq!(
        local.table_path(SsTableId::Compacted(ulid.0)).to_text(),
        format!("root/compacted/{ulid}.sst")
    );

    let mut owners = ExternalSsts::new();
    assert!(!owners.insert(SsTableId::Compacted(ulid.0), ObjectPath::encode("owner")));
    assert!(!owners.insert(SsTableId::Wal(5), ObjectPath::encode("other")));
    assert!(owners.insert(SsTableId::Wal(5), ObjectPath::encode("newer")));
    assert_eq!(owners.get(SsTableId::Wal(5)).unwrap().as_str(), "newer");
    assert!(owners.get(SsTableId::Compacted(5)).is_none());
    let resolver = PathResolver::new_with_external_ssts(ObjectPath::encode("root"), owners);
    assert_eq!(
        resolver.table_path(SsTableId::Compacted(ulid.0)).to_text(),
        format!("owner/compacted/{ulid}.sst")
    );
    assert_eq!(
        resolver.table_path(SsTableId::Wal(5)).as_str(),
        "newer/wal/00000000000000000005.sst"
    );
    assert_eq!(
        resolver.table_path(SsTableId::Wal(6)).as_str(),
        "root/wal/00000000000000000006.sst"
    );
}

fn sample_objects() -> Vec<StorageViewObject> {
    let mut objects = Vec::new();
    for store in [StorageViewObjectStore::Wal, StorageViewObjectStore::Main] {
        for kind in [
            StorageViewObjectKind::SortedRun,
            StorageViewObjectKind::L0,
            StorageViewObjectKind::Wal,
            StorageViewObjectKind::Manifest,
        ] {
            for path in ["", "a", "a/b", "a!", "b", "\u{fc}", "\u{ffff}", "\u{10000}", "A"] {
                objects.push(StorageViewObject { store, kind, path: path.to_string() });
            }
        }
    }
    objects
}

#[test]
fn order_of_objects_is_the_derived_order() {
    let objects = sample_objects();
    for a in &objects {
        for b in &objects {
            assert_eq!(object_precedes(a, b), a < b);
            assert_eq!(text_precedes(&a.path, &b.path), a.path < b.path);
            assert!(!(object_precedes(a, b) && object_precedes(b, a)));
            assert!(a == b || object_precedes(a, b) || object_precedes(b, a));
        }
    }
}

#[test]
fn lists_are_ascending_and_hold_nothing_twice() {
    let mut list: Vec<StorageViewObject> = Vec::new();
    let objects = sample_objects();
    for object in objects.iter().chain(objects.iter().rev()) {
        insert_object(&mut list, object.clone());
    }
    let set: BTreeSet<StorageViewObject> = objects.into_iter().collect();
    assert_eq!(list, set.into_iter().collect::<Vec<_>>());
}
