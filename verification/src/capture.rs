//! Capturing the inventory of a storage view, one read of the object store at a time.

use vstd::prelude::*;

use crate::inventory::{
    find_checkpoint, storage_view_objects, ErrorView, RevisionCheck, SlateDbError,
    StorageViewInventoryError,
};
use crate::manifest::{LatestManifest, Manifest};
use crate::object_path::ObjectPath;
use crate::storage_view::{ObjectView, RevisionView, StorageViewObject, StorageViewRevision};

verus! {

/// Read-only, exact object graph for one explicit checkpoint.
#[derive(Clone, Debug, Eq, PartialEq)]
pub struct StorageViewInventory {
    pub checkpoint_id: u128,
    pub checkpoint_manifest_id: u64,
    pub objects: Vec<StorageViewObject>,
    pub observed_revisions: Vec<StorageViewRevision>,
}

/// Administers the database at one path.
#[derive(Debug)]
pub struct Admin {
    pub path: ObjectPath,
}

/// A read of a manifest in the main object store: all that a capture asks of the stores.
#[derive(Debug)]
pub enum ManifestRead {
    /// The latest manifest of the database at a path.
    Latest { path: ObjectPath },
    /// One manifest of the database at a path.
    Pinned { path: ObjectPath, manifest_id: u64 },
}

/// What a `ManifestRead` stands for.
pub enum ReadView {
    Latest { path: Seq<char> },
    Pinned { path: Seq<char>, manifest_id: u64 },
}

impl View for ManifestRead {
    type V = ReadView;

    open spec fn view(&self) -> ReadView {
        match *self {
            ManifestRead::Latest { path } => ReadView::Latest { path: path@ },
            ManifestRead::Pinned { path, manifest_id } => ReadView::Pinned {
                path: path@,
                manifest_id,
            },
        }
    }
}

/// An inventory that waits for the latest manifest of the database, to find its checkpoint there.
#[derive(Debug)]
pub struct CheckpointSearch {
    path: ObjectPath,
    checkpoint_id: u128,
}

/// An inventory that waits for the manifest of its checkpoint.
#[derive(Debug)]
pub struct ManifestWait {
    path: ObjectPath,
    checkpoint_id: u128,
    manifest_id: u64,
    latest_id: u64,
}

/// An inventory that waits for the latest manifest to be read once more.
#[derive(Debug)]
pub struct RevisionWait {
    inventory: StorageViewInventory,
    check: RevisionCheck,
}

impl Admin {
    /// Resolve an explicit checkpoint to its exact manifest, bounded log, local table and
    /// external table physical files.
    ///
    /// The capture is rejected if the root latest manifest revision changes while the files are
    /// being resolved. Callers may retry from the beginning.
    pub fn read_storage_view_inventory(&self, checkpoint_id: u128) -> (search: CheckpointSearch)
        ensures
            search.root() == self.path@,
            search.checkpoint() == checkpoint_id,
    {
        CheckpointSearch { path: self.path.clone(), checkpoint_id }
    }
}

/// What becomes of a search when the latest manifest was read.
pub open spec fn search_outcome(
    search: CheckpointSearch,
    latest: Result<LatestManifest, SlateDbError>,
    res: Result<ManifestWait, ErrorView>,
) -> bool {
    match latest {
        Err(error) => res == Err::<ManifestWait, ErrorView>(
            ErrorView::SlateDb { message: error.message@ },
        ),
        Ok(latest) => if crate::inventory::has_checkpoint(latest.checkpoints@, search.checkpoint()) {
            &&& res matches Ok(wait)
            &&& wait.root() == search.root()
            &&& wait.checkpoint() == search.checkpoint()
            &&& wait.latest() == latest.id
            &&& exists|at: int| #[trigger]
                crate::inventory::first_checkpoint(latest.checkpoints@, search.checkpoint(), at)
                    && wait.manifest() == latest.checkpoints@[at].manifest_id
        } else {
            res == Err::<ManifestWait, ErrorView>(
                ErrorView::CheckpointMissing {
                    db_path: search.root(),
                    checkpoint_id: search.checkpoint(),
                },
            )
        },
    }
}

/// Whether `objects` lists, in ascending order, the view that a manifest describes.
pub open spec fn lists_storage_view(
    objects: Seq<StorageViewObject>,
    root: Seq<char>,
    manifest_id: u64,
    manifest: Manifest,
) -> bool {
    &&& crate::storage_view::ascending(crate::storage_view::object_views(objects))
    &&& forall|o: ObjectView| #[trigger]
        crate::storage_view::object_views(objects).contains(o) <==> crate::inventory::in_storage_view(
            o,
            root,
            manifest_id,
            manifest,
        )
}

/// What becomes of a capture when the manifest of its checkpoint was read.
pub open spec fn manifest_outcome(
    wait: ManifestWait,
    manifest: Result<Manifest, SlateDbError>,
    res: Result<RevisionWait, ErrorView>,
) -> bool {
    match manifest {
        Err(error) => res == Err::<RevisionWait, ErrorView>(
            ErrorView::SlateDb { message: error.message@ },
        ),
        Ok(manifest) => if crate::inventory::unambiguous(manifest.external_dbs@) {
            &&& res matches Ok(next)
            &&& next.root() == wait.root()
            &&& next.captured().checkpoint_id == wait.checkpoint()
            &&& next.captured().checkpoint_manifest_id == wait.manifest()
            &&& lists_storage_view(
                next.captured().objects@,
                wait.root(),
                wait.manifest(),
                manifest,
            )
            &&& next.captured().observed_revisions@.len() == 1
            &&& next.captured().observed_revisions@[0]@ == (RevisionView {
                db_path: wait.root(),
                manifest_id: wait.latest(),
            })
        } else {
            res == Err::<RevisionWait, ErrorView>(
                ErrorView::InvalidGraph { reason: "duplicate external SST identity"@ },
            )
        },
    }
}

/// What becomes of a capture when the latest manifest was read once more.
pub open spec fn recheck_outcome(
    wait: RevisionWait,
    observed: Result<u64, SlateDbError>,
) -> Result<StorageViewInventory, ErrorView> {
    match crate::inventory::revision_outcome(wait.captured().observed_revisions@[0]@, observed) {
        Ok(_) => Ok(wait.captured()),
        Err(error) => Err(error),
    }
}

impl CheckpointSearch {
    /// The path of the database.
    pub closed spec fn root(&self) -> Seq<char> {
        self.path@
    }

    /// UUID of the checkpoint.
    pub closed spec fn checkpoint(&self) -> u128 {
        self.checkpoint_id
    }

    /// The read that is waited for.
    pub open spec fn read(&self) -> ReadView {
        ReadView::Latest { path: self.root() }
    }

    /// The one read that is to be performed next.
    pub fn next_read(&self) -> (read: ManifestRead)
        ensures
            read@ == self.read(),
    {
        ManifestRead::Latest { path: self.path.clone() }
    }

    /// Takes the latest manifest, or how reading it failed.
    pub fn latest(self, latest: Result<LatestManifest, SlateDbError>) -> (res: Result<
        ManifestWait,
        StorageViewInventoryError,
    >)
        ensures
            search_outcome(self, latest, crate::inventory::viewed(res)),
    {
        let latest = match latest {
            Ok(latest) => latest,
            Err(error) => return Err(StorageViewInventoryError::from(error)),
        };
        let checkpoint = match find_checkpoint(
            latest.checkpoints.as_slice(),
            self.checkpoint_id,
            &self.path,
        ) {
            Ok(checkpoint) => *checkpoint,
            Err(error) => return Err(error),
        };
        Ok(
            ManifestWait {
                path: self.path,
                checkpoint_id: self.checkpoint_id,
                manifest_id: checkpoint.manifest_id,
                latest_id: latest.id,
            },
        )
    }
}

impl ManifestWait {
    /// The path of the database.
    pub closed spec fn root(&self) -> Seq<char> {
        self.path@
    }

    /// UUID of the checkpoint.
    pub closed spec fn checkpoint(&self) -> u128 {
        self.checkpoint_id
    }

    /// The manifest that the checkpoint pins.
    pub closed spec fn manifest(&self) -> u64 {
        self.manifest_id
    }

    /// The latest manifest when the checkpoint was found.
    pub closed spec fn latest(&self) -> u64 {
        self.latest_id
    }

    /// The read that is waited for.
    pub open spec fn read(&self) -> ReadView {
        ReadView::Pinned { path: self.root(), manifest_id: self.manifest() }
    }

    /// The one read that is to be performed next.
    pub fn next_read(&self) -> (read: ManifestRead)
        ensures
            read@ == self.read(),
    {
        ManifestRead::Pinned { path: self.path.clone(), manifest_id: self.manifest_id }
    }

    /// Takes the manifest of the checkpoint, or how reading it failed.
    pub fn resolve(self, manifest: Result<Manifest, SlateDbError>) -> (res: Result<
        RevisionWait,
        StorageViewInventoryError,
    >)
        requires
            manifest matches Ok(manifest) ==> manifest.replay_after_wal_id < u64::MAX,
        ensures
            manifest_outcome(self, manifest, crate::inventory::viewed(res)),
    {
        let manifest = match manifest {
            Ok(manifest) => manifest,
            Err(error) => return Err(StorageViewInventoryError::from(error)),
        };
        let objects = match storage_view_objects(&self.path, self.manifest_id, &manifest) {
            Ok(objects) => objects,
            Err(error) => return Err(error),
        };
        let mut observed_revisions: Vec<StorageViewRevision> = Vec::new();
        observed_revisions.push(
            StorageViewRevision { db_path: self.path.to_text(), manifest_id: self.latest_id },
        );
        let mut expected: Vec<StorageViewRevision> = Vec::new();
        expected.push(
            StorageViewRevision { db_path: self.path.to_text(), manifest_id: self.latest_id },
        );
        let check = RevisionCheck::verify_revisions(self.path, expected);
        Ok(
            RevisionWait {
                inventory: StorageViewInventory {
                    checkpoint_id: self.checkpoint_id,
                    checkpoint_manifest_id: self.manifest_id,
                    objects,
                    observed_revisions,
                },
                check,
            },
        )
    }
}

impl RevisionWait {
    #[verifier::type_invariant]
    spec fn well_formed(self) -> bool {
        &&& self.inventory.observed_revisions@.len() == 1
        &&& self.check.expected().len() == 1
        &&& self.check.verified() == 0
        &&& self.check.expected()[0]@ == self.inventory.observed_revisions@[0]@
        &&& self.check.expected()[0].db_path@ == self.check.root()
    }

    /// The path of the database.
    pub closed spec fn root(&self) -> Seq<char> {
        self.check.root()
    }

    /// The inventory that is handed out if the latest manifest is still the same.
    pub closed spec fn captured(&self) -> StorageViewInventory {
        self.inventory
    }

    /// The read that is waited for.
    pub open spec fn read(&self) -> ReadView {
        ReadView::Latest { path: self.root() }
    }

    /// The one read that is to be performed next.
    pub fn next_read(&self) -> (read: ManifestRead)
        ensures
            read@ == self.read(),
    {
        proof {
            use_type_invariant(self);
        }
        ManifestRead::Latest { path: self.check.next_read().unwrap() }
    }

    /// Takes the id of the latest manifest, or how reading it failed.
    pub fn confirm(self, observed: Result<u64, SlateDbError>) -> (res: Result<
        StorageViewInventory,
        StorageViewInventoryError,
    >)
        ensures
            crate::inventory::viewed(res) == recheck_outcome(self, observed),
    {
        proof {
            use_type_invariant(&self);
        }
        let RevisionWait { inventory, check } = self;
        let mut check = check;
        match check.observe(observed) {
            Ok(_) => Ok(inventory),
            Err(error) => Err(error),
        }
    }
}

} // verus!
