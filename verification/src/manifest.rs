//! Manifests of a database, as far as a storage view depends on them.

use vstd::prelude::*;

use crate::tables::SsTableId;

verus! {

/// A named point in the history of a database.
#[derive(Clone, Copy, Debug, PartialEq, Eq, Structural)]
pub struct Checkpoint {
    /// UUID of the checkpoint.
    pub id: u128,
    /// The manifest that the checkpoint pins.
    pub manifest_id: u64,
}

/// The latest manifest of a database, as a reader finds it.
#[derive(Debug)]
pub struct LatestManifest {
    pub id: u64,
    pub checkpoints: Vec<Checkpoint>,
}

/// A database whose tables another database reads.
#[derive(Debug)]
pub struct ExternalDb {
    pub path: String,
    /// UUID of the checkpoint that the reading database was made from.
    pub source_checkpoint_id: u128,
    /// UUID of the checkpoint that keeps the tables alive, once it is written.
    pub final_checkpoint_id: Option<u128>,
    pub sst_ids: Vec<SsTableId>,
}

/// Tables that hold one sorted range of keys between them.
#[derive(Debug)]
pub struct SortedRun {
    pub id: u32,
    pub ssts: Vec<SsTableId>,
}

/// One tree of tables.
#[derive(Debug)]
pub struct TreeState {
    pub l0: Vec<SsTableId>,
    pub compacted: Vec<SortedRun>,
}

/// A manifest: the state of a database at one revision.
#[derive(Debug)]
pub struct Manifest {
    /// The last log table whose contents are in the trees.
    pub replay_after_wal_id: u64,
    /// The first log table that is not written yet.
    pub next_wal_sst_id: u64,
    pub trees: Vec<TreeState>,
    pub external_dbs: Vec<ExternalDb>,
}

} // verus!
