//! Data model of the replicated log: entries, hard and conf state, snapshot
//! metadata, and the write operations that the storage core hands to the
//! persistence engine.

use vstd::prelude::*;

verus! {

/// Kind of a log entry: an application record or a membership change.
#[derive(Clone, Copy, Debug, PartialEq, Eq, Structural)]
pub enum EntryType {
    Normal,
    ConfChange,
}

/// One ordered unit of the replicated log.
#[derive(Clone, Debug, PartialEq, Eq)]
pub struct Entry {
    pub entry_type: EntryType,
    pub index: u64,
    pub term: u64,
    pub data: Vec<u8>,
}

/// Mathematical image of an [`Entry`]: the payload as a sequence of bytes.
pub ghost struct EntryV {
    pub entry_type: EntryType,
    pub index: u64,
    pub term: u64,
    pub data: Seq<u8>,
}

impl View for Entry {
    type V = EntryV;

    open spec fn view(&self) -> EntryV {
        EntryV {
            entry_type: self.entry_type,
            index: self.index,
            term: self.term,
            data: self.data@,
        }
    }
}

impl DeepView for Entry {
    type V = EntryV;

    open spec fn deep_view(&self) -> EntryV {
        self@
    }
}

impl Entry {
    /// Build an entry from its four attributes.
    pub fn new(entry_type: EntryType, index: u64, term: u64, data: Vec<u8>) -> (r: Entry)
        ensures
            r@ == (EntryV { entry_type, index, term, data: data@ }),
    {
        Entry { entry_type, index, term, data }
    }

    /// Copy an entry; the copy has the same image as the original.
    pub fn dup(&self) -> (r: Entry)
        ensures
            r@ == self@,
    {
        let mut bytes: Vec<u8> = Vec::new();
        let mut i: usize = 0;
        while i < self.data.len()
            invariant
                i <= self.data.len(),
                bytes@ == self.data@.subrange(0, i as int),
            decreases self.data.len() - i,
        {
            bytes.push(self.data[i]);
            i = i + 1;
        }
        proof {
            assert(bytes@ == self.data@);
        }
        Entry { entry_type: self.entry_type, index: self.index, term: self.term, data: bytes }
    }
}

/// Persisted voting state: current term, vote, and commit index.
#[derive(Clone, Copy, Debug, PartialEq, Eq, Structural)]
pub struct HardState {
    pub term: u64,
    pub vote: u64,
    pub commit: u64,
}

/// The hard state of a node that has never voted or committed.
pub open spec fn hard_state_default() -> HardState {
    HardState { term: 0, vote: 0, commit: 0 }
}

impl Default for HardState {
    fn default() -> (r: HardState)
        ensures
            r == hard_state_default(),
    {
        HardState { term: 0, vote: 0, commit: 0 }
    }
}

/// Cluster membership: voter and learner node IDs.
#[derive(Clone, Debug, PartialEq, Eq)]
pub struct ConfState {
    pub voters: Vec<u64>,
    pub learners: Vec<u64>,
}

/// Mathematical image of a [`ConfState`].
pub ghost struct ConfStateV {
    pub voters: Seq<u64>,
    pub learners: Seq<u64>,
}

impl View for ConfState {
    type V = ConfStateV;

    open spec fn view(&self) -> ConfStateV {
        ConfStateV { voters: self.voters@, learners: self.learners@ }
    }
}

/// The membership of a cluster nobody has joined.
pub open spec fn conf_state_default() -> ConfStateV {
    ConfStateV { voters: Seq::empty(), learners: Seq::empty() }
}

impl ConfState {
    /// An empty membership.
    pub fn new() -> (r: ConfState)
        ensures
            r@ == conf_state_default(),
    {
        ConfState { voters: Vec::new(), learners: Vec::new() }
    }

    /// Copy a membership; the copy has the same image as the original.
    pub fn dup(&self) -> (r: ConfState)
        ensures
            r@ == self@,
    {
        ConfState { voters: copy_u64_vec(&self.voters), learners: copy_u64_vec(&self.learners) }
    }
}

/// Copy a vector of node IDs element by element.
pub fn copy_u64_vec(v: &Vec<u64>) -> (r: Vec<u64>)
    ensures
        r@ == v@,
{
    let mut out: Vec<u64> = Vec::new();
    let mut i: usize = 0;
    while i < v.len()
        invariant
            i <= v.len(),
            out@ == v@.subrange(0, i as int),
        decreases v.len() - i,
    {
        out.push(v[i]);
        i = i + 1;
    }
    proof {
        assert(out@ == v@);
    }
    out
}

/// Watermark of a snapshot: no entry at or below `index` is retained.
#[derive(Clone, Debug, PartialEq, Eq)]
pub struct SnapshotMetadata {
    pub index: u64,
    pub term: u64,
    pub conf_state: ConfState,
}

/// Mathematical image of a [`SnapshotMetadata`].
pub ghost struct SnapshotMetadataV {
    pub index: u64,
    pub term: u64,
    pub conf_state: ConfStateV,
}

impl View for SnapshotMetadata {
    type V = SnapshotMetadataV;

    open spec fn view(&self) -> SnapshotMetadataV {
        SnapshotMetadataV { index: self.index, term: self.term, conf_state: self.conf_state@ }
    }
}

/// The metadata of a store that never took a snapshot.
pub open spec fn snapshot_metadata_default() -> SnapshotMetadataV {
    SnapshotMetadataV { index: 0, term: 0, conf_state: conf_state_default() }
}

impl SnapshotMetadata {
    /// Metadata of the empty snapshot.
    pub fn new() -> (r: SnapshotMetadata)
        ensures
            r@ == snapshot_metadata_default(),
    {
        SnapshotMetadata { index: 0, term: 0, conf_state: ConfState::new() }
    }

    /// Copy snapshot metadata; the copy has the same image as the original.
    pub fn dup(&self) -> (r: SnapshotMetadata)
        ensures
            r@ == self@,
    {
        SnapshotMetadata { index: self.index, term: self.term, conf_state: self.conf_state.dup() }
    }
}

/// A compacted prefix of the log: metadata plus opaque application bytes.
#[derive(Clone, Debug, PartialEq, Eq)]
pub struct Snapshot {
    pub metadata: SnapshotMetadata,
    pub data: Vec<u8>,
}

/// Mathematical image of a [`Snapshot`].
pub ghost struct SnapshotV {
    pub metadata: SnapshotMetadataV,
    pub data: Seq<u8>,
}

impl View for Snapshot {
    type V = SnapshotV;

    open spec fn view(&self) -> SnapshotV {
        SnapshotV { metadata: self.metadata@, data: self.data@ }
    }
}

/// Derived view handed to the consensus node at start: hard plus conf state.
pub struct RaftState {
    pub hard_state: HardState,
    pub conf_state: ConfState,
}

/// Error taxonomy of the storage and driver layers.
#[derive(Clone, Copy, Debug, PartialEq, Eq, Structural)]
pub enum RaftError {
    /// The requested position lies below the first retained index.
    Compacted,
    /// The requested position lies above the last stored index.
    Unavailable,
    /// The offered snapshot is older than what the store already holds.
    SnapshotOutOfDate,
    /// No snapshot can be produced right now; the next request must succeed.
    SnapshotTemporarilyUnavailable,
    /// The underlying engine failed.
    StorageIO,
    /// A stored value could not be decoded.
    Decode,
    /// A value could not be encoded.
    Encode,
    /// A proposal reached a node that is not the leader.
    NotLeader,
    /// Shutdown is in progress.
    Cancelled,
}

/// One write the storage core asks the persistence engine to perform.
/// Payload-carrying records are read back from the core at execution time;
/// the operation itself names the logical record and, for entries, the index.
#[derive(Clone, Copy, Debug, PartialEq, Eq, Structural)]
pub enum WriteOp {
    SetFirstIndex(u64),
    DeleteFirstIndex,
    SetLastIndex(u64),
    DeleteLastIndex,
    SetEntry(u64),
    DeleteEntry(u64),
    SetHardState,
    SetConfState,
    SetSnapshotMetadata,
    PersistUncommit,
}

} // verus!
