//! The log-storage core: ordered entries, hard and conf state, snapshot
//! metadata and the uncommitted-index map, with the invariants that make the
//! replicated log sound.
//!
//! The core is the in-memory truth. Every mutation also appends [`WriteOp`]
//! records to `pending`, in the order in which a persistence engine must
//! perform them under the documented key schema; an engine outside this crate
//! drains `pending` and executes the writes. A store is reopened from the
//! persisted records through [`RaftRocksDBStorageCore::open`].

use vstd::prelude::*;

use std::collections::HashMap;

use crate::state::ConfState;
use crate::state::ConfStateV;
use crate::state::Entry;
use crate::state::EntryV;
use crate::state::HardState;
use crate::state::RaftError;
use crate::state::RaftState;
use crate::state::Snapshot;
use crate::state::SnapshotMetadata;
use crate::state::WriteOp;
use crate::state::hard_state_default;
use crate::state::conf_state_default;
use crate::state::snapshot_metadata_default;

verus! {

broadcast use vstd::std_specs::hash::group_hash_axioms;

/// The images of a sequence of entries.
pub open spec fn images_of(es: Seq<Entry>) -> Seq<EntryV> {
    es.map(|i: int, e: Entry| e@)
}

/// A batch of entries whose indices rise by one from the first.
pub open spec fn batch_contiguous(es: Seq<EntryV>) -> bool {
    forall|j: int| 0 <= j < es.len() ==> (#[trigger] es[j]).index == es[0].index + j
}

/// The image of an optional conf state.
pub open spec fn opt_cs_view(o: Option<ConfState>) -> Option<ConfStateV> {
    match o {
        Some(c) => Some(c@),
        None => None,
    }
}

/// The larger of two terms.
pub open spec fn max64(a: u64, b: u64) -> u64 {
    if a >= b {
        a
    } else {
        b
    }
}

/// The replicated-log storage core.
///
/// Entries form the contiguous range `[first, last]` of the log that the
/// snapshot has not compacted away; `first` and `last` fall back to the
/// snapshot index when no explicit record exists. The uncommitted-index map
/// marks entries that were appended but whose application has not yet been
/// acknowledged.
pub struct RaftRocksDBStorageCore {
    /// Stored entries, ascending and dense by index.
    pub entries: Vec<Entry>,
    /// Explicit first-index record, if one was persisted.
    pub first_index_rec: Option<u64>,
    /// Explicit last-index record, if one was persisted.
    pub last_index_rec: Option<u64>,
    /// Persisted hard state, if any.
    pub hard_state_rec: Option<HardState>,
    /// Persisted conf state, if any.
    pub conf_state_rec: Option<ConfState>,
    /// Metadata of the snapshot below which the log is compacted.
    pub snapshot_metadata: SnapshotMetadata,
    /// When armed, the next snapshot request fails once and disarms.
    pub trigger_snap_unavailable: bool,
    /// Index -> marker map of appended entries not yet applied.
    pub uncommit_index: HashMap<u64, i8>,
    /// Writes owed to the persistence engine, oldest first.
    pub pending: Vec<WriteOp>,
}

impl RaftRocksDBStorageCore {
    /// The images of the stored entries.
    pub open spec fn entry_images(&self) -> Seq<EntryV> {
        images_of(self.entries@)
    }

    /// The snapshot watermark.
    pub open spec fn snap_index(&self) -> int {
        self.snapshot_metadata.index as int
    }

    /// First retained index: the explicit record, else one past the snapshot.
    pub open spec fn spec_first_index(&self) -> int {
        match self.first_index_rec {
            Some(v) => v as int,
            None => self.snap_index() + 1,
        }
    }

    /// Last stored index: the explicit record, else the snapshot index.
    pub open spec fn spec_last_index(&self) -> int {
        match self.last_index_rec {
            Some(v) => v as int,
            None => self.snap_index(),
        }
    }

    /// The hard state, defaulted when none was persisted.
    pub open spec fn spec_hard_state(&self) -> HardState {
        match self.hard_state_rec {
            Some(h) => h,
            None => hard_state_default(),
        }
    }

    /// The conf state image, defaulted when none was persisted.
    pub open spec fn spec_conf_state(&self) -> ConfStateV {
        match self.conf_state_rec {
            Some(c) => c@,
            None => conf_state_default(),
        }
    }

    /// The commit index of the hard state.
    pub open spec fn spec_commit(&self) -> int {
        self.spec_hard_state().commit as int
    }

    /// Whether index `i` holds a stored entry.
    pub open spec fn stores(&self, i: int) -> bool {
        self.spec_first_index() <= i <= self.spec_last_index()
    }

    /// The image of the stored entry at index `i`.
    pub open spec fn entry_at(&self, i: int) -> EntryV
        recommends
            self.stores(i),
    {
        self.entry_images()[i - self.spec_first_index()]
    }

    /// Well-formedness: the log shape invariants.
    ///
    /// The first retained index never exceeds the last stored index by more
    /// than one, the stored entries are exactly the dense range between the
    /// two, and the commit index never falls below the snapshot watermark.
    pub open spec fn wf(&self) -> bool {
        &&& self.snapshot_metadata.index < u64::MAX
        &&& self.spec_last_index() < u64::MAX
        &&& 1 <= self.spec_first_index()
        &&& self.spec_first_index() <= self.spec_last_index() + 1
        &&& self.entries@.len() == self.spec_last_index() + 1 - self.spec_first_index()
        &&& forall|j: int|
            0 <= j < self.entries@.len() ==> (#[trigger] self.entries@[j])@.index
                == self.spec_first_index() + j
        &&& self.spec_commit() >= self.snap_index()
    }

    /// A fresh store: nothing persisted, nothing stored.
    pub fn new() -> (r: Self)
        ensures
            r.wf(),
            r.entries@.len() == 0,
            r.first_index_rec is None,
            r.last_index_rec is None,
            r.hard_state_rec is None,
            r.conf_state_rec is None,
            r.snapshot_metadata@ == snapshot_metadata_default(),
            r.trigger_snap_unavailable == false,
            r.uncommit_index@ == Map::<u64, i8>::empty(),
            r.pending@ == Seq::<WriteOp>::empty(),
            r.spec_first_index() == 1,
            r.spec_last_index() == 0,
            r.spec_hard_state() == hard_state_default(),
            r.spec_conf_state() == conf_state_default(),
    {
        RaftRocksDBStorageCore {
            entries: Vec::new(),
            first_index_rec: None,
            last_index_rec: None,
            hard_state_rec: None,
            conf_state_rec: None,
            snapshot_metadata: SnapshotMetadata::new(),
            trigger_snap_unavailable: false,
            uncommit_index: HashMap::new(),
            pending: Vec::new(),
        }
    }

    /// Index of the first retained entry.
    pub fn first_index(&self) -> (r: u64)
        requires
            self.wf(),
        ensures
            r as int == self.spec_first_index(),
    {
        match self.first_index_rec {
            Some(v) => v,
            None => self.snapshot_metadata.index + 1,
        }
    }

    /// Index of the last stored entry.
    pub fn last_index(&self) -> (r: u64)
        requires
            self.wf(),
        ensures
            r as int == self.spec_last_index(),
    {
        match self.last_index_rec {
            Some(v) => v,
            None => self.snapshot_metadata.index,
        }
    }

    /// The persisted hard state, defaulted when absent.
    pub fn hard_state(&self) -> (r: HardState)
        ensures
            r == self.spec_hard_state(),
    {
        match self.hard_state_rec {
            Some(h) => h,
            None => HardState::default(),
        }
    }

    /// The persisted conf state, defaulted when absent.
    pub fn conf_state(&self) -> (r: ConfState)
        ensures
            r@ == self.spec_conf_state(),
    {
        match &self.conf_state_rec {
            Some(c) => c.dup(),
            None => ConfState::new(),
        }
    }

    /// The state handed to the consensus node at start: hard plus conf state.
    pub fn raft_state(&self) -> (r: RaftState)
        ensures
            r.hard_state == self.spec_hard_state(),
            r.conf_state@ == self.spec_conf_state(),
    {
        RaftState { hard_state: self.hard_state(), conf_state: self.conf_state() }
    }

    /// Persist the first-index record, which must restate the current value.
    pub fn save_first_index(&mut self, index: u64) -> (r: Result<(), String>)
        requires
            old(self).wf(),
            index as int == old(self).spec_first_index(),
        ensures
            r is Ok,
            final(self).wf(),
            final(self).first_index_rec == Some(index),
            final(self).pending@ == old(self).pending@.push(WriteOp::SetFirstIndex(index)),
            final(self).entries == old(self).entries,
            final(self).last_index_rec == old(self).last_index_rec,
            final(self).hard_state_rec == old(self).hard_state_rec,
            final(self).conf_state_rec == old(self).conf_state_rec,
            final(self).snapshot_metadata == old(self).snapshot_metadata,
            final(self).trigger_snap_unavailable == old(self).trigger_snap_unavailable,
            final(self).uncommit_index@ == old(self).uncommit_index@,
    {
        self.first_index_rec = Some(index);
        self.pending.push(WriteOp::SetFirstIndex(index));
        Ok(())
    }

    /// Persist the last-index record, which must restate the current value.
    pub fn save_last_index(&mut self, index: u64) -> (r: Result<(), String>)
        requires
            old(self).wf(),
            index as int == old(self).spec_last_index(),
        ensures
            r is Ok,
            final(self).wf(),
            final(self).last_index_rec == Some(index),
            final(self).pending@ == old(self).pending@.push(WriteOp::SetLastIndex(index)),
            final(self).entries == old(self).entries,
            final(self).first_index_rec == old(self).first_index_rec,
            final(self).hard_state_rec == old(self).hard_state_rec,
            final(self).conf_state_rec == old(self).conf_state_rec,
            final(self).snapshot_metadata == old(self).snapshot_metadata,
            final(self).trigger_snap_unavailable == old(self).trigger_snap_unavailable,
            final(self).uncommit_index@ == old(self).uncommit_index@,
    {
        self.last_index_rec = Some(index);
        self.pending.push(WriteOp::SetLastIndex(index));
        Ok(())
    }

    /// Overwrite the stored entry at `index` in place.
    pub fn save_entry(&mut self, index: u64, value: Entry) -> (r: Result<(), String>)
        requires
            old(self).wf(),
            value@.index == index,
            old(self).stores(index as int),
        ensures
            r is Ok,
            final(self).wf(),
            final(self).entry_images() == old(self).entry_images().update(
                index as int - old(self).spec_first_index(),
                value@,
            ),
            final(self).pending@ == old(self).pending@.push(WriteOp::SetEntry(index)),
            final(self).first_index_rec == old(self).first_index_rec,
            final(self).last_index_rec == old(self).last_index_rec,
            final(self).hard_state_rec == old(self).hard_state_rec,
            final(self).conf_state_rec == old(self).conf_state_rec,
            final(self).snapshot_metadata == old(self).snapshot_metadata,
            final(self).trigger_snap_unavailable == old(self).trigger_snap_unavailable,
            final(self).uncommit_index@ == old(self).uncommit_index@,
    {
        let first = self.first_index();
        let n = self.entries.len();
        proof {
            assert(index - first < n as u64);
        }
        let pos = (index - first) as usize;
        self.entries.remove(pos);
        self.entries.insert(pos, value);
        self.pending.push(WriteOp::SetEntry(index));
        proof {
            assert(self.entry_images() =~= old(self).entry_images().update(
                index as int - old(self).spec_first_index(),
                value@,
            ));
        }
        Ok(())
    }

    /// Persist the hard state. The commit index may not fall below the
    /// snapshot watermark.
    pub fn save_hard_state(&mut self, hs: HardState) -> (r: Result<(), String>)
        requires
            old(self).wf(),
            hs.commit >= old(self).snapshot_metadata.index,
        ensures
            r is Ok,
            final(self).wf(),
            final(self).hard_state_rec == Some(hs),
            final(self).spec_hard_state() == hs,
            final(self).pending@ == old(self).pending@.push(WriteOp::SetHardState),
            final(self).entries == old(self).entries,
            final(self).first_index_rec == old(self).first_index_rec,
            final(self).last_index_rec == old(self).last_index_rec,
            final(self).conf_state_rec == old(self).conf_state_rec,
            final(self).snapshot_metadata == old(self).snapshot_metadata,
            final(self).trigger_snap_unavailable == old(self).trigger_snap_unavailable,
            final(self).uncommit_index@ == old(self).uncommit_index@,
    {
        self.hard_state_rec = Some(hs);
        self.pending.push(WriteOp::SetHardState);
        Ok(())
    }

    /// Advance the commit index of the hard state, keeping term and vote.
    pub fn set_hard_state_commit(&mut self, commit: u64) -> (r: Result<(), String>)
        requires
            old(self).wf(),
            commit >= old(self).snapshot_metadata.index,
        ensures
            r is Ok,
            final(self).wf(),
            final(self).spec_hard_state() == (HardState {
                commit,
                ..old(self).spec_hard_state()
            }),
            final(self).spec_commit() == commit as int,
            final(self).pending@ == old(self).pending@.push(WriteOp::SetHardState),
            final(self).entries == old(self).entries,
            final(self).first_index_rec == old(self).first_index_rec,
            final(self).last_index_rec == old(self).last_index_rec,
            final(self).conf_state_rec == old(self).conf_state_rec,
            final(self).snapshot_metadata == old(self).snapshot_metadata,
            final(self).trigger_snap_unavailable == old(self).trigger_snap_unavailable,
            final(self).uncommit_index@ == old(self).uncommit_index@,
    {
        let mut hs = self.hard_state();
        hs.commit = commit;
        self.save_hard_state(hs)
    }

    /// Persist the conf state.
    pub fn save_conf_state(&mut self, cs: ConfState) -> (r: Result<(), String>)
        requires
            old(self).wf(),
        ensures
            r is Ok,
            final(self).wf(),
            final(self).spec_conf_state() == cs@,
            opt_cs_view(final(self).conf_state_rec) == Some(cs@),
            final(self).pending@ == old(self).pending@.push(WriteOp::SetConfState),
            final(self).entries == old(self).entries,
            final(self).first_index_rec == old(self).first_index_rec,
            final(self).last_index_rec == old(self).last_index_rec,
            final(self).hard_state_rec == old(self).hard_state_rec,
            final(self).snapshot_metadata == old(self).snapshot_metadata,
            final(self).trigger_snap_unavailable == old(self).trigger_snap_unavailable,
            final(self).uncommit_index@ == old(self).uncommit_index@,
    {
        self.conf_state_rec = Some(cs);
        self.pending.push(WriteOp::SetConfState);
        Ok(())
    }

    /// Ask the engine to rewrite the uncommitted-index blob from the map.
    pub fn save_uncommit_index(&mut self)
        ensures
            final(self).pending@ == old(self).pending@.push(WriteOp::PersistUncommit),
            final(self).entries == old(self).entries,
            final(self).first_index_rec == old(self).first_index_rec,
            final(self).last_index_rec == old(self).last_index_rec,
            final(self).hard_state_rec == old(self).hard_state_rec,
            final(self).conf_state_rec == old(self).conf_state_rec,
            final(self).snapshot_metadata == old(self).snapshot_metadata,
            final(self).trigger_snap_unavailable == old(self).trigger_snap_unavailable,
            final(self).uncommit_index@ == old(self).uncommit_index@,
    {
        self.pending.push(WriteOp::PersistUncommit);
    }

    /// Drop the uncommitted mark of `idx` after its application was
    /// acknowledged; absent indices are a no-op. The map is persisted either
    /// way.
    pub fn commmit_index(&mut self, idx: u64) -> (r: Result<(), RaftError>)
        requires
            old(self).wf(),
        ensures
            r is Ok,
            final(self).wf(),
            final(self).uncommit_index@ == old(self).uncommit_index@.remove(idx),
            final(self).pending@ == old(self).pending@.push(WriteOp::PersistUncommit),
            final(self).entries == old(self).entries,
            final(self).first_index_rec == old(self).first_index_rec,
            final(self).last_index_rec == old(self).last_index_rec,
            final(self).hard_state_rec == old(self).hard_state_rec,
            final(self).conf_state_rec == old(self).conf_state_rec,
            final(self).snapshot_metadata == old(self).snapshot_metadata,
            final(self).trigger_snap_unavailable == old(self).trigger_snap_unavailable,
    {
        self.uncommit_index.remove(&idx);
        self.save_uncommit_index();
        Ok(())
    }

    /// Read the stored entry at `idx`, if the log holds that index.
    pub fn entry_by_idx(&self, idx: u64) -> (r: Option<Entry>)
        requires
            self.wf(),
        ensures
            self.stores(idx as int) ==> (r matches Some(e) && e@ == self.entry_at(idx as int)),
            !self.stores(idx as int) ==> r is None,
    {
        let first = self.first_index();
        let last = self.last_index();
        if idx < first || idx > last {
            return None;
        }
        let n = self.entries.len();
        proof {
            assert(idx - first < n as u64);
        }
        let pos = (idx - first) as usize;
        Some(self.entries[pos].dup())
    }

    /// Drop every stored entry together with the explicit index records,
    /// leaving the log empty at the snapshot watermark.
    pub fn truncate_entry(&mut self)
        requires
            old(self).wf(),
        ensures
            final(self).wf(),
            final(self).entries@.len() == 0,
            final(self).first_index_rec is None,
            final(self).last_index_rec is None,
            final(self).spec_first_index() == old(self).snap_index() + 1,
            final(self).spec_last_index() == old(self).snap_index(),
            final(self).pending@ == old(self).pending@ + truncate_ops(*old(self)),
            final(self).hard_state_rec == old(self).hard_state_rec,
            final(self).conf_state_rec == old(self).conf_state_rec,
            final(self).snapshot_metadata == old(self).snapshot_metadata,
            final(self).trigger_snap_unavailable == old(self).trigger_snap_unavailable,
            final(self).uncommit_index@ == old(self).uncommit_index@,
    {
        let first = self.first_index();
        let last = self.last_index();
        self.pending.push(WriteOp::DeleteFirstIndex);
        self.first_index_rec = None;
        self.pending.push(WriteOp::DeleteLastIndex);
        self.last_index_rec = None;
        let ghost pre_loop_pending = self.pending@;
        let mut i: u64 = first;
        while i <= last
            invariant
                first <= i,
                i <= last + 1,
                last < u64::MAX,
                self.pending@ == pre_loop_pending + Seq::new(
                    (i - first) as nat,
                    |j: int| WriteOp::DeleteEntry((first + j) as u64),
                ),
                self.entries == old(self).entries,
                self.first_index_rec is None,
                self.last_index_rec is None,
                self.hard_state_rec == old(self).hard_state_rec,
                self.conf_state_rec == old(self).conf_state_rec,
                self.snapshot_metadata == old(self).snapshot_metadata,
                self.trigger_snap_unavailable == old(self).trigger_snap_unavailable,
                self.uncommit_index@ == old(self).uncommit_index@,
            decreases last + 1 - i,
        {
            self.pending.push(WriteOp::DeleteEntry(i));
            proof {
                assert(self.pending@ =~= pre_loop_pending + Seq::new(
                    (i + 1 - first) as nat,
                    |j: int| WriteOp::DeleteEntry((first + j) as u64),
                ));
            }
            i = i + 1;
        }
        self.entries.clear();
        proof {
            assert(self.pending@ =~= old(self).pending@ + truncate_ops(*old(self)));
        }
    }
}

/// The writes a full truncation owes the engine: both index records deleted,
/// then every stored entry deleted in ascending index order.
pub open spec fn truncate_ops(pre: RaftRocksDBStorageCore) -> Seq<WriteOp> {
    seq![WriteOp::DeleteFirstIndex, WriteOp::DeleteLastIndex] + Seq::new(
        pre.entries@.len() as nat,
        |j: int| WriteOp::DeleteEntry((pre.spec_first_index() + j) as u64),
    )
}

/// The writes an append of the batch `es` owes the engine: every index from
/// the batch start through the old last entry deleted, then every batch entry
/// written, then the last-index record, then the uncommitted map.
pub open spec fn append_ops(pre: RaftRocksDBStorageCore, es: Seq<EntryV>) -> Seq<WriteOp> {
    let e0 = es[0].index as int;
    let nl = e0 + es.len() - 1;
    let old_last = pre.spec_last_index();
    let del_count = if old_last >= e0 {
        old_last + 1 - e0
    } else {
        0
    };
    Seq::new(del_count as nat, |j: int| WriteOp::DeleteEntry((e0 + j) as u64)) + Seq::new(
        es.len(),
        |j: int| WriteOp::SetEntry((e0 + j) as u64),
    ) + seq![WriteOp::SetLastIndex(nl as u64), WriteOp::PersistUncommit]
}

/// How a non-empty append changes the store: the suffix from the batch start
/// is replaced by the batch, the last index moves to the batch end, every
/// index from the batch start through the old last loses its uncommitted
/// mark, every batch index gains one, and the engine is owed [`append_ops`].
pub open spec fn append_effect(
    pre: RaftRocksDBStorageCore,
    post: RaftRocksDBStorageCore,
    es: Seq<EntryV>,
) -> bool {
    let e0 = es[0].index as int;
    let nl = e0 + es.len() - 1;
    &&& post.first_index_rec == pre.first_index_rec
    &&& post.hard_state_rec == pre.hard_state_rec
    &&& post.conf_state_rec == pre.conf_state_rec
    &&& post.snapshot_metadata == pre.snapshot_metadata
    &&& post.trigger_snap_unavailable == pre.trigger_snap_unavailable
    &&& post.last_index_rec == Some(nl as u64)
    &&& post.spec_last_index() == nl
    &&& post.entry_images() == pre.entry_images().subrange(0, e0 - pre.spec_first_index()) + es
    &&& (forall|k: u64|
        post.uncommit_index@.contains_key(k) <==> ((pre.uncommit_index@.contains_key(k) && !(e0
            <= k as int <= pre.spec_last_index())) || (e0 <= k as int <= nl)))
    &&& post.pending@ == pre.pending@ + append_ops(pre, es)
}

impl RaftRocksDBStorageCore {
    /// Append a contiguous batch to the log.
    ///
    /// The batch must start no earlier than the first retained index (an
    /// earlier start would overwrite compacted history) and no later than one
    /// past the last stored index (a later start would leave a gap). Any
    /// existing suffix from the batch start on is truncated first, so a
    /// conflicting tail is deleted before the new entries are written.
    #[verifier::rlimit(60)]
    pub fn append(&mut self, entrys: &Vec<Entry>) -> (r: Result<(), RaftError>)
        requires
            old(self).wf(),
            batch_contiguous(images_of(entrys@)),
            entrys@.len() > 0 ==> old(self).spec_first_index() <= entrys@[0]@.index as int,
            entrys@.len() > 0 ==> entrys@[0]@.index as int <= old(self).spec_last_index() + 1,
            entrys@.len() > 0 ==> entrys@[0]@.index + entrys@.len() - 1 < u64::MAX,
        ensures
            r is Ok,
            final(self).wf(),
            entrys@.len() == 0 ==> *final(self) == *old(self),
            entrys@.len() > 0 ==> append_effect(*old(self), *final(self), images_of(entrys@)),
    {
        if entrys.len() == 0 {
            return Ok(());
        }
        let ghost es = images_of(entrys@);
        proof {
            assert(es.len() == entrys@.len());
            assert(es[0] == entrys@[0]@);
        }
        let e0 = entrys[0].index;
        let first = self.first_index();
        let old_last = self.last_index();
        let n = entrys.len();
        let nl = e0 + (n as u64 - 1);
        let cur_len = self.entries.len();
        proof {
            assert(e0 - first <= cur_len as u64);
        }
        let keep = (e0 - first) as usize;
        self.entries.truncate(keep);
        proof {
            assert(self.entry_images() =~= old(self).entry_images().subrange(0, e0 - first));
        }
        let ghost trunc_images = self.entry_images();
        let ghost pre_loop_pending = self.pending@;

        // Delete the old suffix from the batch start on, dropping its
        // uncommitted marks with it.
        let mut i: u64 = e0;
        while i <= old_last
            invariant
                e0 <= i,
                i <= old_last + 1 || i == e0,
                old_last < u64::MAX,
                self.pending@ == pre_loop_pending + Seq::new(
                    (if i >= e0 { i - e0 } else { 0 }) as nat,
                    |j: int| WriteOp::DeleteEntry((e0 + j) as u64),
                ),
                forall|k: u64|
                    self.uncommit_index@.contains_key(k) <==> (old(
                        self,
                    ).uncommit_index@.contains_key(k) && !(e0 <= k < i)),
                self.entries@ == old(self).entries@.subrange(0, e0 - first),
                self.first_index_rec == old(self).first_index_rec,
                self.last_index_rec == old(self).last_index_rec,
                self.hard_state_rec == old(self).hard_state_rec,
                self.conf_state_rec == old(self).conf_state_rec,
                self.snapshot_metadata == old(self).snapshot_metadata,
                self.trigger_snap_unavailable == old(self).trigger_snap_unavailable,
            decreases old_last + 1 - i,
        {
            self.uncommit_index.remove(&i);
            self.pending.push(WriteOp::DeleteEntry(i));
            proof {
                assert(self.pending@ =~= pre_loop_pending + Seq::new(
                    (i + 1 - e0) as nat,
                    |j: int| WriteOp::DeleteEntry((e0 + j) as u64),
                ));
            }
            i = i + 1;
        }
        let ghost post_del_pending = self.pending@;
        let ghost post_del_map = self.uncommit_index@;

        // Write the batch: store each entry and mark it uncommitted.
        let ghost keep_len = trunc_images.len() as int;
        let mut j: usize = 0;
        while j < n
            invariant
                j <= n,
                n == entrys@.len(),
                es == images_of(entrys@),
                batch_contiguous(es),
                es.len() == n,
                es[0].index == e0,
                e0 + n - 1 < u64::MAX,
                keep_len == trunc_images.len(),
                self.entries@.len() == keep_len + j,
                forall|q: int|
                    0 <= q < keep_len ==> (#[trigger] self.entries@[q])@ == trunc_images[q],
                forall|q: int|
                    keep_len <= q < keep_len + j ==> (#[trigger] self.entries@[q])@ == es[q
                        - keep_len],
                self.pending@ == post_del_pending + Seq::new(
                    j as nat,
                    |q: int| WriteOp::SetEntry((e0 + q) as u64),
                ),
                forall|k: u64|
                    self.uncommit_index@.contains_key(k) <==> (post_del_map.contains_key(k) || ((e0
                        <= (k as int)) && ((k as int) < e0 + j))),
                self.first_index_rec == old(self).first_index_rec,
                self.last_index_rec == old(self).last_index_rec,
                self.hard_state_rec == old(self).hard_state_rec,
                self.conf_state_rec == old(self).conf_state_rec,
                self.snapshot_metadata == old(self).snapshot_metadata,
                self.trigger_snap_unavailable == old(self).trigger_snap_unavailable,
            decreases n - j,
        {
            let e = entrys[j].dup();
            proof {
                assert(es[j as int] == entrys@[j as int]@);
                assert(e@ == es[j as int]);
            }
            self.uncommit_index.insert(e.index, 1i8);
            self.pending.push(WriteOp::SetEntry(e.index));
            self.entries.push(e);
            proof {
                assert(self.pending@ =~= post_del_pending + Seq::new(
                    (j + 1) as nat,
                    |q: int| WriteOp::SetEntry((e0 + q) as u64),
                ));
            }
            j = j + 1;
        }

        self.last_index_rec = Some(nl);
        self.pending.push(WriteOp::SetLastIndex(nl));
        self.save_uncommit_index();
        proof {
            assert forall|k: u64| #[trigger] self.uncommit_index@.contains_key(k) implies ((old(
                self,
            ).uncommit_index@.contains_key(k) && !((e0 as int) <= (k as int) && (k as int) <= old(
                self,
            ).spec_last_index())) || ((e0 as int) <= (k as int) && (k as int) <= (nl as int))) by {
                assert(post_del_map.contains_key(k) || ((e0 <= k) && (k as int) < e0 as int
                    + n as int));
            }
            assert forall|q: int| 0 <= q < self.entries@.len() implies #[trigger] self.entry_images()[q]
                == (trunc_images + es)[q] by {
                assert(self.entry_images()[q] == self.entries@[q]@);
            }
            assert(self.entry_images() =~= trunc_images + es);
            assert(trunc_images == old(self).entry_images().subrange(0, e0 - first));
            assert(self.pending@ =~= old(self).pending@ + append_ops(*old(self), es));
            assert forall|q: int| 0 <= q < self.entries@.len() implies (
            #[trigger] self.entries@[q])@.index == self.spec_first_index() + q by {
                if q < keep_len {
                    assert(self.entries@[q]@ == trunc_images[q]);
                    assert(trunc_images[q] == old(self).entry_images()[q]);
                    assert(old(self).entry_images()[q] == old(self).entries@[q]@);
                } else {
                    assert(self.entries@[q]@ == es[q - keep_len]);
                }
            }
            assert(self.entry_images() == old(self).entry_images().subrange(0, e0 - first) + es);
            assert(append_effect(*old(self), *self, es));
        }
        Ok(())
    }
}

/// The last index after applying a snapshot at `idx`: unchanged when entries
/// survive above the watermark, else the watermark itself.
pub open spec fn snap_new_last(pre: RaftRocksDBStorageCore, idx: int) -> int {
    if pre.spec_last_index() > idx {
        pre.spec_last_index()
    } else {
        idx
    }
}

/// The highest index whose entry a snapshot at `idx` deletes: the watermark,
/// capped at the last stored entry.
pub open spec fn snap_del_hi(pre: RaftRocksDBStorageCore, idx: int) -> int {
    if pre.spec_last_index() < idx {
        pre.spec_last_index()
    } else {
        idx
    }
}

/// The writes a snapshot application owes the engine: metadata, hard state,
/// the index records, the deletions of the compacted prefix in ascending
/// order, conf state, and the uncommitted map, in that order.
pub open spec fn snapshot_ops(pre: RaftRocksDBStorageCore, idx: int) -> Seq<WriteOp> {
    seq![WriteOp::SetSnapshotMetadata, WriteOp::SetHardState, WriteOp::DeleteFirstIndex] + (if pre.spec_last_index() > idx {
        seq![WriteOp::SetLastIndex(pre.spec_last_index() as u64)]
    } else {
        seq![WriteOp::DeleteLastIndex]
    }) + Seq::new(
        (snap_del_hi(pre, idx) + 1 - pre.spec_first_index()) as nat,
        |j: int| WriteOp::DeleteEntry((pre.spec_first_index() + j) as u64),
    ) + seq![WriteOp::SetConfState, WriteOp::PersistUncommit]
}

/// How applying the snapshot `s` changes the store: the watermark moves to
/// the snapshot, the prefix at or below it is compacted away while any
/// stored suffix above it survives, the hard state commits at the snapshot
/// index under the larger of the two terms, the membership is taken from the
/// snapshot, and the compacted entries lose their uncommitted marks.
pub open spec fn snapshot_effect(
    pre: RaftRocksDBStorageCore,
    post: RaftRocksDBStorageCore,
    s: crate::state::SnapshotV,
) -> bool {
    let idx = s.metadata.index as int;
    &&& post.snapshot_metadata@ == s.metadata
    &&& post.first_index_rec is None
    &&& post.spec_first_index() == idx + 1
    &&& (if pre.spec_last_index() > idx {
        post.last_index_rec == Some(pre.spec_last_index() as u64)
    } else {
        post.last_index_rec is None
    })
    &&& post.spec_last_index() == snap_new_last(pre, idx)
    &&& post.entry_images() == (if pre.spec_last_index() > idx {
        pre.entry_images().subrange(idx + 1 - pre.spec_first_index(), pre.entries@.len() as int)
    } else {
        Seq::<EntryV>::empty()
    })
    &&& post.hard_state_rec == Some(
        HardState {
            term: max64(pre.spec_hard_state().term, s.metadata.term),
            vote: 0,
            commit: s.metadata.index,
        },
    )
    &&& post.spec_commit() == s.metadata.index
    &&& opt_cs_view(post.conf_state_rec) == Some(s.metadata.conf_state)
    &&& (forall|k: u64|
        post.uncommit_index@.contains_key(k) <==> (pre.uncommit_index@.contains_key(k) && !(
        pre.spec_first_index() <= k as int && k as int <= snap_del_hi(pre, idx))))
    &&& post.trigger_snap_unavailable == pre.trigger_snap_unavailable
    &&& post.pending@ == pre.pending@ + snapshot_ops(pre, idx)
}

/// What a synthesized snapshot looks like: its index is the commit index,
/// its term is the snapshot term at the watermark or else the stored entry's
/// term at the commit index, its membership is the current conf state, and it
/// carries no application bytes.
pub open spec fn snapshot_shape(pre: RaftRocksDBStorageCore, s: crate::state::SnapshotV) -> bool {
    &&& s.metadata.index as int == pre.spec_commit()
    &&& s.metadata.term == (if pre.spec_commit() == pre.snap_index() {
        pre.snapshot_metadata.term
    } else {
        pre.entry_at(pre.spec_commit()).term
    })
    &&& s.metadata.conf_state == pre.spec_conf_state()
    &&& s.data == Seq::<u8>::empty()
}

impl RaftRocksDBStorageCore {
    /// Overwrite the store with the given snapshot.
    ///
    /// A snapshot older than the first retained index is rejected with
    /// `SnapshotOutOfDate` and leaves the store untouched. Otherwise the
    /// watermark, hard state and membership land together, the prefix at or
    /// below the snapshot index is compacted away — a stored suffix above it
    /// survives — and the engine is asked to persist everything in the
    /// documented order.
    #[verifier::rlimit(60)]
    pub fn apply_snapshot(&mut self, snapshot: Snapshot) -> (r: Result<(), RaftError>)
        requires
            old(self).wf(),
            snapshot@.metadata.index < u64::MAX,
        ensures
            final(self).wf(),
            (snapshot@.metadata.index as int) < old(self).spec_first_index() ==> (r == Err::<
                (),
                RaftError,
            >(RaftError::SnapshotOutOfDate) && *final(self) == *old(self)),
            (snapshot@.metadata.index as int) >= old(self).spec_first_index() ==> (r is Ok
                && snapshot_effect(*old(self), *final(self), snapshot@)),
    {
        let index = snapshot.metadata.index;
        let first = self.first_index();
        if first > index {
            return Err(RaftError::SnapshotOutOfDate);
        }
        let old_last = self.last_index();
        let cur = self.hard_state();
        let term = if cur.term >= snapshot.metadata.term {
            cur.term
        } else {
            snapshot.metadata.term
        };
        let meta = snapshot.metadata;
        let cs = meta.conf_state.dup();

        // The engine persists in the documented order: watermark, hard
        // state, index records, prefix deletion, conf state, uncommitted map.
        self.pending.push(WriteOp::SetSnapshotMetadata);
        self.pending.push(WriteOp::SetHardState);
        self.pending.push(WriteOp::DeleteFirstIndex);
        self.first_index_rec = None;
        if old_last > index {
            self.pending.push(WriteOp::SetLastIndex(old_last));
            self.last_index_rec = Some(old_last);
            let total = self.entries.len();
            proof {
                assert(index + 1 - first <= total as u64);
            }
            let keep_from = (index + 1 - first) as usize;
            let tail = self.entries.split_off(keep_from);
            self.entries = tail;
            proof {
                assert(self.entry_images() =~= old(self).entry_images().subrange(
                    index + 1 - first,
                    old(self).entries@.len() as int,
                ));
            }
        } else {
            self.pending.push(WriteOp::DeleteLastIndex);
            self.last_index_rec = None;
            self.entries.clear();
            proof {
                assert(self.entry_images() =~= Seq::<EntryV>::empty());
            }
        }
        let del_hi = if old_last < index {
            old_last
        } else {
            index
        };
        let ghost pre_loop_pending = self.pending@;
        let ghost pre_loop_entries = self.entries@;
        let ghost pre_loop_last_rec = self.last_index_rec;
        let mut i: u64 = first;
        while i <= del_hi
            invariant
                first <= i,
                i <= del_hi + 1 || i == first,
                del_hi < u64::MAX,
                self.pending@ == pre_loop_pending + Seq::new(
                    (if i >= first { i - first } else { 0 }) as nat,
                    |j: int| WriteOp::DeleteEntry((first + j) as u64),
                ),
                forall|k: u64|
                    self.uncommit_index@.contains_key(k) <==> (old(
                        self,
                    ).uncommit_index@.contains_key(k) && !(first <= k < i)),
                self.entries@ == pre_loop_entries,
                self.first_index_rec is None,
                self.last_index_rec == pre_loop_last_rec,
                self.hard_state_rec == old(self).hard_state_rec,
                self.conf_state_rec == old(self).conf_state_rec,
                self.snapshot_metadata == old(self).snapshot_metadata,
                self.trigger_snap_unavailable == old(self).trigger_snap_unavailable,
            decreases del_hi + 1 - i,
        {
            self.uncommit_index.remove(&i);
            self.pending.push(WriteOp::DeleteEntry(i));
            proof {
                assert(self.pending@ =~= pre_loop_pending + Seq::new(
                    (i + 1 - first) as nat,
                    |j: int| WriteOp::DeleteEntry((first + j) as u64),
                ));
            }
            i = i + 1;
        }
        self.snapshot_metadata = meta;
        self.hard_state_rec = Some(HardState { term, vote: 0, commit: index });
        self.conf_state_rec = Some(cs);
        self.pending.push(WriteOp::SetConfState);
        self.save_uncommit_index();
        proof {
            assert(self.pending@ =~= old(self).pending@ + snapshot_ops(
                *old(self),
                snapshot@.metadata.index as int,
            ));
            assert(snapshot_effect(*old(self), *self, snapshot@));
        }
        Ok(())
    }

    /// The application payload of a snapshot; the log core itself holds no
    /// application state, so the payload is empty.
    pub fn create_snapshot_data(&self) -> (r: Vec<u8>)
        ensures
            r@ == Seq::<u8>::empty(),
    {
        Vec::new()
    }

    /// Synthesize a snapshot at the current commit index.
    ///
    /// When the unavailability flag is armed, the request fails once with
    /// `SnapshotTemporarilyUnavailable` and disarms the flag, so the next
    /// request succeeds.
    pub fn snapshot(&mut self) -> (r: Result<Snapshot, RaftError>)
        requires
            old(self).wf(),
            old(self).spec_commit() <= old(self).spec_last_index(),
            old(self).spec_commit() == old(self).snap_index() || old(self).spec_commit() >= old(
                self,
            ).spec_first_index(),
        ensures
            final(self).wf(),
            final(self).trigger_snap_unavailable == false,
            final(self).entries == old(self).entries,
            final(self).first_index_rec == old(self).first_index_rec,
            final(self).last_index_rec == old(self).last_index_rec,
            final(self).hard_state_rec == old(self).hard_state_rec,
            final(self).conf_state_rec == old(self).conf_state_rec,
            final(self).snapshot_metadata == old(self).snapshot_metadata,
            final(self).uncommit_index@ == old(self).uncommit_index@,
            final(self).pending@ == old(self).pending@,
            old(self).trigger_snap_unavailable ==> r == Err::<Snapshot, RaftError>(
                RaftError::SnapshotTemporarilyUnavailable,
            ),
            !old(self).trigger_snap_unavailable ==> (r matches Ok(s) && snapshot_shape(
                *old(self),
                s@,
            )),
    {
        if self.trigger_snap_unavailable {
            self.trigger_snap_unavailable = false;
            return Err(RaftError::SnapshotTemporarilyUnavailable);
        }
        let commit = self.hard_state().commit;
        let term = if commit == self.snapshot_metadata.index {
            self.snapshot_metadata.term
        } else {
            let first = self.first_index();
            let n = self.entries.len();
            proof {
                assert(commit - first < n as u64);
            }
            self.entries[(commit - first) as usize].term
        };
        let conf_state = self.conf_state();
        let data = self.create_snapshot_data();
        Ok(Snapshot { metadata: SnapshotMetadata { index: commit, term, conf_state }, data })
    }

    /// Term of the entry at `idx`: the snapshot term at the watermark, zero
    /// included for a store that never snapshotted, else the stored entry's
    /// term; `Compacted` below the first retained index, `Unavailable` above
    /// the last stored one.
    pub fn term(&self, idx: u64) -> (r: Result<u64, RaftError>)
        requires
            self.wf(),
        ensures
            idx as int == self.snap_index() ==> r == Ok::<u64, RaftError>(
                self.snapshot_metadata.term,
            ),
            idx as int != self.snap_index() && (idx as int) < self.spec_first_index() ==> r
                == Err::<u64, RaftError>(RaftError::Compacted),
            idx as int != self.snap_index() && (idx as int) >= self.spec_first_index() && (idx
                as int) > self.spec_last_index() ==> r == Err::<u64, RaftError>(
                RaftError::Unavailable,
            ),
            idx as int != self.snap_index() && self.stores(idx as int) ==> r == Ok::<
                u64,
                RaftError,
            >(self.entry_at(idx as int).term),
    {
        if idx == self.snapshot_metadata.index {
            return Ok(self.snapshot_metadata.term);
        }
        let first = self.first_index();
        if idx < first {
            return Err(RaftError::Compacted);
        }
        let last = self.last_index();
        if idx > last {
            return Err(RaftError::Unavailable);
        }
        let n = self.entries.len();
        proof {
            assert(idx - first < n as u64);
        }
        Ok(self.entries[(idx - first) as usize].term)
    }
}

/// Byte size an entry counts for against a read budget: its payload length.
pub open spec fn entry_size(e: EntryV) -> int {
    e.data.len() as int
}

/// Scan of a byte budget over `s` from position `i` with `acc` bytes already
/// taken: the position where the scan stops. The first entry is always
/// taken; each further entry is taken while the running size stays within
/// the limit.
pub open spec fn budget_stop(s: Seq<EntryV>, i: int, acc: int, limit: int) -> int
    decreases s.len() - i,
    when 0 <= i <= s.len()
{
    if i >= s.len() {
        i
    } else if i > 0 && acc + entry_size(s[i]) > limit {
        i
    } else {
        budget_stop(s, i + 1, acc + entry_size(s[i]), limit)
    }
}

/// How many entries of `s` a read returns under `limit`: all of them without
/// a limit, else the longest prefix within the byte budget, but at least one.
pub open spec fn read_count(s: Seq<EntryV>, limit: Option<u64>) -> int {
    match limit {
        None => s.len() as int,
        Some(l) => budget_stop(s, 0, 0, l as int),
    }
}

impl RaftRocksDBStorageCore {
    /// Read the stored slice `[low, high)`, cut to the byte budget.
    ///
    /// Fails with `Compacted` when `low` reaches below the first retained
    /// index and with `Unavailable` when `high` reaches beyond one past the
    /// last stored index. A successful read returns the prefix of the slice
    /// chosen by [`read_count`]: never empty for a non-empty request, and the
    /// whole slice when no budget is given.
    pub fn entries(&self, low: u64, high: u64, max_size: Option<u64>) -> (r: Result<
        Vec<Entry>,
        RaftError,
    >)
        requires
            self.wf(),
            low <= high,
        ensures
            (low as int) < self.spec_first_index() ==> r == Err::<Vec<Entry>, RaftError>(
                RaftError::Compacted,
            ),
            (low as int) >= self.spec_first_index() && (high as int) > self.spec_last_index() + 1
                ==> r == Err::<Vec<Entry>, RaftError>(RaftError::Unavailable),
            (low as int) >= self.spec_first_index() && (high as int) <= self.spec_last_index() + 1
                ==> (r matches Ok(v) && images_of(v@) == self.read_window(low as int, high as int)
                .take(read_count(self.read_window(low as int, high as int), max_size))),
    {
        let first = self.first_index();
        let last = self.last_index();
        if low < first {
            return Err(RaftError::Compacted);
        }
        if high > last + 1 {
            return Err(RaftError::Unavailable);
        }
        let ghost window = self.read_window(low as int, high as int);
        let total = self.entries.len();
        proof {
            assert(high - low <= total as u64);
            assert(low - first <= total as u64);
        }
        let n_req = (high - low) as usize;
        let base = (low - first) as usize;
        let mut out: Vec<Entry> = Vec::new();
        let mut cnt: usize = 0;
        let mut stop: bool = false;
        let mut rem: u64 = match max_size {
            Some(l) => l,
            None => 0,
        };
        let mut exceeded: bool = false;
        let ghost acc: int = 0;
        while cnt < n_req && !stop
            invariant
                self.wf(),
                low <= high,
                (low as int) >= self.spec_first_index(),
                (high as int) <= self.spec_last_index() + 1,
                n_req == high - low,
                base == low - self.spec_first_index(),
                total == self.entries@.len(),
                base + n_req <= total,
                window == self.read_window(low as int, high as int),
                window.len() == n_req,
                cnt <= n_req,
                out@.len() == cnt,
                forall|q: int| 0 <= q < cnt ==> (#[trigger] out@[q])@ == window[q],
                (match max_size {
                    Some(l) => {
                        &&& (if exceeded {
                            acc > l as int
                        } else {
                            acc <= l as int && rem == l - acc
                        })
                        &&& budget_stop(window, 0, 0, l as int) == budget_stop(
                            window,
                            cnt as int,
                            acc,
                            l as int,
                        )
                        &&& (stop ==> budget_stop(window, cnt as int, acc, l as int) == cnt)
                    },
                    None => !stop,
                }),
            decreases n_req - cnt, (if stop { 0int } else { 1int }),
        {
            let pos = base + cnt;
            proof {
                assert(pos < self.entries@.len());
                assert(window[cnt as int] == self.entries@[pos as int]@);
            }
            let sz = self.entries[pos].data.len();
            let fits = match max_size {
                Some(_) => !exceeded && sz as u64 <= rem,
                None => true,
            };
            if cnt == 0 || fits {
                out.push(self.entries[pos].dup());
                match max_size {
                    Some(_) => {
                        if !exceeded && sz as u64 <= rem {
                            rem = rem - sz as u64;
                        } else {
                            exceeded = true;
                            rem = 0;
                        }
                    },
                    None => {},
                }
                proof {
                    acc = acc + entry_size(window[cnt as int]);
                }
                cnt = cnt + 1;
            } else {
                stop = true;
            }
        }
        proof {
            if max_size is Some {
                assert(read_count(window, max_size) == cnt);
            }
            assert(images_of(out@) =~= window.take(read_count(window, max_size)));
        }
        Ok(out)
    }

    /// The images of the stored slice `[low, high)`.
    pub open spec fn read_window(&self, low: int, high: int) -> Seq<EntryV> {
        self.entry_images().subrange(low - self.spec_first_index(), high - self.spec_first_index())
    }
}

/// Whether a set of persisted records describes a well-formed store: the
/// same shape conditions as [`RaftRocksDBStorageCore::wf`], stated over the
/// records alone.
/// First retained index described by a set of records.
pub open spec fn rec_first_index(
    first_index_rec: Option<u64>,
    snap: crate::state::SnapshotMetadataV,
) -> int {
    match first_index_rec {
        Some(v) => v as int,
        None => snap.index + 1,
    }
}

/// Last stored index described by a set of records.
pub open spec fn rec_last_index(
    last_index_rec: Option<u64>,
    snap: crate::state::SnapshotMetadataV,
) -> int {
    match last_index_rec {
        Some(v) => v as int,
        None => snap.index as int,
    }
}

/// Commit index described by a persisted hard state.
pub open spec fn rec_commit(hard_state_rec: Option<HardState>) -> int {
    match hard_state_rec {
        Some(h) => h.commit as int,
        None => 0,
    }
}

pub open spec fn records_consistent(
    images: Seq<EntryV>,
    first_index_rec: Option<u64>,
    last_index_rec: Option<u64>,
    hard_state_rec: Option<HardState>,
    snap: crate::state::SnapshotMetadataV,
) -> bool {
    &&& snap.index < u64::MAX
    &&& rec_last_index(last_index_rec, snap) < u64::MAX
    &&& 1 <= rec_first_index(first_index_rec, snap)
    &&& rec_first_index(first_index_rec, snap) <= rec_last_index(last_index_rec, snap) + 1
    &&& images.len() == rec_last_index(last_index_rec, snap) + 1 - rec_first_index(
        first_index_rec,
        snap,
    )
    &&& forall|j: int|
        0 <= j < images.len() ==> (#[trigger] images[j]).index == rec_first_index(
            first_index_rec,
            snap,
        ) + j
    &&& rec_commit(hard_state_rec) >= snap.index
}

impl RaftRocksDBStorageCore {
    /// Rebuild a store from the persisted records after a restart.
    ///
    /// Succeeds exactly when the records describe a well-formed store; the
    /// result then holds them verbatim, with the unavailability flag clear
    /// and no writes owed.
    #[verifier::loop_isolation(false)]
    pub fn open(
        entries: Vec<Entry>,
        first_index_rec: Option<u64>,
        last_index_rec: Option<u64>,
        hard_state_rec: Option<HardState>,
        conf_state_rec: Option<ConfState>,
        snapshot_metadata: SnapshotMetadata,
        uncommit_index: HashMap<u64, i8>,
    ) -> (r: Option<Self>)
        ensures
            r is Some <==> records_consistent(
                images_of(entries@),
                first_index_rec,
                last_index_rec,
                hard_state_rec,
                snapshot_metadata@,
            ),
            r matches Some(s) ==> {
                &&& s.wf()
                &&& s.entries@ == entries@
                &&& s.first_index_rec == first_index_rec
                &&& s.last_index_rec == last_index_rec
                &&& s.hard_state_rec == hard_state_rec
                &&& s.conf_state_rec == conf_state_rec
                &&& s.snapshot_metadata == snapshot_metadata
                &&& s.uncommit_index@ == uncommit_index@
                &&& s.trigger_snap_unavailable == false
                &&& s.pending@ == Seq::<WriteOp>::empty()
            },
    {
        if snapshot_metadata.index == u64::MAX {
            return None;
        }
        let first = match first_index_rec {
            Some(v) => v,
            None => snapshot_metadata.index + 1,
        };
        let last = match last_index_rec {
            Some(v) => v,
            None => snapshot_metadata.index,
        };
        if last == u64::MAX {
            return None;
        }
        if first < 1 {
            return None;
        }
        if first > last + 1 {
            return None;
        }
        let expected = last + 1 - first;
        if entries.len() as u64 != expected {
            return None;
        }
        let commit = match hard_state_rec {
            Some(h) => h.commit,
            None => 0,
        };
        if commit < snapshot_metadata.index {
            return None;
        }
        let n = entries.len();
        let mut j: usize = 0;
        while j < n
            invariant
                j <= n,
                n == entries@.len(),
                n as u64 == expected,
                expected == last + 1 - first,
                last < u64::MAX,
                forall|q: int|
                    0 <= q < j ==> (#[trigger] entries@[q])@.index == first as int + q,
            decreases n - j,
        {
            if entries[j].index != first + (j as u64) {
                proof {
                    assert(images_of(entries@)[j as int] == entries@[j as int]@);
                }
                return None;
            }
            j = j + 1;
        }
        Some(
            RaftRocksDBStorageCore {
                entries,
                first_index_rec,
                last_index_rec,
                hard_state_rec,
                conf_state_rec,
                snapshot_metadata,
                trigger_snap_unavailable: false,
                uncommit_index,
                pending: Vec::new(),
            },
        )
    }

    /// Hand the owed writes to the persistence engine and clear the queue.
    pub fn take_pending(&mut self) -> (r: Vec<WriteOp>)
        ensures
            r@ == old(self).pending@,
            final(self).pending@ == Seq::<WriteOp>::empty(),
            final(self).entries == old(self).entries,
            final(self).first_index_rec == old(self).first_index_rec,
            final(self).last_index_rec == old(self).last_index_rec,
            final(self).hard_state_rec == old(self).hard_state_rec,
            final(self).conf_state_rec == old(self).conf_state_rec,
            final(self).snapshot_metadata == old(self).snapshot_metadata,
            final(self).trigger_snap_unavailable == old(self).trigger_snap_unavailable,
            final(self).uncommit_index@ == old(self).uncommit_index@,
    {
        let mut out: Vec<WriteOp> = Vec::new();
        core::mem::swap(&mut out, &mut self.pending);
        out
    }
}

/// The decimal digits of `n`, most significant first.
pub open spec fn dec_chars(n: nat) -> Seq<char>
    decreases n,
{
    if n < 10 {
        seq![digit_char(n)]
    } else {
        dec_chars(n / 10) + seq![digit_char(n % 10)]
    }
}

/// The character of one decimal digit.
pub open spec fn digit_char(d: nat) -> char {
    if d == 0 {
        '0'
    } else if d == 1 {
        '1'
    } else if d == 2 {
        '2'
    } else if d == 3 {
        '3'
    } else if d == 4 {
        '4'
    } else if d == 5 {
        '5'
    } else if d == 6 {
        '6'
    } else if d == 7 {
        '7'
    } else if d == 8 {
        '8'
    } else {
        '9'
    }
}

/// One decimal digit as a string slice.
fn digit_str(d: u64) -> (r: &'static str)
    requires
        d < 10,
    ensures
        r@ == seq![digit_char(d as nat)],
{
    proof {
        reveal_strlit("0");
        reveal_strlit("1");
        reveal_strlit("2");
        reveal_strlit("3");
        reveal_strlit("4");
        reveal_strlit("5");
        reveal_strlit("6");
        reveal_strlit("7");
        reveal_strlit("8");
        reveal_strlit("9");
    }
    match d {
        0 => "0",
        1 => "1",
        2 => "2",
        3 => "3",
        4 => "4",
        5 => "5",
        6 => "6",
        7 => "7",
        8 => "8",
        _ => "9",
    }
}

/// Append the decimal rendering of `n` to `out`.
fn push_dec(n: u64, out: &mut String)
    ensures
        final(out)@ == old(out)@ + dec_chars(n as nat),
    decreases n,
{
    if n < 10 {
        out.append(digit_str(n));
    } else {
        push_dec(n / 10, out);
        out.append(digit_str(n % 10));
        proof {
            assert(final(out)@ =~= old(out)@ + dec_chars(n as nat));
        }
    }
}

impl RaftRocksDBStorageCore {
    /// Key of the first-index record.
    pub fn key_name_by_first_index(&self) -> (r: String)
        ensures
            r@ == "metasrv_first_index"@,
    {
        "metasrv_first_index".to_owned()
    }

    /// Key of the last-index record.
    pub fn key_name_by_last_index(&self) -> (r: String)
        ensures
            r@ == "metasrv_last_index"@,
    {
        "metasrv_last_index".to_owned()
    }

    /// Key of the hard-state record.
    pub fn key_name_by_hard_state(&self) -> (r: String)
        ensures
            r@ == "metasrv_hard_state"@,
    {
        "metasrv_hard_state".to_owned()
    }

    /// Key of the conf-state record.
    pub fn key_name_by_conf_state(&self) -> (r: String)
        ensures
            r@ == "metasrv_conf_state"@,
    {
        "metasrv_conf_state".to_owned()
    }

    /// Key of the snapshot-metadata record.
    pub fn key_name_by_snapshot_metadata(&self) -> (r: String)
        ensures
            r@ == "metasrv_snapshot_metadata"@,
    {
        "metasrv_snapshot_metadata".to_owned()
    }

    /// Key of the entry record at `idx`: the entry prefix followed by the
    /// index in unpadded decimal.
    pub fn key_name_by_entry(&self, idx: u64) -> (r: String)
        ensures
            r@ == "metasrv_entry_"@ + dec_chars(idx as nat),
    {
        let mut s: String = "metasrv_entry_".to_owned();
        push_dec(idx, &mut s);
        s
    }

    /// Key of the uncommitted-index map blob.
    pub fn key_name_uncommit(&self) -> (r: String)
        ensures
            r@ == "metasrv_uncommit_index"@,
    {
        "metasrv_uncommit_index".to_owned()
    }
}

} // verus!
