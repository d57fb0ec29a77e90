//! Laws of the storage core: consequences of the operation contracts that
//! hold for every well-formed store, stated and proved once so that callers
//! and readers need not rederive them.

use vstd::prelude::*;

use crate::raft_core::RaftRocksDBStorageCore;
use crate::raft_core::append_effect;
use crate::raft_core::append_ops;
use crate::raft_core::batch_contiguous;
use crate::raft_core::budget_stop;
use crate::raft_core::read_count;
use crate::raft_core::records_consistent;
use crate::raft_core::snapshot_effect;
use crate::state::EntryV;
use crate::state::SnapshotV;
use crate::state::WriteOp;

verus! {

/// Law: in a well-formed store the first retained index never exceeds the
/// last stored index by more than one, the log is exactly the dense range
/// between the two, and every stored entry sits at its own index.
pub proof fn lemma_log_shape(s: RaftRocksDBStorageCore)
    requires
        s.wf(),
    ensures
        s.spec_first_index() <= s.spec_last_index() + 1,
        s.entry_images().len() == s.spec_last_index() + 1 - s.spec_first_index(),
        forall|i: int| s.stores(i) ==> (#[trigger] s.entry_at(i)).index == i,
{
}

/// Law: after a snapshot is applied, the commit index equals the snapshot
/// index, the first retained index is one past it, no entry at or below the
/// snapshot index remains stored, and any stored entry above it survives
/// unchanged.
pub proof fn lemma_snapshot_application(
    pre: RaftRocksDBStorageCore,
    post: RaftRocksDBStorageCore,
    s: SnapshotV,
)
    requires
        pre.wf(),
        post.wf(),
        snapshot_effect(pre, post, s),
        s.metadata.index as int >= pre.spec_first_index() - 1,
    ensures
        post.spec_commit() == s.metadata.index,
        post.spec_first_index() == s.metadata.index + 1,
        forall|i: int| i <= s.metadata.index ==> !post.stores(i),
        forall|i: int|
            s.metadata.index < i <= pre.spec_last_index() && pre.stores(i) ==> (post.stores(i)
                && #[trigger] post.entry_at(i) == pre.entry_at(i)),
{
    let idx = s.metadata.index as int;
    assert forall|i: int|
        idx < i <= pre.spec_last_index() && pre.stores(i) implies (post.stores(i)
        && #[trigger] post.entry_at(i) == pre.entry_at(i)) by {
        assert(pre.spec_last_index() > idx);
        assert(post.stores(i));
        assert(post.entry_at(i) == post.entry_images()[i - (idx + 1)]);
        assert(pre.entry_images().len() == pre.entries@.len());
        assert(pre.entry_images().subrange(
            idx + 1 - pre.spec_first_index(),
            pre.entries@.len() as int,
        )[i - (idx + 1)] == pre.entry_images()[(i - (idx + 1)) + (idx + 1
            - pre.spec_first_index())]);
        assert((i - (idx + 1)) + (idx + 1 - pre.spec_first_index()) == i - pre.spec_first_index());
    }
}

/// Law: applying a snapshot no older than the commit index keeps the
/// uncommitted map synced with the stored entries above the commit index.
pub proof fn lemma_uncommit_sync_snapshot(
    pre: RaftRocksDBStorageCore,
    post: RaftRocksDBStorageCore,
    s: SnapshotV,
)
    requires
        pre.wf(),
        post.wf(),
        snapshot_effect(pre, post, s),
        uncommit_synced_at(pre, pre.spec_commit()),
        s.metadata.index as int >= pre.spec_commit(),
        s.metadata.index as int >= pre.spec_first_index() - 1,
    ensures
        uncommit_synced_at(post, post.spec_commit()),
{
    let idx = s.metadata.index as int;
    let dh = crate::raft_core::snap_del_hi(pre, idx);
    assert forall|k: u64|
        post.uncommit_index@.contains_key(k) <==> (post.stores(k as int) && (k as int)
            > post.spec_commit()) by {
        let ki = k as int;
        assert(post.uncommit_index@.contains_key(k) <==> (pre.uncommit_index@.contains_key(k)
            && !(pre.spec_first_index() <= ki && ki <= dh)));
        assert(pre.uncommit_index@.contains_key(k) <==> (pre.stores(ki) && ki
            > pre.spec_commit()));
        if post.uncommit_index@.contains_key(k) {
            assert(pre.stores(ki));
            assert(!(pre.spec_first_index() <= ki && ki <= dh));
            assert(ki > dh);
            assert(ki > idx);
            assert(post.stores(ki));
        }
        if post.stores(ki) && ki > idx {
            assert(pre.spec_last_index() > idx || !(ki <= post.spec_last_index()) || ki > idx);
            if pre.spec_last_index() > idx {
                assert(pre.stores(ki));
                assert(ki > pre.spec_commit());
                assert(pre.uncommit_index@.contains_key(k));
            }
        }
    }
}

/// Law: reading back exactly the range of a just-appended batch, with no
/// byte budget, returns exactly the batch.
pub proof fn lemma_append_read_round_trip(
    pre: RaftRocksDBStorageCore,
    post: RaftRocksDBStorageCore,
    es: Seq<EntryV>,
)
    requires
        pre.wf(),
        post.wf(),
        es.len() > 0,
        batch_contiguous(es),
        pre.spec_first_index() <= es[0].index as int,
        es[0].index as int <= pre.spec_last_index() + 1,
        append_effect(pre, post, es),
    ensures
        post.read_window(es[0].index as int, es[0].index + es.len()) == es,
        read_count(post.read_window(es[0].index as int, es[0].index + es.len()), None) == es.len(),
{
    let lo = es[0].index as int;
    let hi = lo + es.len();
    assert(post.read_window(lo, hi) =~= es);
}

/// Law: a read under a byte budget never comes back empty for a non-empty
/// request, and never returns more than the request.
pub proof fn lemma_read_never_empty(s: Seq<EntryV>, limit: Option<u64>)
    requires
        s.len() > 0,
    ensures
        1 <= read_count(s, limit),
        read_count(s, limit) <= s.len(),
{
    match limit {
        None => {},
        Some(l) => {
            lemma_budget_stop_bounds(s, 1, crate::raft_core::entry_size(s[0]), l as int);
        },
    }
}

/// The stop position of a budget scan stays between its start and the end of
/// the sequence.
pub proof fn lemma_budget_stop_bounds(s: Seq<EntryV>, i: int, acc: int, limit: int)
    requires
        0 <= i <= s.len(),
    ensures
        i <= budget_stop(s, i, acc, limit) <= s.len(),
    decreases s.len() - i,
{
    if i < s.len() && !(i > 0 && acc + crate::raft_core::entry_size(s[i]) > limit) {
        lemma_budget_stop_bounds(s, i + 1, acc + crate::raft_core::entry_size(s[i]), limit);
    }
}

/// Law: an append truncates on conflict. Nothing survives beyond the end of
/// the batch, the stored suffix from the batch start equals the batch, the
/// prefix below the batch start is untouched, and the engine is told to
/// delete every index from the batch start through the old last entry before
/// any new entry is written.
pub proof fn lemma_truncate_on_conflict(
    pre: RaftRocksDBStorageCore,
    post: RaftRocksDBStorageCore,
    es: Seq<EntryV>,
)
    requires
        pre.wf(),
        post.wf(),
        es.len() > 0,
        batch_contiguous(es),
        pre.spec_first_index() <= es[0].index as int,
        es[0].index as int <= pre.spec_last_index() + 1,
        append_effect(pre, post, es),
    ensures
        post.spec_last_index() == es[0].index + es.len() - 1,
        forall|i: int| post.stores(i) ==> i <= es[0].index + es.len() - 1,
        forall|i: int|
            post.stores(i) && i >= es[0].index ==> #[trigger] post.entry_at(i) == es[i - es[0].index],
        forall|i: int|
            post.stores(i) && i < es[0].index ==> #[trigger] post.entry_at(i) == pre.entry_at(i),
        forall|q: int|
            0 <= q < pre.spec_last_index() + 1 - es[0].index ==> #[trigger] append_ops(pre, es)[q]
                == WriteOp::DeleteEntry((es[0].index + q) as u64),
        forall|q: int|
            0 <= q < es.len() ==> #[trigger] append_ops(pre, es)[delete_count(pre, es) + q]
                == WriteOp::SetEntry((es[0].index + q) as u64),
{
    let e0 = es[0].index as int;
    let keep = e0 - pre.spec_first_index();
    assert forall|i: int| post.stores(i) && i >= e0 implies #[trigger] post.entry_at(i) == es[i
        - e0] by {
        assert(post.entry_images()[i - post.spec_first_index()] == (pre.entry_images().subrange(
            0,
            keep,
        ) + es)[i - pre.spec_first_index()]);
    }
}

/// How many deletions an append owes before its writes: one per index from
/// the batch start through the old last entry.
pub open spec fn delete_count(pre: RaftRocksDBStorageCore, es: Seq<EntryV>) -> int {
    if pre.spec_last_index() >= es[0].index as int {
        pre.spec_last_index() + 1 - es[0].index
    } else {
        0
    }
}

/// A store whose uncommitted map marks exactly the stored entries above the
/// commit index `c`.
pub open spec fn uncommit_synced_at(s: RaftRocksDBStorageCore, c: int) -> bool {
    forall|k: u64|
        #[trigger] s.uncommit_index@.contains_key(k) <==> (s.stores(k as int) && (k as int) > c)
}

/// Law: an empty store with an empty map is synced.
pub proof fn lemma_uncommit_sync_empty(s: RaftRocksDBStorageCore)
    requires
        s.wf(),
        s.entries@.len() == 0,
        s.uncommit_index@ == Map::<u64, i8>::empty(),
    ensures
        uncommit_synced_at(s, s.spec_commit()),
{
}

/// Law: appending a batch that starts above the commit index keeps the
/// uncommitted map synced with the stored entries above the commit index.
pub proof fn lemma_uncommit_sync_append(
    pre: RaftRocksDBStorageCore,
    post: RaftRocksDBStorageCore,
    es: Seq<EntryV>,
)
    requires
        pre.wf(),
        post.wf(),
        es.len() > 0,
        batch_contiguous(es),
        pre.spec_first_index() <= es[0].index as int,
        es[0].index as int <= pre.spec_last_index() + 1,
        append_effect(pre, post, es),
        uncommit_synced_at(pre, pre.spec_commit()),
        es[0].index as int > pre.spec_commit(),
    ensures
        uncommit_synced_at(post, post.spec_commit()),
{
    let e0 = es[0].index as int;
    let nl = e0 + es.len() - 1;
    let c = pre.spec_commit();
    assert(post.spec_commit() == c);
    assert(post.spec_first_index() == pre.spec_first_index());
    assert forall|k: u64|
        post.uncommit_index@.contains_key(k) <==> (post.stores(k as int) && (k as int)
            > post.spec_commit()) by {
        let ki = k as int;
        assert(post.uncommit_index@.contains_key(k) <==> ((pre.uncommit_index@.contains_key(k)
            && !(e0 <= ki <= pre.spec_last_index())) || (e0 <= ki <= nl)));
        assert(pre.uncommit_index@.contains_key(k) <==> (pre.stores(ki) && ki > c));
        if e0 <= ki <= nl {
            assert(post.stores(ki));
            assert(ki >= e0 > c);
        } else if ki < e0 {
            assert(post.stores(ki) <==> pre.stores(ki));
        } else {
            assert(!post.stores(ki));
            if pre.uncommit_index@.contains_key(k) && !(e0 <= ki <= pre.spec_last_index()) {
                assert(pre.stores(ki) && ki > c);
                assert(ki <= pre.spec_last_index());
                assert(e0 <= ki);
                assert(false);
            }
        }
    }
}

/// Law: dropping the mark of an already-committed index never breaks sync;
/// in a synced store such an index carries no mark, so the map is unchanged.
pub proof fn lemma_uncommit_sync_commit(s: RaftRocksDBStorageCore, idx: u64)
    requires
        s.wf(),
        uncommit_synced_at(s, s.spec_commit()),
        idx as int <= s.spec_commit(),
    ensures
        !s.uncommit_index@.contains_key(idx),
        forall|k: u64|
            s.uncommit_index@.remove(idx).contains_key(k) <==> (s.stores(k as int) && (k as int)
                > s.spec_commit()),
{
    if s.uncommit_index@.contains_key(idx) {
        assert(s.stores(idx as int) && (idx as int) > s.spec_commit());
        assert(false);
    }
}

/// Law: after the commit index advanced from `c0`, the marks of the newly
/// committed indices are exactly the ones at or below the new commit index;
/// removing them restores sync at the new commit index.
pub proof fn lemma_uncommit_sync_advance(s: RaftRocksDBStorageCore, c0: int)
    requires
        s.wf(),
        c0 <= s.spec_commit(),
        uncommit_synced_at(s, c0),
    ensures
        forall|k: u64|
            s.uncommit_index@.remove_keys(
                Set::new(|k2: u64| (k2 as int) <= s.spec_commit()),
            ).contains_key(k) <==> (s.stores(k as int) && (k as int) > s.spec_commit()),
{
}

/// Law: the persisted records of a well-formed store always reopen.
pub proof fn lemma_wf_records_consistent(s: RaftRocksDBStorageCore)
    requires
        s.wf(),
    ensures
        records_consistent(
            s.entry_images(),
            s.first_index_rec,
            s.last_index_rec,
            s.hard_state_rec,
            s.snapshot_metadata@,
        ),
{
    assert forall|j: int| 0 <= j < s.entry_images().len() implies (
    #[trigger] s.entry_images()[j]).index == crate::raft_core::rec_first_index(
        s.first_index_rec,
        s.snapshot_metadata@,
    ) + j by {
        assert(s.entry_images()[j] == s.entries@[j]@);
    }
}

/// Law: a store rebuilt from the persisted records of a well-formed store
/// answers every query as the original did: same initial state, same first
/// and last index, same stored entries.
pub proof fn lemma_restart_equivalence(s: RaftRocksDBStorageCore, r: RaftRocksDBStorageCore)
    requires
        s.wf(),
        r.entries@ == s.entries@,
        r.first_index_rec == s.first_index_rec,
        r.last_index_rec == s.last_index_rec,
        r.hard_state_rec == s.hard_state_rec,
        r.conf_state_rec == s.conf_state_rec,
        r.snapshot_metadata == s.snapshot_metadata,
        r.uncommit_index@ == s.uncommit_index@,
    ensures
        r.wf(),
        r.spec_first_index() == s.spec_first_index(),
        r.spec_last_index() == s.spec_last_index(),
        r.spec_hard_state() == s.spec_hard_state(),
        r.spec_conf_state() == s.spec_conf_state(),
        r.entry_images() == s.entry_images(),
        forall|i: int| r.stores(i) <==> s.stores(i),
        forall|i: int| #[trigger] r.stores(i) ==> r.entry_at(i) == s.entry_at(i),
{
}

} // verus!
