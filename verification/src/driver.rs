//! Decisions of the driver loop: the configuration the consensus node is
//! built with, the tick policy, the strictly ordered plan of one ready cycle,
//! and the classification of committed entries on the apply path.
//!
//! The loop itself performs I/O and lives outside this crate; it consults
//! these functions for every decision and executes the returned steps in
//! order.

use vstd::prelude::*;

use crate::state::Entry;
use crate::state::EntryType;
use crate::state::EntryV;
use crate::state::HardState;
use crate::state::Snapshot;

verus! {

/// Milliseconds between ticks: the receive timeout of the driver loop.
pub const HEARTBEAT_INTERVAL_MS: u64 = 100;

/// Configuration the consensus node is built with.
#[derive(Clone, Copy, Debug, PartialEq, Eq, Structural)]
pub struct RaftConfig {
    pub id: u64,
    pub election_tick: u64,
    pub heartbeat_tick: u64,
    pub max_size_per_msg: u64,
    pub max_inflight_msgs: u64,
    pub applied: u64,
}

/// Build the consensus configuration: ten election ticks, three heartbeat
/// ticks, one mebibyte per message, 256 in-flight messages, and the applied
/// index recovered from storage.
pub fn build_config(node_id: u64, applied: u64) -> (c: RaftConfig)
    ensures
        c == (RaftConfig {
            id: node_id,
            election_tick: 10,
            heartbeat_tick: 3,
            max_size_per_msg: 1048576,
            max_inflight_msgs: 256,
            applied,
        }),
{
    RaftConfig {
        id: node_id,
        election_tick: 10,
        heartbeat_tick: 3,
        max_size_per_msg: 1048576,
        max_inflight_msgs: 256,
        applied,
    }
}

/// Whether a tick is due: the elapsed time reached the heartbeat interval.
pub fn should_tick(elapsed_ms: u64, heartbeat_ms: u64) -> (r: bool)
    ensures
        r == (elapsed_ms >= heartbeat_ms),
{
    elapsed_ms >= heartbeat_ms
}

/// One step of the ready cycle, in the order the driver must perform them.
#[derive(Clone, Copy, Debug, PartialEq, Eq, Structural)]
pub enum DriverStep {
    /// Hand the unpersisted messages to the outbound sink.
    SendMessages,
    /// Apply the ready snapshot to storage.
    ApplySnapshot,
    /// Hand the committed entries to the apply path.
    ApplyCommitted,
    /// Append the ready entries to storage.
    AppendEntries,
    /// Persist the changed hard state.
    PersistHardState,
    /// Hand the persisted messages to the outbound sink, after durability.
    SendPersistedMessages,
    /// Acknowledge the ready batch to the consensus node.
    Advance,
    /// Persist the advanced commit index into the hard state.
    PersistCommit,
    /// Hand the light-ready messages to the outbound sink.
    SendLightMessages,
    /// Apply the light-ready committed entries.
    ApplyLightCommitted,
    /// Acknowledge the applied entries to the consensus node.
    AdvanceApply,
}

/// What the consensus node produced in one ready batch, reduced to the data
/// the storage and the plan need.
pub struct ReadyView {
    pub has_messages: bool,
    pub snapshot: Option<Snapshot>,
    pub committed_entries: Vec<Entry>,
    pub entries: Vec<Entry>,
    pub hard_state: Option<HardState>,
    pub has_persisted_messages: bool,
}

/// The plan of the first half of a ready cycle, ending in `Advance`: send,
/// apply snapshot, apply committed entries, append, persist hard state, send
/// persisted messages — each present exactly when its input is.
pub open spec fn ready_plan(
    has_messages: bool,
    has_snapshot: bool,
    has_committed: bool,
    has_entries: bool,
    has_hard_state: bool,
    has_persisted: bool,
) -> Seq<DriverStep> {
    (if has_messages {
        seq![DriverStep::SendMessages]
    } else {
        Seq::empty()
    }) + (if has_snapshot {
        seq![DriverStep::ApplySnapshot]
    } else {
        Seq::empty()
    }) + (if has_committed {
        seq![DriverStep::ApplyCommitted]
    } else {
        Seq::empty()
    }) + (if has_entries {
        seq![DriverStep::AppendEntries]
    } else {
        Seq::empty()
    }) + (if has_hard_state {
        seq![DriverStep::PersistHardState]
    } else {
        Seq::empty()
    }) + (if has_persisted {
        seq![DriverStep::SendPersistedMessages]
    } else {
        Seq::empty()
    }) + seq![DriverStep::Advance]
}

/// The plan of the second half of a ready cycle, after `Advance`: persist
/// the commit index, send, apply, and acknowledge the application.
pub open spec fn light_ready_plan(
    has_commit_index: bool,
    has_messages: bool,
    has_committed: bool,
) -> Seq<DriverStep> {
    (if has_commit_index {
        seq![DriverStep::PersistCommit]
    } else {
        Seq::empty()
    }) + (if has_messages {
        seq![DriverStep::SendLightMessages]
    } else {
        Seq::empty()
    }) + (if has_committed {
        seq![DriverStep::ApplyLightCommitted]
    } else {
        Seq::empty()
    }) + seq![DriverStep::AdvanceApply]
}

/// Plan the first half of a ready cycle from what the batch holds.
pub fn plan_ready(rv: &ReadyView) -> (r: Vec<DriverStep>)
    ensures
        r@ == ready_plan(
            rv.has_messages,
            rv.snapshot is Some,
            rv.committed_entries@.len() > 0,
            rv.entries@.len() > 0,
            rv.hard_state is Some,
            rv.has_persisted_messages,
        ),
{
    let mut plan: Vec<DriverStep> = Vec::new();
    if rv.has_messages {
        plan.push(DriverStep::SendMessages);
    }
    if rv.snapshot.is_some() {
        plan.push(DriverStep::ApplySnapshot);
    }
    if rv.committed_entries.len() > 0 {
        plan.push(DriverStep::ApplyCommitted);
    }
    if rv.entries.len() > 0 {
        plan.push(DriverStep::AppendEntries);
    }
    if rv.hard_state.is_some() {
        plan.push(DriverStep::PersistHardState);
    }
    if rv.has_persisted_messages {
        plan.push(DriverStep::SendPersistedMessages);
    }
    plan.push(DriverStep::Advance);
    proof {
        assert(plan@ =~= ready_plan(
            rv.has_messages,
            rv.snapshot is Some,
            rv.committed_entries@.len() > 0,
            rv.entries@.len() > 0,
            rv.hard_state is Some,
            rv.has_persisted_messages,
        ));
    }
    plan
}

/// Plan the second half of a ready cycle from what the light batch holds.
pub fn plan_light_ready(has_commit_index: bool, has_messages: bool, has_committed: bool) -> (r:
    Vec<DriverStep>)
    ensures
        r@ == light_ready_plan(has_commit_index, has_messages, has_committed),
{
    let mut plan: Vec<DriverStep> = Vec::new();
    if has_commit_index {
        plan.push(DriverStep::PersistCommit);
    }
    if has_messages {
        plan.push(DriverStep::SendLightMessages);
    }
    if has_committed {
        plan.push(DriverStep::ApplyLightCommitted);
    }
    plan.push(DriverStep::AdvanceApply);
    proof {
        assert(plan@ =~= light_ready_plan(has_commit_index, has_messages, has_committed));
    }
    plan
}

/// What the apply path does with one committed entry.
#[derive(Clone, Copy, Debug, PartialEq, Eq, Structural)]
pub enum ApplyDecision {
    /// Empty payload: a no-op entry from leader linearization, skipped.
    Skip,
    /// A membership change, decoded and handed to the conf-change handler.
    ConfChange,
    /// Application data, handed to the apply sink.
    Normal,
}

/// The decision for one committed entry: skip empty payloads, route
/// membership changes, hand everything else to the application.
pub open spec fn classify_spec(e: EntryV) -> ApplyDecision {
    if e.data.len() == 0 {
        ApplyDecision::Skip
    } else if e.entry_type == EntryType::ConfChange {
        ApplyDecision::ConfChange
    } else {
        ApplyDecision::Normal
    }
}

/// Classify one committed entry for the apply path.
pub fn classify_entry(e: &Entry) -> (r: ApplyDecision)
    ensures
        r == classify_spec(e@),
{
    if e.data.len() == 0 {
        ApplyDecision::Skip
    } else if e.entry_type == EntryType::ConfChange {
        ApplyDecision::ConfChange
    } else {
        ApplyDecision::Normal
    }
}

/// Plan the apply path for a batch of committed entries: each entry's index
/// with its decision, in log order. After a non-skipped entry is applied,
/// the driver acknowledges its index to the storage core.
pub fn handle_committed_entries(entrys: &Vec<Entry>) -> (r: Vec<(u64, ApplyDecision)>)
    ensures
        r@.len() == entrys@.len(),
        forall|j: int|
            0 <= j < entrys@.len() ==> #[trigger] r@[j] == (
                entrys@[j]@.index,
                classify_spec(entrys@[j]@),
            ),
{
    let mut plan: Vec<(u64, ApplyDecision)> = Vec::new();
    let mut j: usize = 0;
    while j < entrys.len()
        invariant
            j <= entrys@.len(),
            plan@.len() == j,
            forall|q: int|
                0 <= q < j ==> #[trigger] plan@[q] == (
                    entrys@[q]@.index,
                    classify_spec(entrys@[q]@),
                ),
        decreases entrys@.len() - j,
    {
        let decision = classify_entry(&entrys[j]);
        plan.push((entrys[j].index, decision));
        j = j + 1;
    }
    plan
}

} // verus!
