use metasrv::election::initial_leader_snapshot;
use metasrv::raft_core::RaftRocksDBStorageCore;
use metasrv::state::ConfState;
use metasrv::state::Entry;
use metasrv::state::EntryType;
use metasrv::state::RaftError;
use metasrv::state::Snapshot;
use metasrv::state::SnapshotMetadata;
use metasrv::state::WriteOp;

fn entry(index: u64, term: u64, data: Vec<u8>) -> Entry {
    Entry::new(EntryType::Normal, index, term, data)
}

fn snapshot_at(index: u64, term: u64) -> Snapshot {
    Snapshot {
        metadata: SnapshotMetadata { index, term, conf_state: ConfState::new() },
        data: Vec::new(),
    }
}

#[test]
fn fresh_store_defaults() {
    let s = RaftRocksDBStorageCore::new();
    assert_eq!(s.first_index(), 1);
    assert_eq!(s.last_index(), 0);
    let rs = s.raft_state();
    assert_eq!(rs.hard_state.term, 0);
    assert_eq!(rs.hard_state.vote, 0);
    assert_eq!(rs.hard_state.commit, 0);
    assert!(rs.conf_state.voters.is_empty());
    assert_eq!(s.term(0), Ok(0));
    assert_eq!(s.entries(1, 1, None), Ok(Vec::new()));
}

#[test]
fn append_read_round_trip() {
    let mut s = RaftRocksDBStorageCore::new();
    let batch = vec![
        entry(1, 1, vec![10, 20]),
        entry(2, 1, vec![30]),
        entry(3, 1, Vec::new()),
    ];
    assert!(s.append(&batch).is_ok());
    assert_eq!(s.first_index(), 1);
    assert_eq!(s.last_index(), 3);
    let read = s.entries(1, 4, None).unwrap();
    assert_eq!(read, batch);
}

#[test]
fn read_respects_max_size_but_never_empty() {
    let mut s = RaftRocksDBStorageCore::new();
    let batch = vec![
        entry(1, 1, vec![10, 20]),
        entry(2, 1, vec![30]),
        entry(3, 1, vec![40]),
    ];
    s.append(&batch).unwrap();
    // Two bytes of budget: the first entry consumes it all.
    let read = s.entries(1, 4, Some(2)).unwrap();
    assert_eq!(read.len(), 1);
    assert_eq!(read[0], batch[0]);
    // A budget smaller than the first entry still yields that entry.
    let read = s.entries(1, 4, Some(0)).unwrap();
    assert_eq!(read.len(), 1);
    // Three bytes fit the first two entries.
    let read = s.entries(1, 4, Some(3)).unwrap();
    assert_eq!(read.len(), 2);
}

#[test]
fn append_then_snapshot() {
    let mut s = RaftRocksDBStorageCore::new();
    s.apply_snapshot(initial_leader_snapshot(1)).unwrap();
    assert_eq!(s.first_index(), 2);
    assert_eq!(s.last_index(), 1);
    let batch = vec![
        entry(2, 1, vec![2]),
        entry(3, 1, vec![3]),
        entry(4, 1, vec![4]),
    ];
    s.append(&batch).unwrap();
    s.apply_snapshot(snapshot_at(3, 1)).unwrap();
    assert_eq!(s.first_index(), 4);
    assert_eq!(s.last_index(), 4);
    assert_eq!(s.hard_state().commit, 3);
    let read = s.entries(4, 5, None).unwrap();
    assert_eq!(read, vec![entry(4, 1, vec![4])]);
    assert_eq!(s.entries(2, 3, None), Err(RaftError::Compacted));
}

#[test]
fn conflicting_append_truncates_tail() {
    let mut s = RaftRocksDBStorageCore::new();
    s.apply_snapshot(snapshot_at(4, 1)).unwrap();
    s.append(&vec![entry(5, 1, vec![5]), entry(6, 1, vec![6])]).unwrap();
    s.append(&vec![entry(6, 2, vec![60]), entry(7, 2, vec![70])]).unwrap();
    assert_eq!(s.last_index(), 7);
    let read = s.entries(5, 8, None).unwrap();
    assert_eq!(
        read,
        vec![entry(5, 1, vec![5]), entry(6, 2, vec![60]), entry(7, 2, vec![70])]
    );
    assert_eq!(s.term(6), Ok(2));
}

#[test]
fn snapshot_out_of_date_leaves_store_unchanged() {
    let mut s = RaftRocksDBStorageCore::new();
    s.apply_snapshot(snapshot_at(9, 1)).unwrap();
    assert_eq!(s.first_index(), 10);
    let r = s.apply_snapshot(snapshot_at(5, 1));
    assert_eq!(r, Err(RaftError::SnapshotOutOfDate));
    assert_eq!(s.first_index(), 10);
    assert_eq!(s.last_index(), 9);
    assert_eq!(s.hard_state().commit, 9);
}

#[test]
fn uncommitted_map_tracks_entries_above_commit() {
    let mut s = RaftRocksDBStorageCore::new();
    s.apply_snapshot(initial_leader_snapshot(1)).unwrap();
    assert!(s.uncommit_index.is_empty());
    s.append(&vec![entry(2, 1, vec![2]), entry(3, 1, vec![3])]).unwrap();
    assert!(s.uncommit_index.contains_key(&2));
    assert!(s.uncommit_index.contains_key(&3));
    s.set_hard_state_commit(2).unwrap();
    s.commmit_index(2).unwrap();
    assert!(!s.uncommit_index.contains_key(&2));
    assert!(s.uncommit_index.contains_key(&3));
}

#[test]
fn snapshot_application_clears_compacted_marks() {
    let mut s = RaftRocksDBStorageCore::new();
    s.append(&vec![entry(1, 1, vec![1]), entry(2, 1, vec![2])]).unwrap();
    assert!(s.uncommit_index.contains_key(&1));
    s.apply_snapshot(snapshot_at(2, 1)).unwrap();
    assert!(s.uncommit_index.is_empty());
}

#[test]
fn restart_equivalence() {
    let mut s = RaftRocksDBStorageCore::new();
    s.apply_snapshot(initial_leader_snapshot(7)).unwrap();
    s.append(&vec![entry(2, 1, vec![9, 9]), entry(3, 2, vec![7])]).unwrap();
    s.set_hard_state_commit(2).unwrap();
    s.commmit_index(2).unwrap();

    let reopened = RaftRocksDBStorageCore::open(
        s.entries.clone(),
        s.first_index_rec,
        s.last_index_rec,
        s.hard_state_rec,
        s.conf_state_rec.clone(),
        s.snapshot_metadata.clone(),
        s.uncommit_index.clone(),
    )
    .unwrap();

    assert_eq!(reopened.first_index(), s.first_index());
    assert_eq!(reopened.last_index(), s.last_index());
    let a = reopened.raft_state();
    let b = s.raft_state();
    assert_eq!(a.hard_state, b.hard_state);
    assert_eq!(a.conf_state, b.conf_state);
    let lo = s.first_index();
    let hi = s.last_index() + 1;
    assert_eq!(reopened.entries(lo, hi, None), s.entries(lo, hi, None));
    for i in lo..hi {
        assert_eq!(reopened.term(i), s.term(i));
    }
    assert_eq!(reopened.uncommit_index, s.uncommit_index);
}

#[test]
fn open_rejects_inconsistent_records() {
    // A gap between the stored entries and the index records must not reopen.
    let r = RaftRocksDBStorageCore::open(
        vec![entry(5, 1, vec![5])],
        Some(1),
        Some(5),
        None,
        None,
        SnapshotMetadata { index: 0, term: 0, conf_state: ConfState::new() },
        std::collections::HashMap::new(),
    );
    assert!(r.is_none());
}

#[test]
fn term_error_cases() {
    let mut s = RaftRocksDBStorageCore::new();
    s.apply_snapshot(snapshot_at(3, 2)).unwrap();
    s.append(&vec![entry(4, 2, vec![4])]).unwrap();
    assert_eq!(s.term(3), Ok(2));
    assert_eq!(s.term(2), Err(RaftError::Compacted));
    assert_eq!(s.term(4), Ok(2));
    assert_eq!(s.term(5), Err(RaftError::Unavailable));
}

#[test]
fn entries_error_cases() {
    let mut s = RaftRocksDBStorageCore::new();
    s.apply_snapshot(snapshot_at(3, 2)).unwrap();
    s.append(&vec![entry(4, 2, vec![4])]).unwrap();
    assert_eq!(s.entries(3, 5, None), Err(RaftError::Compacted));
    assert_eq!(s.entries(4, 6, None), Err(RaftError::Unavailable));
}

#[test]
fn snapshot_synthesis_and_unavailability() {
    let mut s = RaftRocksDBStorageCore::new();
    s.append(&vec![entry(1, 1, vec![1]), entry(2, 3, vec![2])]).unwrap();
    s.set_hard_state_commit(2).unwrap();
    s.trigger_snap_unavailable = true;
    assert_eq!(s.snapshot(), Err(RaftError::SnapshotTemporarilyUnavailable));
    let snap = s.snapshot().unwrap();
    assert_eq!(snap.metadata.index, 2);
    assert_eq!(snap.metadata.term, 3);
    assert!(snap.data.is_empty());
}

#[test]
fn append_records_engine_writes_in_order() {
    let mut s = RaftRocksDBStorageCore::new();
    s.take_pending();
    s.append(&vec![entry(1, 1, vec![1])]).unwrap();
    let ops = s.take_pending();
    assert_eq!(
        ops,
        vec![WriteOp::SetEntry(1), WriteOp::SetLastIndex(1), WriteOp::PersistUncommit]
    );
    assert!(s.take_pending().is_empty());
}

#[test]
fn conflict_append_deletes_before_writing() {
    let mut s = RaftRocksDBStorageCore::new();
    s.append(&vec![entry(1, 1, vec![1]), entry(2, 1, vec![2])]).unwrap();
    s.take_pending();
    s.append(&vec![entry(2, 2, vec![20])]).unwrap();
    let ops = s.take_pending();
    assert_eq!(
        ops,
        vec![
            WriteOp::DeleteEntry(2),
            WriteOp::SetEntry(2),
            WriteOp::SetLastIndex(2),
            WriteOp::PersistUncommit
        ]
    );
}

#[test]
fn snapshot_records_engine_writes_in_order() {
    let mut s = RaftRocksDBStorageCore::new();
    s.append(&vec![entry(1, 1, vec![1]), entry(2, 1, vec![2])]).unwrap();
    s.take_pending();
    s.apply_snapshot(snapshot_at(2, 1)).unwrap();
    let ops = s.take_pending();
    assert_eq!(
        ops,
        vec![
            WriteOp::SetSnapshotMetadata,
            WriteOp::SetHardState,
            WriteOp::DeleteFirstIndex,
            WriteOp::DeleteLastIndex,
            WriteOp::DeleteEntry(1),
            WriteOp::DeleteEntry(2),
            WriteOp::SetConfState,
            WriteOp::PersistUncommit
        ]
    );
}

#[test]
fn key_schema_names() {
    let s = RaftRocksDBStorageCore::new();
    assert_eq!(s.key_name_by_first_index(), "metasrv_first_index".to_string());
    assert_eq!(s.key_name_by_last_index(), "metasrv_last_index".to_string());
    assert_eq!(s.key_name_by_hard_state(), "metasrv_hard_state".to_string());
    assert_eq!(s.key_name_by_conf_state(), "metasrv_conf_state".to_string());
    assert_eq!(
        s.key_name_by_snapshot_metadata(),
        "metasrv_snapshot_metadata".to_string()
    );
    assert_eq!(s.key_name_uncommit(), "metasrv_uncommit_index".to_string());
    assert_eq!(s.key_name_by_entry(0), "metasrv_entry_0".to_string());
    assert_eq!(s.key_name_by_entry(42), "metasrv_entry_42".to_string());
    assert_eq!(
        s.key_name_by_entry(18446744073709551615),
        "metasrv_entry_18446744073709551615".to_string()
    );
}

#[test]
fn save_entry_overwrites_in_place() {
    let mut s = RaftRocksDBStorageCore::new();
    s.append(&vec![entry(1, 1, vec![1]), entry(2, 1, vec![2])]).unwrap();
    s.save_entry(2, entry(2, 5, vec![50])).unwrap();
    assert_eq!(s.entry_by_idx(2).unwrap(), entry(2, 5, vec![50]));
    assert_eq!(s.entry_by_idx(1).unwrap(), entry(1, 1, vec![1]));
    assert!(s.entry_by_idx(3).is_none());
}

#[test]
fn save_index_records_restate_current_values() {
    let mut s = RaftRocksDBStorageCore::new();
    s.append(&vec![entry(1, 1, vec![1])]).unwrap();
    s.save_first_index(1).unwrap();
    s.save_last_index(1).unwrap();
    assert_eq!(s.first_index_rec, Some(1));
    assert_eq!(s.last_index_rec, Some(1));
    assert_eq!(s.first_index(), 1);
    assert_eq!(s.last_index(), 1);
}

#[test]
fn truncate_entry_empties_log() {
    let mut s = RaftRocksDBStorageCore::new();
    s.apply_snapshot(snapshot_at(2, 1)).unwrap();
    s.append(&vec![entry(3, 1, vec![3])]).unwrap();
    s.truncate_entry();
    assert_eq!(s.first_index(), 3);
    assert_eq!(s.last_index(), 2);
    assert!(s.entry_by_idx(3).is_none());
}

#[test]
fn log_shape_holds_across_appends_and_snapshots() {
    let mut s = RaftRocksDBStorageCore::new();
    let check_shape = |s: &RaftRocksDBStorageCore| {
        let first = s.first_index();
        let last = s.last_index();
        assert!(first <= last + 1);
        for i in first..last + 1 {
            let e = s.entry_by_idx(i).unwrap();
            assert_eq!(e.index, i);
        }
        assert!(s.entry_by_idx(first.wrapping_sub(1)).is_none());
        assert!(s.entry_by_idx(last + 1).is_none());
    };
    check_shape(&s);
    s.append(&vec![entry(1, 1, vec![1])]).unwrap();
    check_shape(&s);
    s.append(&vec![entry(2, 1, vec![2]), entry(3, 1, vec![3])]).unwrap();
    check_shape(&s);
    s.apply_snapshot(snapshot_at(2, 1)).unwrap();
    check_shape(&s);
    s.append(&vec![entry(3, 2, vec![30]), entry(4, 2, vec![40])]).unwrap();
    check_shape(&s);
    s.apply_snapshot(snapshot_at(6, 2)).unwrap();
    check_shape(&s);
    assert_eq!(s.first_index(), 7);
    assert_eq!(s.last_index(), 6);
}

#[test]
fn empty_append_changes_nothing() {
    let mut s = RaftRocksDBStorageCore::new();
    s.append(&vec![entry(1, 1, vec![1])]).unwrap();
    s.append(&Vec::new()).unwrap();
    assert_eq!(s.first_index(), 1);
    assert_eq!(s.last_index(), 1);
    assert_eq!(s.entries(1, 2, None).unwrap(), vec![entry(1, 1, vec![1])]);
}

#[test]
fn save_states_round_trip() {
    let mut s = RaftRocksDBStorageCore::new();
    let cs = ConfState { voters: vec![1, 2, 3], learners: vec![4] };
    s.save_conf_state(cs.clone()).unwrap();
    assert_eq!(s.conf_state(), cs);
    let hs = metasrv::state::HardState { term: 3, vote: 1, commit: 0 };
    s.save_hard_state(hs).unwrap();
    assert_eq!(s.hard_state(), hs);
    assert_eq!(s.create_snapshot_data(), Vec::<u8>::new());
}
