use metasrv::driver::build_config;
use metasrv::driver::classify_entry;
use metasrv::driver::handle_committed_entries;
use metasrv::driver::plan_light_ready;
use metasrv::driver::plan_ready;
use metasrv::driver::should_tick;
use metasrv::driver::ApplyDecision;
use metasrv::driver::DriverStep;
use metasrv::driver::ReadyView;
use metasrv::driver::HEARTBEAT_INTERVAL_MS;
use metasrv::election::choose_leader;
use metasrv::election::has_quorum;
use metasrv::election::initial_leader_snapshot;
use metasrv::election::quorum;
use metasrv::election::Node;
use metasrv::state::Entry;
use metasrv::state::EntryType;
use metasrv::state::HardState;

#[test]
fn config_matches_consensus_tuning() {
    let c = build_config(7, 3);
    assert_eq!(c.id, 7);
    assert_eq!(c.election_tick, 10);
    assert_eq!(c.heartbeat_tick, 3);
    assert_eq!(c.max_size_per_msg, 1048576);
    assert_eq!(c.max_inflight_msgs, 256);
    assert_eq!(c.applied, 3);
}

#[test]
fn tick_policy() {
    assert_eq!(HEARTBEAT_INTERVAL_MS, 100);
    assert!(!should_tick(99, HEARTBEAT_INTERVAL_MS));
    assert!(should_tick(100, HEARTBEAT_INTERVAL_MS));
    assert!(should_tick(250, HEARTBEAT_INTERVAL_MS));
}

#[test]
fn ready_plan_keeps_strict_order() {
    let full = ReadyView {
        has_messages: true,
        snapshot: Some(initial_leader_snapshot(1)),
        committed_entries: vec![Entry::new(EntryType::Normal, 1, 1, vec![1])],
        entries: vec![Entry::new(EntryType::Normal, 2, 1, vec![2])],
        hard_state: Some(HardState { term: 1, vote: 0, commit: 1 }),
        has_persisted_messages: true,
    };
    assert_eq!(
        plan_ready(&full),
        vec![
            DriverStep::SendMessages,
            DriverStep::ApplySnapshot,
            DriverStep::ApplyCommitted,
            DriverStep::AppendEntries,
            DriverStep::PersistHardState,
            DriverStep::SendPersistedMessages,
            DriverStep::Advance
        ]
    );
    let empty = ReadyView {
        has_messages: false,
        snapshot: None,
        committed_entries: Vec::new(),
        entries: Vec::new(),
        hard_state: None,
        has_persisted_messages: false,
    };
    assert_eq!(plan_ready(&empty), vec![DriverStep::Advance]);
}

#[test]
fn light_ready_plan_keeps_strict_order() {
    assert_eq!(
        plan_light_ready(true, true, true),
        vec![
            DriverStep::PersistCommit,
            DriverStep::SendLightMessages,
            DriverStep::ApplyLightCommitted,
            DriverStep::AdvanceApply
        ]
    );
    assert_eq!(plan_light_ready(false, false, false), vec![DriverStep::AdvanceApply]);
}

#[test]
fn committed_entry_classification() {
    let noop = Entry::new(EntryType::Normal, 1, 1, Vec::new());
    let change = Entry::new(EntryType::ConfChange, 2, 1, vec![1]);
    let normal = Entry::new(EntryType::Normal, 3, 1, vec![2]);
    assert_eq!(classify_entry(&noop), ApplyDecision::Skip);
    assert_eq!(classify_entry(&change), ApplyDecision::ConfChange);
    assert_eq!(classify_entry(&normal), ApplyDecision::Normal);
    let plan = handle_committed_entries(&vec![noop, change, normal]);
    assert_eq!(
        plan,
        vec![
            (1, ApplyDecision::Skip),
            (2, ApplyDecision::ConfChange),
            (3, ApplyDecision::Normal)
        ]
    );
}

#[test]
fn single_node_cluster_leads_itself() {
    let leader = choose_leader(1, "127.0.0.1:9000".to_string(), 1, None);
    assert_eq!(leader.node_id, 1);
    assert_eq!(leader.node_ip, "127.0.0.1:9000".to_string());
}

#[test]
fn discovered_leader_wins() {
    let peer = Node::new("10.0.0.2:9000".to_string(), 2);
    let leader = choose_leader(1, "10.0.0.1:9000".to_string(), 3, Some(peer));
    assert_eq!(leader.node_id, 2);
    let fallback = choose_leader(1, "10.0.0.1:9000".to_string(), 3, None);
    assert_eq!(fallback.node_id, 1);
}

#[test]
fn quorum_arithmetic() {
    assert_eq!(quorum(1), 1);
    assert_eq!(quorum(3), 2);
    assert_eq!(quorum(4), 3);
    assert_eq!(quorum(5), 3);
    assert!(has_quorum(2, 3));
    assert!(!has_quorum(1, 3));
}

#[test]
fn bootstrap_snapshot_shape() {
    let s = initial_leader_snapshot(9);
    assert_eq!(s.metadata.index, 1);
    assert_eq!(s.metadata.term, 1);
    assert_eq!(s.metadata.conf_state.voters, vec![9]);
    assert!(s.metadata.conf_state.learners.is_empty());
    assert!(s.data.is_empty());
}
