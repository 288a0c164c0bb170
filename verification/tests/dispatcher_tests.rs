//! Tests of the log manager: events reach the instance of their log and no
//! other.

use raft_core::consensus::{Actions, Consensus, ConsensusTimeout};
use raft_core::dispatcher::LogManager;
use raft_core::log::MemLog;
use raft_core::state_machine::NullStateMachine;

#[test]
fn test_dispatch_by_log_id() {
    let mut manager: LogManager<MemLog, NullStateMachine> = LogManager::new();
    let first: u128 = 1;
    let second: u128 = 2;
    manager.add_log(Consensus::new(0, first, Vec::new(), MemLog::new(), NullStateMachine::new()));
    manager.add_log(Consensus::new(0, second, Vec::new(), MemLog::new(), NullStateMachine::new()));

    let mut actions = Actions::new();
    manager.dispatch_timeout(ConsensusTimeout::Election(first), &mut actions).unwrap();

    assert!(manager.instances[0].1.is_leader());
    assert!(manager.instances[1].1.is_follower());

    // A timeout for a log not served here is dropped.
    manager.dispatch_timeout(ConsensusTimeout::Election(99), &mut actions).unwrap();
    assert!(manager.instances[1].1.is_follower());
}
