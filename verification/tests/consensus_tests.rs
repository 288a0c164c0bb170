//! Cluster-level tests: elections, heartbeats, replication, reordering and
//! transactions, driven through the public event handlers.

use std::collections::VecDeque;

use raft_core::consensus::{Actions, Consensus, ConsensusTimeout};
use raft_core::log::{Log, MemLog};
use raft_core::messages::{
    AppendEntriesRequest, AppendResult, ClientRequest, ClientRequestKind, CommandResponse,
    PeerMessage, RequestVoteRequest, VoteResult,
};
use raft_core::state_machine::{EchoStateMachine, NullStateMachine, StateMachine};
use raft_core::{ClientId, Entry, PeerAddr, ServerId};

type TestPeer = Consensus<MemLog, NullStateMachine>;

const LID: u128 = 0x4242;

fn addr(id: ServerId) -> PeerAddr {
    PeerAddr { host: 0x7f00_0001, port: id as u16 }
}

fn new_cluster(size: u64) -> Vec<(ServerId, TestPeer)> {
    let ids: Vec<(ServerId, PeerAddr)> = (0..size).map(|id| (id, addr(id))).collect();
    ids.iter()
        .map(|&(id, _)| {
            let peers: Vec<(ServerId, PeerAddr)> =
                ids.iter().cloned().filter(|&(other, _)| other != id).collect();
            let store = MemLog::new();
            (id, Consensus::new(id, LID, peers, store, NullStateMachine::new()))
        })
        .collect()
}

fn peer_mut<'a>(peers: &'a mut Vec<(ServerId, TestPeer)>, id: ServerId) -> &'a mut TestPeer {
    &mut peers.iter_mut().find(|(pid, _)| *pid == id).unwrap().1
}

fn peer<'a>(peers: &'a Vec<(ServerId, TestPeer)>, id: ServerId) -> &'a TestPeer {
    &peers.iter().find(|(pid, _)| *pid == id).unwrap().1
}

/// Applies the actions' peer messages to the cluster (and, recursively, any
/// messages those provoke), returning the client messages produced.
fn apply_actions(
    from: ServerId,
    mut actions: Actions,
    peers: &mut Vec<(ServerId, TestPeer)>,
) -> Vec<(ClientId, CommandResponse)> {
    let mut queue: VecDeque<(ServerId, ServerId, PeerMessage)> = VecDeque::new();
    for (to, message) in actions.peer_messages.drain(..) {
        queue.push_back((from, to, message));
    }
    while let Some((from, to, message)) = queue.pop_front() {
        peer_mut(peers, to)
            .apply_peer_message(from, message, &mut actions)
            .unwrap();
        for (inner_to, message) in actions.peer_messages.drain(..) {
            queue.push_back((to, inner_to, message));
        }
    }
    actions.client_messages
}

/// Elects `leader` in a cluster whose members share one term.
fn elect_leader(leader: ServerId, peers: &mut Vec<(ServerId, TestPeer)>) {
    let mut actions = Actions::new();
    peer_mut(peers, leader)
        .apply_timeout(ConsensusTimeout::Election(LID), &mut actions)
        .unwrap();
    let client_messages = apply_actions(leader, actions, peers);
    assert!(client_messages.is_empty());
    assert!(peer(peers, leader).is_leader());
}

fn proposal(session: u128, entry: &[u8]) -> ClientRequest {
    ClientRequest {
        log_id: LID,
        which: ClientRequestKind::Proposal { session, entry: entry.to_vec() },
    }
}

#[test]
fn test_majority() {
    let (_, peer) = new_cluster(1).into_iter().next().unwrap();
    assert_eq!(1, peer.majority());

    let (_, peer) = new_cluster(2).into_iter().next().unwrap();
    assert_eq!(2, peer.majority());

    let (_, peer) = new_cluster(3).into_iter().next().unwrap();
    assert_eq!(2, peer.majority());

    let (_, peer) = new_cluster(4).into_iter().next().unwrap();
    assert_eq!(3, peer.majority());
}

#[test]
fn test_majority_formula() {
    for n in 1..=10u64 {
        let (_, peer) = new_cluster(n).into_iter().next().unwrap();
        assert_eq!((n as usize) / 2 + 1, peer.majority());
    }
}

#[test]
fn test_solitary_consensus_transition_to_leader() {
    let (_, mut peer) = new_cluster(1).into_iter().next().unwrap();
    assert!(peer.is_follower());

    let mut actions = Actions::new();
    peer.apply_timeout(ConsensusTimeout::Election(LID), &mut actions)
        .unwrap();
    assert!(peer.is_leader());
    assert!(actions.peer_messages.is_empty());
    assert!(actions.client_messages.is_empty());
    assert!(actions.timeouts.is_empty());
}

#[test]
fn test_election() {
    for group_size in 1..10 {
        let mut peers = new_cluster(group_size);
        let peer_ids: Vec<ServerId> = peers.iter().map(|(id, _)| *id).collect();
        let leader = peer_ids[0];
        elect_leader(leader, &mut peers);
        assert!(peer(&peers, leader).is_leader());
        for follower in peer_ids.iter().skip(1) {
            assert!(peer(&peers, *follower).is_follower());
            assert_eq!(peer(&peers, *follower).follower_state.leader, Some(leader));
        }
    }
}

#[test]
fn test_heartbeat() {
    let mut peers = new_cluster(2);
    let peer_ids: Vec<ServerId> = peers.iter().map(|(id, _)| *id).collect();
    let leader_id = peer_ids[0];
    let follower_id = peer_ids[1];
    elect_leader(leader_id, &mut peers);

    // Leader pings with a heartbeat timeout.
    let leader_append_entries = {
        let mut actions = Actions::new();
        let leader = peer_mut(&mut peers, leader_id);
        leader.heartbeat_timeout(follower_id, &mut actions);

        let (to, message) = actions.peer_messages.remove(0);
        assert_eq!(to, follower_id);
        message
    };

    // Follower responds and resets its election timeout.
    let follower_response = {
        let mut actions = Actions::new();
        let follower = peer_mut(&mut peers, follower_id);
        follower
            .apply_peer_message(leader_id, leader_append_entries, &mut actions)
            .unwrap();

        assert_eq!(actions.timeouts[0], ConsensusTimeout::Election(LID));

        let (to, message) = actions.peer_messages.remove(0);
        assert_eq!(to, leader_id);
        message
    };

    // Leader applies the response and arms the follower's heartbeat again.
    let leader = peer_mut(&mut peers, leader_id);
    let mut actions = Actions::new();
    leader
        .apply_peer_message(follower_id, follower_response, &mut actions)
        .unwrap();
    assert_eq!(actions.timeouts[0], ConsensusTimeout::Heartbeat(follower_id, LID));
}

#[test]
fn test_slow_heartbeat() {
    let mut peers = new_cluster(2);
    let peer_ids: Vec<ServerId> = peers.iter().map(|(id, _)| *id).collect();
    let peer_0 = peer_ids[0];
    let peer_1 = peer_ids[1];
    elect_leader(peer_0, &mut peers);

    let mut peer_0_actions = Actions::new();
    peer_mut(&mut peers, peer_0)
        .apply_timeout(ConsensusTimeout::Heartbeat(peer_1, LID), &mut peer_0_actions)
        .unwrap();
    assert!(peer(&peers, peer_0).is_leader());

    let mut peer_1_actions = Actions::new();
    peer_mut(&mut peers, peer_1)
        .apply_timeout(ConsensusTimeout::Election(LID), &mut peer_1_actions)
        .unwrap();
    assert!(peer(&peers, peer_1).is_candidate());

    // Apply candidate messages.
    assert!(apply_actions(peer_1, peer_1_actions, &mut peers).is_empty());
    assert!(peer(&peers, peer_0).is_follower());
    assert!(peer(&peers, peer_1).is_leader());

    // Apply stale heartbeat.
    assert!(apply_actions(peer_0, peer_0_actions, &mut peers).is_empty());
    assert!(peer(&peers, peer_0).is_follower());
    assert!(peer(&peers, peer_1).is_leader());
}

#[test]
fn test_proposal() {
    // Test various sizes.
    for i in 1..7 {
        let mut peers = new_cluster(i);
        let peer_ids: Vec<ServerId> = peers.iter().map(|(id, _)| *id).collect();
        let leader = peer_ids[0];
        elect_leader(leader, &mut peers);

        let value: &[u8] = b"foo";
        let mut actions = Actions::new();
        let client: ClientId = 0xc11e;

        peer_mut(&mut peers, leader)
            .apply_client_message(client, proposal(0xbeef, value), &mut actions)
            .unwrap();

        let client_messages = apply_actions(leader, actions, &mut peers);
        assert_eq!(1, client_messages.len());
        for (_, peer) in peers.iter() {
            let (term, bytes) = peer.log.entry(1);
            assert_eq!(term, 1);
            assert_eq!(bytes.as_slice(), value);
        }
        // The leader applied the committed command; a heartbeat carries the
        // commit index to each follower, after which every machine has seen
        // the same commands in the same order.
        let reference = peer(&peers, leader).state_machine.commands.clone();
        assert_eq!(reference, vec![value.to_vec()]);
        for follower in peer_ids.iter().skip(1) {
            let mut actions = Actions::new();
            peer_mut(&mut peers, leader).heartbeat_timeout(*follower, &mut actions);
            apply_actions(leader, actions, &mut peers);
            assert_eq!(peer(&peers, *follower).state_machine.commands, reference);
        }
    }
}

#[test]
fn test_append_reorder() {
    let mut peers = new_cluster(2);
    let peer_ids: Vec<ServerId> = peers.iter().map(|(id, _)| *id).collect();
    let mut actions = Actions::new();
    let value: &[u8] = b"foo";
    let two_entries = vec![
        Entry { term: 1, command: value.to_vec() },
        Entry { term: 1, command: value.to_vec() },
    ];
    let one_entry = vec![Entry { term: 1, command: value.to_vec() }];
    let msg1 = PeerMessage::AppendEntriesRequest(AppendEntriesRequest {
        log_id: LID,
        term: 1,
        prev_log_index: 0,
        prev_log_term: 0,
        entries: two_entries,
        leader_commit: 0,
    });
    let msg2 = PeerMessage::AppendEntriesRequest(AppendEntriesRequest {
        log_id: LID,
        term: 1,
        prev_log_index: 0,
        prev_log_term: 0,
        entries: one_entry,
        leader_commit: 0,
    });

    let follower = peer_mut(&mut peers, peer_ids[0]);
    follower.apply_peer_message(peer_ids[1], msg1, &mut actions).unwrap();
    follower.apply_peer_message(peer_ids[1], msg2, &mut actions).unwrap();

    assert_eq!(follower.latest_log_index(), 2);
    let (term1, bytes1) = follower.log.entry(1);
    let (term2, bytes2) = follower.log.entry(2);
    assert_eq!((term1, bytes1.as_slice()), (1, value));
    assert_eq!((term2, bytes2.as_slice()), (1, value));
}

#[test]
fn test_vote_granted_once_per_term() {
    // One voter, two candidates soliciting in the same term: only the first
    // is granted, the second is told the vote is taken.
    let mut peers = new_cluster(3);
    let peer_ids: Vec<ServerId> = peers.iter().map(|(id, _)| *id).collect();
    let voter = peer_ids[2];
    let request = |_candidate: ServerId| RequestVoteRequest {
        log_id: LID,
        term: 1,
        last_log_index: 0,
        last_log_term: 0,
    };

    let mut actions = Actions::new();
    let v = peer_mut(&mut peers, voter);
    v.apply_peer_message(
        peer_ids[0],
        PeerMessage::RequestVoteRequest(request(peer_ids[0])),
        &mut actions,
    )
    .unwrap();
    v.apply_peer_message(
        peer_ids[1],
        PeerMessage::RequestVoteRequest(request(peer_ids[1])),
        &mut actions,
    )
    .unwrap();

    let votes: Vec<VoteResult> = actions
        .peer_messages
        .iter()
        .filter_map(|(_, m)| match m {
            PeerMessage::RequestVoteResponse(r) => Some(r.which),
            _ => None,
        })
        .collect();
    assert_eq!(votes, vec![VoteResult::Granted, VoteResult::AlreadyVoted]);
}

#[test]
fn test_vote_denied_for_outdated_log() {
    // A voter holding an entry refuses a candidate with an empty log.
    let mut peers = new_cluster(2);
    let peer_ids: Vec<ServerId> = peers.iter().map(|(id, _)| *id).collect();
    let voter = peer_mut(&mut peers, peer_ids[0]);
    let mut actions = Actions::new();
    let seed = PeerMessage::AppendEntriesRequest(AppendEntriesRequest {
        log_id: LID,
        term: 1,
        prev_log_index: 0,
        prev_log_term: 0,
        entries: vec![Entry { term: 1, command: b"x".to_vec() }],
        leader_commit: 0,
    });
    voter.apply_peer_message(peer_ids[1], seed, &mut actions).unwrap();
    actions.peer_messages.clear();

    let request = RequestVoteRequest { log_id: LID, term: 2, last_log_index: 0, last_log_term: 0 };
    voter
        .apply_peer_message(peer_ids[1], PeerMessage::RequestVoteRequest(request), &mut actions)
        .unwrap();
    match &actions.peer_messages.last().unwrap().1 {
        PeerMessage::RequestVoteResponse(r) => {
            assert_eq!(r.which, VoteResult::InconsistentLog)
        },
        other => panic!("unexpected message: {:?}", other),
    }
}

#[test]
fn test_backfill_after_lost_append() {
    // The replication message of a proposal is lost; the next heartbeat
    // uncovers the gap and the leader backfills until the follower catches
    // up and the entry commits.
    let mut peers = new_cluster(2);
    let peer_ids: Vec<ServerId> = peers.iter().map(|(id, _)| *id).collect();
    let leader = peer_ids[0];
    let follower = peer_ids[1];
    elect_leader(leader, &mut peers);

    let client: ClientId = 0xc11e;
    let lost_actions = {
        let mut actions = Actions::new();
        peer_mut(&mut peers, leader)
            .apply_client_message(client, proposal(0x1, b"late"), &mut actions)
            .unwrap();
        actions
    };
    drop(lost_actions);
    assert_eq!(peer(&peers, leader).latest_log_index(), 1);
    assert_eq!(peer(&peers, follower).latest_log_index(), 0);
    assert_eq!(peer(&peers, leader).commit_index, 0);

    let mut actions = Actions::new();
    peer_mut(&mut peers, leader)
        .apply_timeout(ConsensusTimeout::Heartbeat(follower, LID), &mut actions)
        .unwrap();
    let client_messages = apply_actions(leader, actions, &mut peers);

    assert_eq!(peer(&peers, follower).latest_log_index(), 1);
    let (term, bytes) = peer(&peers, follower).log.entry(1);
    assert_eq!((term, bytes.as_slice()), (1, &b"late"[..]));
    assert_eq!(peer(&peers, leader).commit_index, 1);
    // The proposal is finally acknowledged to the client.
    assert_eq!(client_messages.len(), 1);
}

#[test]
fn test_acknowledgement_payloads() {
    // A solitary leader with an echoing machine: the proposal acknowledgement
    // carries the machine's response (the command itself), and a query answer
    // carries the machine's query result.
    let mut leader: Consensus<MemLog, EchoStateMachine> =
        Consensus::new(0, LID, Vec::new(), MemLog::new(), EchoStateMachine::new());
    let mut actions = Actions::new();
    leader.apply_timeout(ConsensusTimeout::Election(LID), &mut actions).unwrap();
    assert!(leader.is_leader());

    let client: ClientId = 0xc11e;
    leader.apply_client_message(client, proposal(0x1, b"echo me"), &mut actions).unwrap();
    match actions.client_messages.pop().unwrap() {
        (to, CommandResponse::Success { data, .. }) => {
            assert_eq!(to, client);
            assert_eq!(data, b"echo me".to_vec());
        },
        other => panic!("unexpected response: {:?}", other),
    }

    leader.apply_client_message(
        client,
        ClientRequest { log_id: LID, which: ClientRequestKind::Query { query: b"ask".to_vec() } },
        &mut actions,
    )
    .unwrap();
    match actions.client_messages.pop().unwrap() {
        (_, CommandResponse::Success { data, .. }) => assert_eq!(data, b"ask".to_vec()),
        other => panic!("unexpected response: {:?}", other),
    }
}

#[test]
fn test_transaction_begin_ack_carries_session() {
    let (_, mut leader) = new_cluster(1).into_iter().next().unwrap();
    let mut actions = Actions::new();
    leader.apply_timeout(ConsensusTimeout::Election(LID), &mut actions).unwrap();

    let client: ClientId = 0xc11e;
    let session: u128 = 0x1122_3344_5566_7788_99aa_bbcc_ddee_ff00;
    leader.apply_client_message(
        client,
        ClientRequest { log_id: LID, which: ClientRequestKind::TransactionBegin { session } },
        &mut actions,
    )
    .unwrap();
    match actions.client_messages.pop().unwrap() {
        (_, CommandResponse::TransactionSuccess { data, .. }) => {
            assert_eq!(data, session.to_be_bytes().to_vec());
        },
        other => panic!("unexpected response: {:?}", other),
    }
}

#[test]
fn test_duration_ms() {
    for _ in 0..32 {
        let d = ConsensusTimeout::Election(LID).duration_ms();
        assert!((5000..10000).contains(&d));
    }
    assert_eq!(ConsensusTimeout::Heartbeat(1, LID).duration_ms(), 2000);
}

#[test]
fn test_transaction_rollback() {
    // S7: a solitary leader opens a transaction, commits one proposal under
    // it, and rolls back; indices, log and machine return to their state
    // from begin.
    let (_, mut leader) = new_cluster(1).into_iter().next().unwrap();
    let mut actions = Actions::new();
    leader.apply_timeout(ConsensusTimeout::Election(LID), &mut actions).unwrap();
    assert!(leader.is_leader());

    let client: ClientId = 0xc11e;
    let session: u128 = 0x5e55;

    // One committed entry before the transaction.
    leader.apply_client_message(client, proposal(0x1, b"pre"), &mut actions).unwrap();
    let commit_before = leader.commit_index;
    let applied_before = leader.last_applied;
    let snapshot_before = leader.state_machine.snapshot().unwrap();
    assert_eq!(commit_before, 1);

    leader.apply_client_message(
        client,
        ClientRequest { log_id: LID, which: ClientRequestKind::TransactionBegin { session } },
        &mut actions,
    )
    .unwrap();
    assert!(leader.transaction.is_active);

    // A proposal under the session is replicated and committed.
    leader.apply_client_message(client, proposal(session, b"x"), &mut actions).unwrap();
    assert_eq!(leader.commit_index, 2);

    leader.apply_client_message(
        client,
        ClientRequest { log_id: LID, which: ClientRequestKind::TransactionRollback },
        &mut actions,
    )
    .unwrap();
    assert!(!leader.transaction.is_active);
    assert_eq!(leader.commit_index, commit_before);
    assert_eq!(leader.last_applied, applied_before);
    assert_eq!(leader.latest_log_index(), commit_before);
    assert_eq!(leader.state_machine.snapshot().unwrap(), snapshot_before);
}

#[test]
fn test_transaction_queue_and_drain() {
    // Proposals under a foreign session are parked while a transaction runs,
    // and handle_queue serves them once it is over.
    let (_, mut leader) = new_cluster(1).into_iter().next().unwrap();
    let mut actions = Actions::new();
    leader.apply_timeout(ConsensusTimeout::Election(LID), &mut actions).unwrap();

    let client: ClientId = 0xc11e;
    let session: u128 = 0x5e55;
    leader.apply_client_message(
        client,
        ClientRequest { log_id: LID, which: ClientRequestKind::TransactionBegin { session } },
        &mut actions,
    )
    .unwrap();

    leader.apply_client_message(client, proposal(0xd1ff, b"parked"), &mut actions).unwrap();
    assert_eq!(actions.transaction_queue.len(), 1);
    assert_eq!(leader.transaction.inflight_count, 1);
    assert_eq!(leader.latest_log_index(), 0);

    leader.apply_client_message(
        client,
        ClientRequest { log_id: LID, which: ClientRequestKind::TransactionCommit },
        &mut actions,
    )
    .unwrap();
    assert!(!leader.transaction.is_active);

    let mut queue: Vec<(ClientId, ClientRequest)> = actions
        .transaction_queue
        .drain(..)
        .map(|(_, c, request)| (c, request))
        .collect();
    leader.handle_queue(&mut queue, &mut actions).unwrap();
    assert!(queue.is_empty());
    assert_eq!(leader.latest_log_index(), 1);
    let (_, bytes) = leader.log.entry(1);
    assert_eq!(bytes.as_slice(), b"parked");
}

#[test]
fn test_transaction_failure_kinds() {
    let (_, mut leader) = new_cluster(1).into_iter().next().unwrap();
    let mut actions = Actions::new();
    leader.apply_timeout(ConsensusTimeout::Election(LID), &mut actions).unwrap();
    let client: ClientId = 0xc11e;

    // Commit without an open transaction fails.
    leader.apply_client_message(
        client,
        ClientRequest { log_id: LID, which: ClientRequestKind::TransactionCommit },
        &mut actions,
    )
    .unwrap();
    match actions.client_messages.pop().unwrap().1 {
        CommandResponse::TransactionFailure { kind, .. } => {
            assert_eq!(kind, raft_core::transaction::TransactionError::AlreadyActive)
        },
        other => panic!("unexpected response: {:?}", other),
    }

    // A second begin while one is open fails too.
    leader.apply_client_message(
        client,
        ClientRequest { log_id: LID, which: ClientRequestKind::TransactionBegin { session: 1 } },
        &mut actions,
    )
    .unwrap();
    leader.apply_client_message(
        client,
        ClientRequest { log_id: LID, which: ClientRequestKind::TransactionBegin { session: 2 } },
        &mut actions,
    )
    .unwrap();
    match actions.client_messages.pop().unwrap().1 {
        CommandResponse::TransactionFailure { kind, .. } => {
            assert_eq!(kind, raft_core::transaction::TransactionError::NotActive)
        },
        other => panic!("unexpected response: {:?}", other),
    }
}

#[test]
fn test_stale_append_entries_rejected() {
    // A request from an older term is answered with StaleTerm.
    let mut peers = new_cluster(2);
    let peer_ids: Vec<ServerId> = peers.iter().map(|(id, _)| *id).collect();
    let leader = peer_ids[0];
    elect_leader(leader, &mut peers);
    let follower = peer_mut(&mut peers, peer_ids[1]);
    assert_eq!(follower.current_term(), 1);

    let mut actions = Actions::new();
    let stale = PeerMessage::AppendEntriesRequest(AppendEntriesRequest {
        log_id: LID,
        term: 0,
        prev_log_index: 0,
        prev_log_term: 0,
        entries: vec![],
        leader_commit: 0,
    });
    follower.apply_peer_message(leader, stale, &mut actions).unwrap();
    match &actions.peer_messages[0].1 {
        PeerMessage::AppendEntriesResponse(r) => {
            assert!(matches!(r.which, AppendResult::StaleTerm))
        },
        other => panic!("unexpected message: {:?}", other),
    }
}
