//! The consensus state machine of one log: it consumes events (peer messages,
//! client requests, timeouts) and, besides mutating its own state, returns the
//! I/O it wants performed as an [`Actions`] record.

use vstd::prelude::*;

use crate::log::{term_at, views_of, Log, LogContents};
use crate::messages::{
    AppendEntriesRequest, AppendEntriesResponse, AppendResult, AppendResultView, ClientRequest,
    ClientRequestKind, ClientRequestKindView, ClientRequestView, CommandResponse,
    CommandResponseView, PeerMessage, PeerMessageView, RequestVoteRequest, RequestVoteResponse,
    VoteResult,
};
use crate::state::{CandidateState, ConsensusState, FollowerState, LeaderState};
use crate::state_machine::{StateMachine, StateMachineError};
use crate::transaction::{TransactionError, TransactionManager};
use crate::{ClientId, Entry, LogId, LogIndex, PeerAddr, ServerId, Term, TransactionId};

verus! {

/// Lower bound (inclusive) of the randomized election timeout, in milliseconds.
pub const ELECTION_MIN: u64 = 5000;

/// Upper bound (exclusive) of the randomized election timeout, in milliseconds.
pub const ELECTION_MAX: u64 = 10000;

/// Fixed heartbeat interval, in milliseconds; kept well under `ELECTION_MIN / 2`.
pub const HEARTBEAT_DURATION: u64 = 2000;

/// Consensus timeout kinds that the dispatcher arms on the core's behalf.
#[derive(Clone, Copy, Debug, PartialEq, Eq, Hash, Structural)]
pub enum ConsensusTimeout {
    /// An election timeout; its duration is randomized.
    Election(LogId),
    /// A heartbeat timeout for one peer; its duration is fixed.
    Heartbeat(ServerId, LogId),
}

/// Relies on rand's `Rng::gen_range` over the half-open range `lo..hi`: the
/// sample lies in `[lo, hi)`, and the call panics only on an empty range,
/// which the precondition rules out.
#[verifier::external_body]
fn random_in_range(lo: u64, hi: u64) -> (r: u64)
    requires
        lo < hi,
    ensures
        lo <= r < hi,
{
    rand::Rng::gen_range(&mut rand::thread_rng(), lo..hi)
}

impl ConsensusTimeout {
    /// The log this timeout belongs to.
    pub open spec fn spec_log_id(&self) -> LogId {
        match self {
            ConsensusTimeout::Election(lid) => *lid,
            ConsensusTimeout::Heartbeat(_, lid) => *lid,
        }
    }

    /// The timeout period in milliseconds: fixed for heartbeats, drawn
    /// uniformly from the election window for elections.
    pub fn duration_ms(&self) -> (d: u64)
        ensures
            self is Election ==> ELECTION_MIN <= d < ELECTION_MAX,
            self is Heartbeat ==> d == HEARTBEAT_DURATION,
    {
        match self {
            ConsensusTimeout::Election(..) => random_in_range(ELECTION_MIN, ELECTION_MAX),
            ConsensusTimeout::Heartbeat(..) => HEARTBEAT_DURATION,
        }
    }
}

/// The I/O a consensus instance asks its dispatcher to carry out in response
/// to one event.
#[derive(Debug)]
pub struct Actions {
    /// Messages to send to single peers.
    pub peer_messages: Vec<(ServerId, PeerMessage)>,
    /// Messages to send to clients.
    pub client_messages: Vec<(ClientId, CommandResponse)>,
    /// Logs whose pending timeouts should be cleared.
    pub clear_timeouts: Vec<LogId>,
    /// New timeouts to arm.
    pub timeouts: Vec<ConsensusTimeout>,
    /// Whether to drop the outbound peer message queues.
    pub clear_peer_messages: bool,
    /// Client traffic parked because a transaction is active.
    pub transaction_queue: Vec<(LogId, ClientId, ClientRequest)>,
    /// Messages to send to every peer of the cluster.
    pub peer_messages_broadcast: Vec<PeerMessage>,
}

/// The views of a peer-message list.
pub open spec fn peer_msgs_view(v: Seq<(ServerId, PeerMessage)>) -> Seq<(ServerId, PeerMessageView)> {
    v.map_values(|p: (ServerId, PeerMessage)| (p.0, p.1@))
}

/// The views of a client-message list.
pub open spec fn client_msgs_view(v: Seq<(ClientId, CommandResponse)>) -> Seq<
    (ClientId, CommandResponseView),
> {
    v.map_values(|p: (ClientId, CommandResponse)| (p.0, p.1@))
}

/// The views of a parked-traffic list.
pub open spec fn queue_view(v: Seq<(LogId, ClientId, ClientRequest)>) -> Seq<
    (LogId, ClientId, ClientRequestView),
> {
    v.map_values(|p: (LogId, ClientId, ClientRequest)| (p.0, p.1, p.2@))
}

/// The views of a broadcast list.
pub open spec fn broadcast_view(v: Seq<PeerMessage>) -> Seq<PeerMessageView> {
    v.map_values(|m: PeerMessage| m@)
}

/// `post` is `pre` extended by exactly the elements of `d`.
pub open spec fn extended<T>(pre: Seq<T>, post: Seq<T>, d: Seq<T>) -> bool {
    if d.len() == 0 {
        post == pre
    } else {
        post == pre + d
    }
}

impl Actions {
    /// `post` is `pre` extended by exactly the given additions, field by field.
    pub open spec fn delta(
        pre: Actions,
        post: Actions,
        peer: Seq<(ServerId, PeerMessageView)>,
        client: Seq<(ClientId, CommandResponseView)>,
        clear_timeouts: Seq<LogId>,
        timeouts: Seq<ConsensusTimeout>,
        set_clear_peer_messages: bool,
        queued: Seq<(LogId, ClientId, ClientRequestView)>,
        broadcast: Seq<PeerMessageView>,
    ) -> bool {
        &&& if peer.len() == 0 {
            post.peer_messages == pre.peer_messages
        } else {
            peer_msgs_view(post.peer_messages@) == peer_msgs_view(pre.peer_messages@) + peer
        }
        &&& if client.len() == 0 {
            post.client_messages == pre.client_messages
        } else {
            client_msgs_view(post.client_messages@) == client_msgs_view(pre.client_messages@)
                + client
        }
        &&& if clear_timeouts.len() == 0 {
            post.clear_timeouts == pre.clear_timeouts
        } else {
            post.clear_timeouts@ == pre.clear_timeouts@ + clear_timeouts
        }
        &&& if timeouts.len() == 0 {
            post.timeouts == pre.timeouts
        } else {
            post.timeouts@ == pre.timeouts@ + timeouts
        }
        &&& post.clear_peer_messages == (pre.clear_peer_messages || set_clear_peer_messages)
        &&& if queued.len() == 0 {
            post.transaction_queue == pre.transaction_queue
        } else {
            queue_view(post.transaction_queue@) == queue_view(pre.transaction_queue@) + queued
        }
        &&& if broadcast.len() == 0 {
            post.peer_messages_broadcast == pre.peer_messages_broadcast
        } else {
            broadcast_view(post.peer_messages_broadcast@) == broadcast_view(
                pre.peer_messages_broadcast@,
            ) + broadcast
        }
    }

    /// Nothing was added.
    pub open spec fn unchanged(pre: Actions, post: Actions) -> bool {
        Actions::delta(
            pre,
            post,
            Seq::empty(),
            Seq::empty(),
            Seq::empty(),
            Seq::empty(),
            false,
            Seq::empty(),
            Seq::empty(),
        )
    }

    /// Creates an empty `Actions` set.
    pub fn new() -> (a: Actions)
        ensures
            a.peer_messages@.len() == 0,
            a.client_messages@.len() == 0,
            a.clear_timeouts@.len() == 0,
            a.timeouts@.len() == 0,
            !a.clear_peer_messages,
            a.transaction_queue@.len() == 0,
            a.peer_messages_broadcast@.len() == 0,
    {
        Actions {
            peer_messages: Vec::new(),
            client_messages: Vec::new(),
            clear_timeouts: Vec::new(),
            timeouts: Vec::new(),
            clear_peer_messages: false,
            transaction_queue: Vec::new(),
            peer_messages_broadcast: Vec::new(),
        }
    }

    /// Queues a message to one peer.
    pub fn push_peer_message(&mut self, to: ServerId, msg: PeerMessage)
        ensures
            Actions::delta(
                *old(self),
                *final(self),
                seq![(to, msg@)],
                Seq::empty(),
                Seq::empty(),
                Seq::empty(),
                false,
                Seq::empty(),
                Seq::empty(),
            ),
    {
        let ghost pre = *self;
        self.peer_messages.push((to, msg));
        proof {
            assert(peer_msgs_view(self.peer_messages@) =~= peer_msgs_view(pre.peer_messages@)
                + seq![(to, msg@)]);
            assert(Actions::delta(
                pre,
                *self,
                seq![(to, msg@)],
                Seq::empty(),
                Seq::empty(),
                Seq::empty(),
                false,
                Seq::empty(),
                Seq::empty(),
            ));
        }
    }

    /// Queues a message to one client.
    pub fn push_client_message(&mut self, to: ClientId, msg: CommandResponse)
        ensures
            Actions::delta(
                *old(self),
                *final(self),
                Seq::empty(),
                seq![(to, msg@)],
                Seq::empty(),
                Seq::empty(),
                false,
                Seq::empty(),
                Seq::empty(),
            ),
    {
        let ghost pre = *self;
        self.client_messages.push((to, msg));
        proof {
            assert(client_msgs_view(self.client_messages@) =~= client_msgs_view(
                pre.client_messages@,
            ) + seq![(to, msg@)]);
        }
    }

    /// Queues a log id whose timeouts should be cleared.
    pub fn push_clear_timeouts(&mut self, log_id: LogId)
        ensures
            Actions::delta(
                *old(self),
                *final(self),
                Seq::empty(),
                Seq::empty(),
                seq![log_id],
                Seq::empty(),
                false,
                Seq::empty(),
                Seq::empty(),
            ),
    {
        let ghost pre = *self;
        self.clear_timeouts.push(log_id);
        proof {
            assert(self.clear_timeouts@ =~= pre.clear_timeouts@ + seq![log_id]);
        }
    }

    /// Queues a timeout to arm.
    pub fn push_timeout(&mut self, timeout: ConsensusTimeout)
        ensures
            Actions::delta(
                *old(self),
                *final(self),
                Seq::empty(),
                Seq::empty(),
                Seq::empty(),
                seq![timeout],
                false,
                Seq::empty(),
                Seq::empty(),
            ),
    {
        let ghost pre = *self;
        self.timeouts.push(timeout);
        proof {
            assert(self.timeouts@ =~= pre.timeouts@ + seq![timeout]);
        }
    }

    /// Parks client traffic behind the active transaction.
    pub fn push_transaction_queue(&mut self, log_id: LogId, from: ClientId, req: ClientRequest)
        ensures
            Actions::delta(
                *old(self),
                *final(self),
                Seq::empty(),
                Seq::empty(),
                Seq::empty(),
                Seq::empty(),
                false,
                seq![(log_id, from, req@)],
                Seq::empty(),
            ),
    {
        let ghost pre = *self;
        self.transaction_queue.push((log_id, from, req));
        proof {
            assert(queue_view(self.transaction_queue@) =~= queue_view(pre.transaction_queue@)
                + seq![(log_id, from, req@)]);
        }
    }
}

/// The majority threshold of a cluster of `n` replicas: strictly more than
/// half of them.
pub open spec fn spec_majority(n: nat) -> nat {
    n / 2 + 1
}

/// Concatenation cancels on the right: if `a + x == b + x` then `a == b`.
proof fn lemma_seq_right_cancel<T>(a: Seq<T>, b: Seq<T>, x: Seq<T>)
    requires
        a + x == b + x,
    ensures
        a == b,
{
    assert((a + x).len() == a.len() + x.len());
    assert((b + x).len() == b.len() + x.len());
    assert(a.len() == b.len());
    assert forall|i: int| 0 <= i < a.len() implies a[i] == b[i] by {
        assert((a + x)[i] == a[i]);
        assert((b + x)[i] == b[i]);
    }
    assert(a =~= b);
}

/// The client messages grew by exactly one Success acknowledgement for each
/// of the first `k` queued proposals, in FIFO order, each carrying the
/// payload `data_at` assigns to its log index.
pub open spec fn acks_ok(
    proposals: Seq<(ClientId, LogIndex)>,
    k: int,
    pre: Seq<(ClientId, CommandResponseView)>,
    post: Seq<(ClientId, CommandResponseView)>,
    lid: LogId,
    data_at: spec_fn(LogIndex) -> Seq<u8>,
) -> bool {
    &&& post.len() == pre.len() + k
    &&& post.take(pre.len() as int) == pre
    &&& forall|j: int|
        0 <= j < k ==> #[trigger] post[pre.len() + j] == (
        proposals[j].0,
        CommandResponseView::Success { log_id: lid, data: data_at(proposals[j].1) },
        )
}

/// The smaller of two log indices.
pub open spec fn min_spec(a: LogIndex, b: LogIndex) -> LogIndex {
    if a < b {
        a
    } else {
        b
    }
}

/// Length of the longest prefix of the proposal FIFO whose entries are
/// committed at `commit`.
pub open spec fn acked_prefix(props: Seq<(ClientId, LogIndex)>, commit: LogIndex) -> int
    decreases props.len(),
{
    if props.len() == 0 || props[0].1 > commit {
        0
    } else {
        1 + acked_prefix(props.skip(1), commit)
    }
}

/// `acked_prefix` is the unique cut: everything before it is committed, and
/// the entry at it (if any) is not.
pub proof fn lemma_acked_prefix(props: Seq<(ClientId, LogIndex)>, commit: LogIndex, k: int)
    requires
        0 <= k <= props.len(),
        forall|j: int| 0 <= j < k ==> #[trigger] props[j].1 <= commit,
        k == props.len() || props[k].1 > commit,
    ensures
        acked_prefix(props, commit) == k,
    decreases k,
{
    if k == 0 {
    } else {
        assert(props[0].1 <= commit);
        lemma_acked_prefix(props.skip(1), commit, k - 1);
    }
}

/// One Raft state machine: the consensus instance of a single log. It applies
/// committed entries to its state machine `M` in a globally consistent order.
pub struct Consensus<L, M> {
    /// The ID of this consensus instance.
    pub id: ServerId,
    /// The other members of the consensus group, with their addresses.
    pub peers: Vec<(ServerId, PeerAddr)>,
    /// The persistent log.
    pub log: L,
    /// The application state machine client commands are applied to.
    pub state_machine: M,
    /// Index of the latest entry known to be committed.
    pub commit_index: LogIndex,
    /// Index of the latest entry applied to the state machine.
    pub last_applied: LogIndex,
    /// The current role.
    pub state: ConsensusState,
    /// State used while `Leader`.
    pub leader_state: LeaderState,
    /// State used while `Candidate`.
    pub candidate_state: CandidateState,
    /// State used while `Follower`.
    pub follower_state: FollowerState,
    /// Transaction bookkeeping of this log.
    pub transaction: TransactionManager,
    /// Which log this instance serves; the dispatcher routes by it.
    pub lid: LogId,
}

impl<L: Log, M: StateMachine> Consensus<L, M> {
    /// The ids of the peers, in order.
    pub open spec fn peer_ids(&self) -> Seq<ServerId> {
        self.peers@.map_values(|p: (ServerId, PeerAddr)| p.0)
    }

    pub open spec fn has_peer(&self, peer: ServerId) -> bool {
        self.peer_ids().contains(peer)
    }

    /// Entries of this instance's log.
    pub open spec fn contents(&self) -> LogContents {
        self.log.contents()
    }

    /// The majority threshold of this cluster (the peers plus this replica).
    pub open spec fn majority_spec(&self) -> nat {
        spec_majority(self.peer_ids().len() + 1)
    }

    /// Structural well-formedness: every operation requires and preserves it.
    pub open spec fn wf(&self) -> bool {
        &&& self.peers@.len() < usize::MAX
        &&& forall|i: int, j: int|
            0 <= i < j < self.peer_ids().len() ==> self.peer_ids()[i] != self.peer_ids()[j]
        &&& self.leader_state.ids() == self.peer_ids()
        &&& self.last_applied <= self.commit_index
        &&& self.commit_index as nat <= self.log.contents().len()
        &&& (self.state is Follower ==> self.commit_index <= self.follower_state.min_index)
        &&& (self.state is Leader ==> forall|i: int|
            0 <= i < self.leader_state.progress@.len() ==> 1 <= #[trigger] self.leader_state.progress@[i].next_index
                && self.leader_state.progress@[i].next_index as nat <= self.log.contents().len()
                + 1)
        &&& (self.transaction.is_active ==> {
            &&& self.transaction.session is Some
            &&& self.transaction.saved_last_applied <= self.transaction.saved_commit_index
            &&& self.transaction.saved_commit_index <= self.commit_index
            &&& (self.transaction.saved_follower_min_index matches Some(m)
                ==> self.transaction.saved_commit_index <= m)
        })
    }

    /// The transaction bookkeeping is in step with the log and the machine:
    /// what the machine has applied is what it had applied at `begin`,
    /// followed by the non-empty commands committed since. Every operation
    /// preserves this, except an accepted AppendEntries that overwrites
    /// already-applied entries — something only a faulty leader produces.
    pub open spec fn txn_coherent(&self) -> bool {
        self.transaction.is_active ==> {
            &&& self.transaction.saved_last_applied <= self.last_applied
            &&& self.state_machine.applied() == self.transaction.saved_applied@
                + crate::log::applied_commands(
                self.log.contents(),
                self.transaction.saved_last_applied as int,
                self.last_applied as int,
            )
        }
    }

    /// Everything except the log's vote and term, the role tag, and the role
    /// states is unchanged.
    pub open spec fn core_unchanged(pre: &Self, post: &Self) -> bool {
        &&& post.id == pre.id
        &&& post.peers == pre.peers
        &&& post.log.contents() == pre.log.contents()
        &&& post.state_machine == pre.state_machine
        &&& post.commit_index == pre.commit_index
        &&& post.last_applied == pre.last_applied
        &&& post.transaction == pre.transaction
        &&& post.lid == pre.lid
    }

    /// Creates a consensus instance: a follower with nothing committed or
    /// applied and no transaction active.
    pub fn new(
        id: ServerId,
        lid: LogId,
        peers: Vec<(ServerId, PeerAddr)>,
        log: L,
        state_machine: M,
    ) -> (c: Consensus<L, M>)
        requires
            peers@.len() < usize::MAX,
            forall|i: int, j: int|
                0 <= i < j < peers@.len() ==> peers@[i].0 != peers@[j].0,
            log.contents().len() < u64::MAX,
        ensures
            c.wf(),
            c.id == id,
            c.lid == lid,
            c.peers == peers,
            c.log == log,
            c.state_machine == state_machine,
            c.commit_index == 0,
            c.last_applied == 0,
            c.state is Follower,
            !c.transaction.is_active,
            c.follower_state.leader is None,
            c.follower_state.min_index == 0,
            c.candidate_state.granted_votes@.len() == 0,
            c.leader_state.proposals@ == Seq::<(ClientId, LogIndex)>::empty(),
            forall|i: int|
                0 <= i < c.leader_state.progress@.len()
                    ==> #[trigger] c.leader_state.progress@[i] == (crate::state::PeerProgress {
                    peer: peers@[i].0,
                    next_index: (log.contents().len() + 1) as LogIndex,
                    match_index: 0,
                }),
    {
        let latest_log_index = log.latest_log_index();
        let mut ids: Vec<ServerId> = Vec::new();
        let mut i: usize = 0;
        while i < peers.len()
            invariant
                0 <= i <= peers@.len(),
                ids@.len() == i,
                forall|j: int| 0 <= j < i ==> #[trigger] ids@[j] == peers@[j].0,
            decreases peers@.len() - i,
        {
            ids.push(peers[i].0);
            i = i + 1;
        }
        let leader_state = LeaderState::new(latest_log_index, &ids);
        let c = Consensus {
            id,
            peers,
            log,
            state_machine,
            commit_index: 0,
            last_applied: 0,
            state: ConsensusState::Follower,
            leader_state,
            candidate_state: CandidateState::new(),
            follower_state: FollowerState::new(),
            transaction: TransactionManager::new(),
            lid,
        };
        proof {
            assert(ids@ =~= c.peer_ids());
        }
        c
    }

    /// The consensus peers.
    pub fn peers(&self) -> (r: &Vec<(ServerId, PeerAddr)>)
        ensures
            r == &self.peers,
    {
        &self.peers
    }

    /// Whether this instance currently is the leader.
    pub fn is_leader(&self) -> (r: bool)
        ensures
            r == (self.state is Leader),
    {
        matches!(self.state, ConsensusState::Leader)
    }

    /// Whether this instance currently is a follower.
    pub fn is_follower(&self) -> (r: bool)
        ensures
            r == (self.state is Follower),
    {
        matches!(self.state, ConsensusState::Follower)
    }

    /// Whether this instance currently is a candidate.
    pub fn is_candidate(&self) -> (r: bool)
        ensures
            r == (self.state is Candidate),
    {
        matches!(self.state, ConsensusState::Candidate)
    }

    /// The current term.
    pub fn current_term(&self) -> (t: Term)
        ensures
            t == self.log.stored_term(),
    {
        self.log.current_term()
    }

    /// The term of the latest log entry.
    pub fn latest_log_term(&self) -> (t: Term)
        ensures
            t == term_at(self.contents(), self.contents().len() as int),
    {
        self.log.latest_log_term()
    }

    /// The index of the latest log entry.
    pub fn latest_log_index(&self) -> (i: LogIndex)
        ensures
            i as nat == self.contents().len(),
    {
        self.log.latest_log_index()
    }

    /// The cluster quorum majority size: more than half of the replicas.
    pub fn majority(&self) -> (m: usize)
        requires
            self.peers@.len() < usize::MAX,
        ensures
            m as nat == self.majority_spec(),
    {
        let peers = self.peers.len();
        let cluster_members = peers + 1;
        cluster_members / 2 + 1
    }

    /// Looks up the address of a peer.
    fn peer_addr(&self, peer: ServerId) -> (r: Option<PeerAddr>)
        ensures
            r is Some <==> self.has_peer(peer),
            r matches Some(a) ==> exists|i: int|
                0 <= i < self.peers@.len() && self.peers@[i] == (peer, a),
    {
        let mut i: usize = 0;
        while i < self.peers.len()
            invariant
                0 <= i <= self.peers@.len(),
                forall|j: int| 0 <= j < i ==> #[trigger] self.peers@[j].0 != peer,
            decreases self.peers@.len() - i,
        {
            if self.peers[i].0 == peer {
                proof {
                    assert(self.peer_ids()[i as int] == peer);
                }
                return Some(self.peers[i].1);
            }
            i = i + 1;
        }
        proof {
            if self.has_peer(peer) {
                let k = choose|k: int|
                    0 <= k < self.peer_ids().len() && self.peer_ids()[k] == peer;
                assert(self.peers@[k].0 == peer);
                assert(false);
            }
        }
        None
    }

    /// Every recorded result names an entry applied in this sweep — a
    /// non-empty command in `(la0, commit]` — and carries the machine's
    /// response for it.
    pub open spec fn results_sound(
        results: Seq<(LogIndex, Vec<u8>)>,
        m0: Seq<Seq<u8>>,
        c: LogContents,
        la0: int,
        commit: int,
    ) -> bool {
        forall|k: int|
            0 <= k < results.len() ==> la0 < (#[trigger] results[k]).0 <= commit && c[results[k].0
                - 1].1.len() > 0 && results[k].1@ == Self::commit_response(
                m0,
                c,
                la0,
                results[k].0 as int,
            )
    }

    /// Every entry applied in this sweep has a recorded result.
    pub open spec fn results_complete(
        results: Seq<(LogIndex, Vec<u8>)>,
        c: LogContents,
        la0: int,
        commit: int,
    ) -> bool {
        forall|idx: LogIndex|
            la0 < idx <= commit && (#[trigger] c[idx - 1]).1.len() > 0 ==> exists|k: int|
                0 <= k < results.len() && (#[trigger] results[k]).0 == idx
    }

    /// The machine's response for the entry at one-based position `i` of
    /// `c`, when the committed prefix is applied in order on a machine that
    /// had applied `m0` up to position `la0`.
    pub open spec fn commit_response(m0: Seq<Seq<u8>>, c: LogContents, la0: int, i: int) -> Seq<u8> {
        M::response_of(m0 + crate::log::applied_commands(c, la0, i - 1), c[i - 1].1)
    }

    /// The payload acknowledged for a proposal at `idx` once the commit
    /// index reached `commit`: the machine's recorded response where the
    /// entry was applied in this sweep, empty otherwise (an empty command is
    /// never applied, and a proposal left over from before a rollback has no
    /// recorded response).
    pub open spec fn ack_data(m0: Seq<Seq<u8>>, c: LogContents, la0: int, commit: int) -> spec_fn(LogIndex) -> Seq<u8> {
        |idx: LogIndex|
            if la0 < idx <= commit && c[idx - 1].1.len() > 0 {
                Self::commit_response(m0, c, la0, idx as int)
            } else {
                Seq::empty()
            }
    }

    /// Applies all committed but unapplied entries to the state machine, in
    /// order. Returns the machine's response for each applied non-empty
    /// entry, keyed by index; a machine failure stops the sweep and is
    /// surfaced to the caller.
    #[verifier::rlimit(50)]
    fn apply_commits(&mut self) -> (r: Result<Vec<(LogIndex, Vec<u8>)>, StateMachineError>)
        requires
            old(self).last_applied <= old(self).commit_index,
            old(self).commit_index as nat <= old(self).log.contents().len(),
        ensures
            final(self).id == old(self).id,
            final(self).peers == old(self).peers,
            final(self).log == old(self).log,
            final(self).commit_index == old(self).commit_index,
            final(self).state == old(self).state,
            final(self).leader_state == old(self).leader_state,
            final(self).candidate_state == old(self).candidate_state,
            final(self).follower_state == old(self).follower_state,
            final(self).transaction == old(self).transaction,
            final(self).lid == old(self).lid,
            old(self).last_applied <= final(self).last_applied <= old(self).commit_index,
            final(self).state_machine.applied() == old(self).state_machine.applied()
                + crate::log::applied_commands(
                old(self).log.contents(),
                old(self).last_applied as int,
                final(self).last_applied as int,
            ),
            r is Ok ==> final(self).last_applied == old(self).commit_index,
            r is Err ==> final(self).last_applied < old(self).commit_index,
            r matches Ok(results) ==> Self::results_sound(
                results@,
                old(self).state_machine.applied(),
                old(self).log.contents(),
                old(self).last_applied as int,
                old(self).commit_index as int,
            ) && Self::results_complete(
                results@,
                old(self).log.contents(),
                old(self).last_applied as int,
                old(self).commit_index as int,
            ),
    {
        let mut results: Vec<(LogIndex, Vec<u8>)> = Vec::new();
        while self.last_applied < self.commit_index
            invariant
                self.id == old(self).id,
                self.peers == old(self).peers,
                self.log == old(self).log,
                self.commit_index == old(self).commit_index,
                self.state == old(self).state,
                self.leader_state == old(self).leader_state,
                self.candidate_state == old(self).candidate_state,
                self.follower_state == old(self).follower_state,
                self.transaction == old(self).transaction,
                self.lid == old(self).lid,
                self.commit_index as nat <= self.log.contents().len(),
                old(self).last_applied <= self.last_applied <= self.commit_index,
                self.state_machine.applied() == old(self).state_machine.applied()
                    + crate::log::applied_commands(
                    self.log.contents(),
                    old(self).last_applied as int,
                    self.last_applied as int,
                ),
                forall|k: int|
                    0 <= k < results@.len() ==> old(self).last_applied < (#[trigger] results@[k]).0
                        <= self.last_applied && old(self).log.contents()[results@[k].0 - 1].1.len()
                        > 0 && results@[k].1@ == Self::commit_response(
                        old(self).state_machine.applied(),
                        old(self).log.contents(),
                        old(self).last_applied as int,
                        results@[k].0 as int,
                    ),
                forall|idx: LogIndex|
                    old(self).last_applied < idx <= self.last_applied && (
                    #[trigger] old(self).log.contents()[idx - 1]).1.len() > 0 ==> exists|k: int|
                        0 <= k < results@.len() && (#[trigger] results@[k]).0 == idx,
            decreases self.commit_index - self.last_applied,
        {
            let index = self.last_applied + 1;
            let (_, entry) = self.log.entry(index);
            if entry.len() > 0 {
                let ghost results0 = results@;
                match self.state_machine.apply(entry.as_slice()) {
                    Ok(result) => {
                        proof {
                            assert(entry@ == old(self).log.contents()[index - 1].1);
                            assert(result@ == Self::commit_response(
                                old(self).state_machine.applied(),
                                old(self).log.contents(),
                                old(self).last_applied as int,
                                index as int,
                            ));
                        }
                        results.push((index, result));
                        proof {
                            assert forall|idx: LogIndex|
                                old(self).last_applied < idx <= index && (
                                #[trigger] old(self).log.contents()[idx - 1]).1.len()
                                    > 0 implies exists|k: int|
                                0 <= k < results@.len() && (#[trigger] results@[k]).0
                                    == idx by {
                                if idx == index {
                                    assert(results@[results@.len() - 1].0 == idx);
                                } else {
                                    let k0 = choose|k0: int|
                                        0 <= k0 < results0.len() && results0[k0].0 == idx;
                                    assert(results@[k0].0 == idx);
                                }
                            }
                        }
                    },
                    Err(e) => {
                        return Err(e);
                    },
                }
            }
            self.last_applied = index;
            proof {
                assert(self.state_machine.applied() =~= old(self).state_machine.applied()
                    + crate::log::applied_commands(
                    self.log.contents(),
                    old(self).last_applied as int,
                    self.last_applied as int,
                ));
            }
        }
        proof {
            assert(self.last_applied == self.commit_index);
            assert(Self::results_sound(
                results@,
                old(self).state_machine.applied(),
                old(self).log.contents(),
                old(self).last_applied as int,
                old(self).commit_index as int,
            ));
            assert(Self::results_complete(
                results@,
                old(self).log.contents(),
                old(self).last_applied as int,
                old(self).commit_index as int,
            ));
        }
        Ok(results)
    }

    /// The state machine's response recorded for `index`, if any.
    fn find_result(results: &Vec<(LogIndex, Vec<u8>)>, index: LogIndex) -> (r: Option<Vec<u8>>)
        ensures
            r matches Some(d) ==> exists|k: int|
                0 <= k < results@.len() && (#[trigger] results@[k]).0 == index
                    && results@[k].1@ == d@,
            r is None ==> forall|k: int|
                0 <= k < results@.len() ==> (#[trigger] results@[k]).0 != index,
    {
        let mut i: usize = 0;
        while i < results.len()
            invariant
                0 <= i <= results@.len(),
                forall|k: int| 0 <= k < i ==> (#[trigger] results@[k]).0 != index,
            decreases results@.len() - i,
        {
            if results[i].0 == index {
                let d = crate::clone_bytes(&results[i].1);
                proof {
                    assert(results@[i as int].0 == index && results@[i as int].1@ == d@);
                }
                return Some(d);
            }
            i = i + 1;
        }
        None
    }

    /// Advances the commit index while a majority of replicas holds the next
    /// entry, applies the newly committed entries, and acknowledges every
    /// client proposal that is now committed, in FIFO order.
    fn advance_commit_index(&mut self, actions: &mut Actions) -> (r: Result<
        (),
        StateMachineError,
    >)
        requires
            old(self).wf(),
            old(self).state is Leader,
        ensures
            final(self).wf(),
            final(self).id == old(self).id,
            final(self).peers == old(self).peers,
            final(self).log == old(self).log,
            final(self).state == old(self).state,
            final(self).leader_state.progress == old(self).leader_state.progress,
            final(self).candidate_state == old(self).candidate_state,
            final(self).follower_state == old(self).follower_state,
            final(self).transaction == old(self).transaction,
            final(self).lid == old(self).lid,
            old(self).commit_index <= final(self).commit_index,
            final(self).commit_index as nat <= old(self).log.contents().len(),
            final(self).commit_index > old(self).commit_index ==> final(self).leader_state.match_count(final(self).commit_index) >= old(self).majority_spec(),
            (final(self).commit_index as nat) < old(self).log.contents().len() ==> final(self).leader_state.match_count((final(self).commit_index + 1) as LogIndex) < old(self).majority_spec(),
            old(self).last_applied <= final(self).last_applied <= final(self).commit_index,
            final(self).state_machine.applied() == old(self).state_machine.applied()
                + crate::log::applied_commands(
                old(self).log.contents(),
                old(self).last_applied as int,
                final(self).last_applied as int,
            ),
            old(self).txn_coherent() ==> final(self).txn_coherent(),
            final(actions).peer_messages == old(actions).peer_messages,
            final(actions).clear_timeouts == old(actions).clear_timeouts,
            final(actions).timeouts == old(actions).timeouts,
            final(actions).clear_peer_messages == old(actions).clear_peer_messages,
            final(actions).transaction_queue == old(actions).transaction_queue,
            final(actions).peer_messages_broadcast == old(actions).peer_messages_broadcast,
            r is Err ==> final(actions).client_messages == old(actions).client_messages && final(self).leader_state.proposals == old(self).leader_state.proposals,
            r is Err ==> final(self).last_applied < final(self).commit_index,
            r is Ok ==> final(self).last_applied == final(self).commit_index,
            r is Ok && acked_prefix(old(self).leader_state.proposals@, final(self).commit_index)
                == 0 ==> final(actions).client_messages == old(actions).client_messages,
            r is Ok ==> {
                let k = acked_prefix(
                    old(self).leader_state.proposals@,
                    final(self).commit_index,
                );
                &&& final(self).leader_state.proposals@ == old(self).leader_state.proposals@.skip(k)
                &&& acks_ok(
                    old(self).leader_state.proposals@,
                    k,
                    client_msgs_view(old(actions).client_messages@),
                    client_msgs_view(final(actions).client_messages@),
                    old(self).lid,
                    Self::ack_data(
                        old(self).state_machine.applied(),
                        old(self).log.contents(),
                        old(self).last_applied as int,
                        final(self).commit_index as int,
                    ),
                )
            },
    {
        let majority = self.majority();
        let latest = self.log.latest_log_index();
        while self.commit_index < latest
            invariant
                self.id == old(self).id,
                self.peers == old(self).peers,
                self.log == old(self).log,
                self.state_machine == old(self).state_machine,
                self.last_applied == old(self).last_applied,
                self.state == old(self).state,
                self.leader_state == old(self).leader_state,
                self.candidate_state == old(self).candidate_state,
                self.follower_state == old(self).follower_state,
                self.transaction == old(self).transaction,
                self.lid == old(self).lid,
                latest as nat == self.log.contents().len(),
                majority as nat == old(self).majority_spec(),
                self.peers@.len() < usize::MAX,
                self.leader_state.ids() == self.peer_ids(),
                old(self).commit_index <= self.commit_index <= latest,
                self.commit_index > old(self).commit_index ==> self.leader_state.match_count(
                    self.commit_index,
                ) >= old(self).majority_spec(),
            ensures
                self.commit_index == latest || self.leader_state.match_count(
                    (self.commit_index + 1) as LogIndex,
                ) < old(self).majority_spec(),
            decreases latest - self.commit_index,
        {
            let c = self.leader_state.count_match_indexes(self.commit_index + 1);
            if c >= majority {
                self.commit_index = self.commit_index + 1;
            } else {
                break ;
            }
        }
        let apply_result = self.apply_commits();
        proof {
            if old(self).txn_coherent() && self.transaction.is_active {
                crate::log::lemma_applied_commands_split(
                    self.log.contents(),
                    self.transaction.saved_last_applied as int,
                    old(self).last_applied as int,
                    self.last_applied as int,
                );
                assert(self.state_machine.applied() =~= self.transaction.saved_applied@
                    + crate::log::applied_commands(
                    self.log.contents(),
                    self.transaction.saved_last_applied as int,
                    self.last_applied as int,
                ));
            }
        }
        let results = match apply_result {
            Ok(results) => results,
            Err(e) => {
                return Err(e);
            },
        };
        let ghost mid = *self;
        let ghost props0 = self.leader_state.proposals@;
        let ghost pre_msgs = client_msgs_view(actions.client_messages@);
        let ghost data_fn = Self::ack_data(
            old(self).state_machine.applied(),
            old(self).log.contents(),
            old(self).last_applied as int,
            mid.commit_index as int,
        );
        let ghost mut k: int = 0;
        loop
            invariant
                self.id == old(self).id,
                self.peers == old(self).peers,
                self.log == old(self).log,
                self.state_machine == mid.state_machine,
                self.last_applied == mid.last_applied,
                self.commit_index == mid.commit_index,
                self.state == old(self).state,
                self.leader_state.progress == old(self).leader_state.progress,
                self.candidate_state == old(self).candidate_state,
                self.follower_state == old(self).follower_state,
                self.transaction == old(self).transaction,
                self.lid == old(self).lid,
                0 <= k <= props0.len(),
                self.leader_state.proposals@ == props0.skip(k),
                forall|j: int| 0 <= j < k ==> #[trigger] props0[j].1 <= self.commit_index,
                k == 0 ==> actions.client_messages == old(actions).client_messages,
                client_msgs_view(actions.client_messages@).len() == pre_msgs.len() + k,
                client_msgs_view(actions.client_messages@).take(pre_msgs.len() as int)
                    == pre_msgs,
                mid.commit_index as nat <= old(self).log.contents().len(),
                data_fn == Self::ack_data(
                    old(self).state_machine.applied(),
                    old(self).log.contents(),
                    old(self).last_applied as int,
                    mid.commit_index as int,
                ),
                Self::results_sound(
                    results@,
                    old(self).state_machine.applied(),
                    old(self).log.contents(),
                    old(self).last_applied as int,
                    mid.commit_index as int,
                ),
                Self::results_complete(
                    results@,
                    old(self).log.contents(),
                    old(self).last_applied as int,
                    mid.commit_index as int,
                ),
                forall|j: int|
                    0 <= j < k ==> #[trigger] client_msgs_view(actions.client_messages@)[
                        pre_msgs.len() + j] == (
                    props0[j].0,
                    CommandResponseView::Success {
                        log_id: old(self).lid,
                        data: data_fn(props0[j].1),
                    },
                    ),
                actions.peer_messages == old(actions).peer_messages,
                actions.clear_timeouts == old(actions).clear_timeouts,
                actions.timeouts == old(actions).timeouts,
                actions.clear_peer_messages == old(actions).clear_peer_messages,
                actions.transaction_queue == old(actions).transaction_queue,
                actions.peer_messages_broadcast == old(actions).peer_messages_broadcast,
            ensures
                k == acked_prefix(props0, mid.commit_index),
            decreases self.leader_state.proposals@.len(),
        {
            if self.leader_state.proposals.len() == 0 {
                proof {
                    lemma_acked_prefix(props0, self.commit_index, k);
                }
                break ;
            }
            let (client, index) = self.leader_state.proposals[0];
            if index > self.commit_index {
                proof {
                    lemma_acked_prefix(props0, self.commit_index, k);
                }
                break ;
            }
            let data = match Self::find_result(&results, index) {
                Some(d) => {
                    proof {
                        let kk = choose|kk: int|
                            0 <= kk < results@.len() && (#[trigger] results@[kk]).0 == index
                                && results@[kk].1@ == d@;
                        assert(results@[kk].0 == index);
                        assert(data_fn(index) == Self::ack_data(
                            old(self).state_machine.applied(),
                            old(self).log.contents(),
                            old(self).last_applied as int,
                            mid.commit_index as int,
                        )(index));
                        assert(d@ == data_fn(index));
                    }
                    d
                },
                None => {
                    let none_data: Vec<u8> = Vec::new();
                    proof {
                        if old(self).last_applied < index && old(self).log.contents()[index
                            - 1].1.len() > 0 {
                            assert(exists|kk: int|
                                0 <= kk < results@.len() && (#[trigger] results@[kk]).0
                                    == index);
                            let kk = choose|kk: int|
                                0 <= kk < results@.len() && (#[trigger] results@[kk]).0
                                    == index;
                            assert(false);
                        }
                        assert(none_data@ =~= Seq::<u8>::empty());
                        assert(data_fn(index) == Self::ack_data(
                            old(self).state_machine.applied(),
                            old(self).log.contents(),
                            old(self).last_applied as int,
                            mid.commit_index as int,
                        )(index));
                        assert(none_data@ == data_fn(index));
                    }
                    none_data
                },
            };
            let ghost msgs_before = client_msgs_view(actions.client_messages@);
            actions.push_client_message(
                client,
                CommandResponse::Success { log_id: self.lid, data },
            );
            self.leader_state.proposals.remove(0);
            proof {
                k = k + 1;
                assert(self.leader_state.proposals@ =~= props0.skip(k));
                assert(client_msgs_view(actions.client_messages@) =~= msgs_before.push(
                    client_msgs_view(actions.client_messages@).last(),
                ));
                assert(client_msgs_view(actions.client_messages@).take(pre_msgs.len() as int)
                    =~= pre_msgs);
            }
        }
        Ok(())
    }

    /// Rolls the active transaction back: restore
    /// the captured indices, revert every entry above the captured commit
    /// index on the state machine (most recent first), truncate the log
    /// there, and point every peer's `next_index` just past it. A state
    /// machine failure aborts the sweep and is surfaced.
    #[verifier::rlimit(50)]
    fn perform_rollback(&mut self) -> (r: Result<(), StateMachineError>)
        requires
            old(self).wf(),
            old(self).transaction.is_active,
            old(self).log.contents().len() < u64::MAX,
        ensures
            final(self).wf(),
            final(self).id == old(self).id,
            final(self).peers == old(self).peers,
            final(self).state == old(self).state,
            final(self).candidate_state == old(self).candidate_state,
            final(self).lid == old(self).lid,
            final(self).log.stored_term() == old(self).log.stored_term(),
            final(self).log.stored_vote() == old(self).log.stored_vote(),
            !final(self).transaction.is_active,
            final(self).commit_index == old(self).transaction.saved_commit_index,
            final(self).last_applied == old(self).transaction.saved_last_applied,
            final(self).follower_state.leader == old(self).follower_state.leader,
            final(self).follower_state.min_index == (match old(self).transaction.saved_follower_min_index {
                Some(m) => m,
                None => old(self).follower_state.min_index,
            }),
            final(self).leader_state.proposals == old(self).leader_state.proposals,
            final(self).leader_state.ids() == old(self).leader_state.ids(),
            final(self).leader_state.progress@.len() == old(self).leader_state.progress@.len(),
            forall|i: int|
                0 <= i < final(self).leader_state.progress@.len() ==> (#[trigger] final(self).leader_state.progress@[i]).peer == old(self).leader_state.progress@[i].peer
                    && final(self).leader_state.progress@[i].match_index == old(self).leader_state.progress@[i].match_index,
            r is Ok ==> {
                &&& final(self).log.contents() == old(self).log.contents().take(
                    old(self).transaction.saved_commit_index as int,
                )
                &&& forall|i: int|
                    0 <= i < final(self).leader_state.progress@.len()
                        ==> #[trigger] final(self).leader_state.progress@[i].next_index == old(self).transaction.saved_commit_index + 1
                &&& old(self).state_machine.applied() == final(self).state_machine.applied()
                    + crate::log::applied_commands(
                    old(self).log.contents(),
                    old(self).transaction.saved_commit_index as int,
                    old(self).log.contents().len() as int,
                )
            },
            r is Err ==> final(self).log.contents() == old(self).log.contents()
                && crate::log::applied_commands(
                old(self).log.contents(),
                old(self).transaction.saved_commit_index as int,
                old(self).log.contents().len() as int,
            ).len() > 0,
            // Transaction atomicity: if the machine was in step with the log,
            // every entry was applied, and the transaction began at a fully
            // applied state, the machine is back at its state from `begin`.
            (r is Ok && old(self).txn_coherent() && old(self).last_applied as nat == old(self).log.contents().len() && old(self).transaction.saved_commit_index == old(self).transaction.saved_last_applied) ==> final(self).state_machine.applied() == old(self).transaction.saved_applied@,
    {
        let ghost c = self.log.contents();
        let ghost old_m = self.state_machine.applied();
        let (saved_commit, saved_la, saved_min) = match self.transaction.rollback() {
            Ok(t) => t,
            Err(_) => unreached(),
        };
        match saved_min {
            Some(m) => {
                self.follower_state.min_index = m;
            },
            None => {},
        }
        self.commit_index = saved_commit;
        self.last_applied = saved_la;
        let entries = self.log.rollback(saved_commit);
        let ghost n = c.len() as int;
        proof {
            assert(crate::log::views_of(entries@).len() == entries@.len());
            assert forall|t: int| 0 <= t < entries@.len() implies entries@[t]@ == c[
                saved_commit + t] by {
                assert(crate::log::views_of(entries@)[t] == c.skip(saved_commit as int)[t]);
            }
        }
        let mut j: usize = entries.len();
        while j > 0
            invariant
                old(self).wf(),
                old(self).transaction.is_active,
                c == old(self).log.contents(),
                old_m == old(self).state_machine.applied(),
                self.id == old(self).id,
                self.peers == old(self).peers,
                self.log.contents() == c,
                self.log.stored_term() == old(self).log.stored_term(),
                self.log.stored_vote() == old(self).log.stored_vote(),
                self.commit_index == saved_commit,
                self.last_applied == saved_la,
                self.state == old(self).state,
                self.leader_state == old(self).leader_state,
                self.candidate_state == old(self).candidate_state,
                self.follower_state.leader == old(self).follower_state.leader,
                self.follower_state.min_index == (match old(self).transaction.saved_follower_min_index {
                    Some(m) => m,
                    None => old(self).follower_state.min_index,
                }),
                !self.transaction.is_active,
                self.lid == old(self).lid,
                saved_commit == old(self).transaction.saved_commit_index,
                saved_la == old(self).transaction.saved_last_applied,
                n == c.len(),
                forall|t: int|
                    0 <= t < entries@.len() ==> #[trigger] entries@[t]@ == c[saved_commit + t],
                saved_commit as int + entries@.len() == n,
                0 <= j <= entries@.len(),
                old_m == self.state_machine.applied() + crate::log::applied_commands(
                    c,
                    saved_commit + j,
                    n,
                ),
            decreases j,
        {
            j = j - 1;
            let e = &entries[j];
            let ghost lo = saved_commit + j;
            let ghost m_before = self.state_machine.applied();
            proof {
                assert(0 <= lo < n);
                crate::log::lemma_applied_commands_split(c, lo, lo + 1, n);
                assert(e@ == c[lo]);
            }
            if e.command.len() > 0 {
                match self.state_machine.revert(e.command.as_slice()) {
                    Ok(()) => {
                        proof {
                            assert(m_before =~= self.state_machine.applied().push(c[lo].1));
                            assert(crate::log::applied_commands(c, lo, lo) =~= Seq::<
                                Seq<u8>,
                            >::empty());
                            assert(crate::log::applied_commands(c, lo, lo + 1) =~= seq![
                                c[lo].1,
                            ]);
                            assert(self.state_machine.applied()
                                + crate::log::applied_commands(c, lo, n) =~= m_before
                                + crate::log::applied_commands(c, lo + 1, n));
                        }
                    },
                    Err(e) => {
                        proof {
                            crate::log::lemma_applied_commands_split(c, saved_commit as int, lo, n);
                            assert(crate::log::applied_commands(c, lo, lo) =~= Seq::<
                                Seq<u8>,
                            >::empty());
                            assert(crate::log::applied_commands(c, lo, lo + 1) =~= seq![
                                c[lo].1,
                            ]);
                            assert(crate::log::applied_commands(c, saved_commit as int, n).len()
                                > 0);
                        }
                        return Err(e);
                    },
                }
            } else {
                proof {
                    assert(crate::log::applied_commands(c, lo, lo) =~= Seq::<
                        Seq<u8>,
                    >::empty());
                    assert(crate::log::applied_commands(c, lo, lo + 1) =~= Seq::<
                        Seq<u8>,
                    >::empty());
                    assert(crate::log::applied_commands(c, lo, n) =~= crate::log::applied_commands(
                        c,
                        lo + 1,
                        n,
                    ));
                }
            }
        }
        self.log.truncate(saved_commit);
        self.state_machine.rollback();
        self.leader_state.reset_next_index(saved_commit + 1);
        proof {
            if old(self).txn_coherent() && old(self).last_applied as nat == c.len()
                && saved_commit == saved_la {
                assert(old_m == old(self).transaction.saved_applied@
                    + crate::log::applied_commands(c, saved_la as int, c.len() as int));
                lemma_seq_right_cancel(
                    self.state_machine.applied(),
                    old(self).transaction.saved_applied@,
                    crate::log::applied_commands(c, saved_commit as int, n),
                );
            }
        }
        Ok(())
    }

    /// The view of an empty AppendEntries to a peer: current term, the latest
    /// `(index, term)` pair as the previous entry, and the commit index.
    pub open spec fn heartbeat_view(&self) -> PeerMessageView {
        PeerMessageView::AppendEntriesRequest(
            crate::messages::AppendEntriesRequestView {
                log_id: self.lid,
                term: self.log.stored_term(),
                prev_log_index: self.contents().len() as LogIndex,
                prev_log_term: term_at(self.contents(), self.contents().len() as int),
                entries: Seq::empty(),
                leader_commit: self.commit_index,
            },
        )
    }

    /// The view of this instance's RequestVote message.
    pub open spec fn vote_request_view(&self) -> PeerMessageView {
        PeerMessageView::RequestVoteRequest(
            RequestVoteRequest {
                log_id: self.lid,
                term: self.log.stored_term(),
                last_log_index: self.contents().len() as LogIndex,
                last_log_term: term_at(self.contents(), self.contents().len() as int),
            },
        )
    }

    /// Steps down to Follower: adopts `term` (clearing the vote if it is
    /// new), records `leader` as the leader hint, asks for all timeouts to be
    /// cleared and a fresh election timeout, and drops queued peer traffic.
    fn transition_to_follower(&mut self, term: Term, leader: ServerId, actions: &mut Actions)
        requires
            old(self).wf(),
            old(self).log.stored_term() <= term,
        ensures
            final(self).wf(),
            Self::core_unchanged(old(self), final(self)),
            final(self).state is Follower,
            final(self).log.stored_term() == term,
            term > old(self).log.stored_term() ==> final(self).log.stored_vote() is None,
            term == old(self).log.stored_term() ==> final(self).log.stored_vote() == old(self).log.stored_vote(),
            final(self).follower_state.leader == Some(leader),
            final(self).follower_state.min_index == (if old(self).follower_state.min_index
                >= old(self).commit_index {
                old(self).follower_state.min_index
            } else {
                old(self).commit_index
            }),
            final(self).leader_state == old(self).leader_state,
            final(self).candidate_state == old(self).candidate_state,
            Actions::delta(
                *old(actions),
                *final(actions),
                Seq::empty(),
                Seq::empty(),
                seq![old(self).lid],
                seq![ConsensusTimeout::Election(old(self).lid)],
                true,
                Seq::empty(),
                Seq::empty(),
            ),
    {
        let current = self.log.current_term();
        if current < term {
            self.log.set_current_term(term);
        }
        self.state = ConsensusState::Follower;
        self.follower_state.set_leader(leader);
        if self.follower_state.min_index < self.commit_index {
            self.follower_state.min_index = self.commit_index;
        }
        actions.push_clear_timeouts(self.lid);
        actions.clear_peer_messages = true;
        actions.push_timeout(ConsensusTimeout::Election(self.lid));
    }

    /// Becomes Candidate: starts a new term, votes for itself, asks every
    /// peer for its vote, arms a fresh election timeout, and drops queued
    /// peer traffic.
    fn transition_to_candidate(&mut self, actions: &mut Actions)
        requires
            old(self).wf(),
            old(self).log.stored_term() < u64::MAX,
        ensures
            final(self).wf(),
            Self::core_unchanged(old(self), final(self)),
            final(self).state is Candidate,
            final(self).log.stored_term() == old(self).log.stored_term() + 1,
            final(self).log.stored_vote() == Some(old(self).id),
            final(self).candidate_state.granted_votes@ == seq![old(self).id],
            final(self).leader_state == old(self).leader_state,
            final(self).follower_state == old(self).follower_state,
            Actions::delta(
                *old(actions),
                *final(actions),
                Seq::new(
                    old(self).peer_ids().len(),
                    |k: int| (old(self).peer_ids()[k], final(self).vote_request_view()),
                ),
                Seq::empty(),
                Seq::empty(),
                seq![ConsensusTimeout::Election(old(self).lid)],
                true,
                Seq::empty(),
                Seq::empty(),
            ),
    {
        self.log.inc_current_term();
        self.log.set_voted_for(Some(self.id));
        self.state = ConsensusState::Candidate;
        self.candidate_state.clear();
        self.candidate_state.record_vote(self.id);
        let request = RequestVoteRequest {
            log_id: self.lid,
            term: self.log.current_term(),
            last_log_index: self.log.latest_log_index(),
            last_log_term: self.log.latest_log_term(),
        };
        proof {
            assert(self.candidate_state.granted_votes@ =~= seq![old(self).id]);
        }
        let ghost snap = *self;
        let ghost a0 = *actions;
        let mut i: usize = 0;
        while i < self.peers.len()
            invariant
                0 <= i <= self.peers@.len(),
                *self == snap,
                PeerMessageView::RequestVoteRequest(request) == snap.vote_request_view(),
                Actions::delta(
                    a0,
                    *actions,
                    Seq::new(
                        i as nat,
                        |k: int| (snap.peer_ids()[k], snap.vote_request_view()),
                    ),
                    Seq::empty(),
                    Seq::empty(),
                    Seq::empty(),
                    false,
                    Seq::empty(),
                    Seq::empty(),
                ),
            decreases self.peers@.len() - i,
        {
            let peer = self.peers[i].0;
            actions.push_peer_message(peer, PeerMessage::RequestVoteRequest(request));
            i = i + 1;
            proof {
                assert(snap.peer_ids()[i - 1] == peer);
                assert(peer_msgs_view(actions.peer_messages@) =~= peer_msgs_view(
                    a0.peer_messages@,
                ) + Seq::new(
                    i as nat,
                    |k: int| (snap.peer_ids()[k], snap.vote_request_view()),
                ));
            }
        }
        actions.push_timeout(ConsensusTimeout::Election(self.lid));
        actions.clear_peer_messages = true;
        proof {
            assert(Seq::new(
                snap.peer_ids().len(),
                |k: int| (snap.peer_ids()[k], snap.vote_request_view()),
            ) =~= Seq::new(
                old(self).peer_ids().len(),
                |k: int| (old(self).peer_ids()[k], snap.vote_request_view()),
            ));
        }
    }

    /// How `post` relates to `pre` after a transition to Leader; `ok` says
    /// whether the rollback of an inherited transaction went through.
    pub open spec fn leader_post(pre: &Self, post: &Self, ok: bool) -> bool {
        &&& post.id == pre.id
        &&& post.peers == pre.peers
        &&& post.state is Leader
        &&& post.log.stored_term() == pre.log.stored_term()
        &&& post.log.stored_vote() == pre.log.stored_vote()
        &&& post.follower_state.leader == pre.follower_state.leader
        &&& post.lid == pre.lid
        &&& !post.transaction.is_active
        &&& post.leader_state.ids() == pre.leader_state.ids()
        &&& post.leader_state.proposals@ == Seq::<(ClientId, LogIndex)>::empty()
        &&& forall|i: int|
            0 <= i < post.leader_state.progress@.len()
                ==> #[trigger] post.leader_state.progress@[i].match_index == 0
        &&& !pre.transaction.is_active ==> {
            &&& post.log.contents() == pre.log.contents()
            &&& post.commit_index == pre.commit_index
            &&& post.last_applied == pre.last_applied
            &&& post.state_machine == pre.state_machine
            &&& post.follower_state == pre.follower_state
            &&& ok
            &&& forall|i: int|
                0 <= i < post.leader_state.progress@.len()
                    ==> #[trigger] post.leader_state.progress@[i].next_index
                    == pre.log.contents().len() + 1
        }
        &&& pre.transaction.is_active ==> {
            &&& post.commit_index == pre.transaction.saved_commit_index
            &&& post.last_applied == pre.transaction.saved_last_applied
            &&& (ok ==> post.log.contents() == pre.log.contents().take(
                pre.transaction.saved_commit_index as int,
            ) && pre.state_machine.applied() == post.state_machine.applied()
                + crate::log::applied_commands(
                pre.log.contents(),
                pre.transaction.saved_commit_index as int,
                pre.log.contents().len() as int,
            ))
        }
        &&& (ok && pre.transaction.is_active && pre.txn_coherent() && pre.last_applied as nat
            == pre.log.contents().len() && pre.transaction.saved_commit_index
            == pre.transaction.saved_last_applied) ==> post.state_machine.applied()
            == pre.transaction.saved_applied@
    }

    /// The actions a transition to Leader emits: a leadership heartbeat to
    /// every peer, a rollback broadcast if a transaction was inherited, a
    /// request to clear this log's timeouts, and the drop of queued traffic.
    pub open spec fn leader_actions(pre: &Self, a_pre: Actions, a_post: Actions) -> bool {
        Actions::delta(
            a_pre,
            a_post,
            Seq::new(pre.peer_ids().len(), |k: int| (pre.peer_ids()[k], pre.heartbeat_view())),
            Seq::empty(),
            seq![pre.lid],
            Seq::empty(),
            true,
            Seq::empty(),
            if pre.transaction.is_active {
                seq![
                    PeerMessageView::TransactionRollback {
                        log_id: pre.lid,
                        session: pre.transaction.session->0,
                    },
                ]
            } else {
                Seq::empty()
            },
        )
    }

    /// Becomes Leader: reinitialises the per-peer progress with `next_index`
    /// just past the latest entry, announces leadership with an empty
    /// AppendEntries to every peer, rolls back any transaction inherited from
    /// the previous role (a new leader never carries one), clears pending
    /// timeouts, and drops queued peer traffic.
    fn transition_to_leader(&mut self, actions: &mut Actions) -> (r: Result<
        (),
        StateMachineError,
    >)
        requires
            old(self).wf(),
            old(self).log.contents().len() < u64::MAX,
        ensures
            final(self).wf(),
            Self::leader_post(old(self), final(self), r is Ok),
            final(self).candidate_state == old(self).candidate_state,
            Self::leader_actions(old(self), *old(actions), *final(actions)),
    {
        let current_term = self.log.current_term();
        let latest_log_index = self.log.latest_log_index();
        let latest_log_term = self.log.latest_log_term();
        self.state = ConsensusState::Leader;
        self.leader_state.reinitialize(latest_log_index);
        let ghost snap = *self;
        let ghost a0 = *actions;
        let mut i: usize = 0;
        while i < self.peers.len()
            invariant
                0 <= i <= self.peers@.len(),
                *self == snap,
                snap.log.stored_term() == current_term,
                snap.contents().len() == latest_log_index,
                term_at(snap.contents(), snap.contents().len() as int) == latest_log_term,
                snap.heartbeat_view() == old(self).heartbeat_view(),
                Actions::delta(
                    a0,
                    *actions,
                    Seq::new(
                        i as nat,
                        |k: int| (snap.peer_ids()[k], snap.heartbeat_view()),
                    ),
                    Seq::empty(),
                    Seq::empty(),
                    Seq::empty(),
                    false,
                    Seq::empty(),
                    Seq::empty(),
                ),
            decreases self.peers@.len() - i,
        {
            let peer = self.peers[i].0;
            let empty_entries: Vec<Entry> = Vec::new();
            let message = PeerMessage::AppendEntriesRequest(
                AppendEntriesRequest {
                    log_id: self.lid,
                    term: current_term,
                    prev_log_index: latest_log_index,
                    prev_log_term: latest_log_term,
                    entries: empty_entries,
                    leader_commit: self.commit_index,
                },
            );
            proof {
                assert(views_of(Seq::<Entry>::empty()) =~= Seq::<(Term, Seq<u8>)>::empty());
                assert(message@ == snap.heartbeat_view());
            }
            actions.push_peer_message(peer, message);
            i = i + 1;
            proof {
                assert(snap.peer_ids()[i - 1] == peer);
                assert(peer_msgs_view(actions.peer_messages@) =~= peer_msgs_view(
                    a0.peer_messages@,
                ) + Seq::new(
                    i as nat,
                    |k: int| (snap.peer_ids()[k], snap.heartbeat_view()),
                ));
            }
        }
        proof {
            assert(Seq::new(
                snap.peer_ids().len(),
                |k: int| (snap.peer_ids()[k], snap.heartbeat_view()),
            ) =~= Seq::new(
                old(self).peer_ids().len(),
                |k: int| (old(self).peer_ids()[k], old(self).heartbeat_view()),
            ));
        }
        if self.transaction.is_active {
            self.transaction.broadcast_rollback(self.lid, actions);
            match self.perform_rollback() {
                Ok(()) => {},
                Err(e) => {
                    actions.push_clear_timeouts(self.lid);
                    actions.clear_peer_messages = true;
                    return Err(e);
                },
            }
        }
        actions.push_clear_timeouts(self.lid);
        actions.clear_peer_messages = true;
        Ok(())
    }

    /// Triggers a heartbeat for `peer`: an empty AppendEntries carrying the
    /// latest `(index, term)` pair and the commit index.
    pub fn heartbeat_timeout(&mut self, peer: ServerId, actions: &mut Actions)
        requires
            old(self).wf(),
            old(self).state is Leader,
        ensures
            final(self).wf(),
            *final(self) == *old(self),
            Actions::delta(
                *old(actions),
                *final(actions),
                seq![(peer, old(self).heartbeat_view())],
                Seq::empty(),
                Seq::empty(),
                Seq::empty(),
                false,
                Seq::empty(),
                Seq::empty(),
            ),
    {
        let empty_entries: Vec<Entry> = Vec::new();
        let message = PeerMessage::AppendEntriesRequest(
            AppendEntriesRequest {
                log_id: self.lid,
                term: self.log.current_term(),
                prev_log_index: self.log.latest_log_index(),
                prev_log_term: self.log.latest_log_term(),
                entries: empty_entries,
                leader_commit: self.commit_index,
            },
        );
        proof {
            assert(views_of(Seq::<Entry>::empty()) =~= Seq::<(Term, Seq<u8>)>::empty());
            assert(message@ == old(self).heartbeat_view());
        }
        actions.push_peer_message(peer, message);
    }

    /// Triggers an election: a solitary replica becomes Leader outright,
    /// anyone else becomes Candidate and solicits votes.
    pub fn election_timeout(&mut self, actions: &mut Actions)
        requires
            old(self).wf(),
            !(old(self).state is Leader),
            old(self).log.stored_term() < u64::MAX,
            old(self).log.contents().len() < u64::MAX,
            old(self).peer_ids().len() == 0 ==> old(self).state is Follower && old(self).log.stored_vote() is None,
        ensures
            final(self).wf(),
            Self::core_unchanged(old(self), final(self)),
            final(self).log.stored_term() == old(self).log.stored_term() + 1,
            final(self).log.stored_vote() == Some(old(self).id),
            final(self).follower_state == old(self).follower_state,
            old(self).peer_ids().len() == 0 ==> {
                &&& final(self).state is Leader
                &&& final(self).leader_state.ids() == old(self).leader_state.ids()
                &&& final(self).leader_state.proposals@ == Seq::<(ClientId, LogIndex)>::empty()
                &&& forall|i: int|
                    0 <= i < final(self).leader_state.progress@.len()
                        ==> #[trigger] final(self).leader_state.progress@[i]
                        == (crate::state::PeerProgress {
                        peer: old(self).leader_state.progress@[i].peer,
                        next_index: (old(self).log.contents().len() + 1) as LogIndex,
                        match_index: 0,
                    })
                &&& Actions::unchanged(*old(actions), *final(actions))
            },
            old(self).peer_ids().len() > 0 ==> {
                &&& final(self).state is Candidate
                &&& final(self).candidate_state.granted_votes@ == seq![old(self).id]
                &&& Actions::delta(
                    *old(actions),
                    *final(actions),
                    Seq::new(
                        old(self).peer_ids().len(),
                        |k: int| (old(self).peer_ids()[k], final(self).vote_request_view()),
                    ),
                    Seq::empty(),
                    Seq::empty(),
                    seq![ConsensusTimeout::Election(old(self).lid)],
                    true,
                    Seq::empty(),
                    Seq::empty(),
                )
            },
    {
        if self.peers.len() == 0 {
            // Solitary replica special case; jump straight to Leader state.
            self.log.inc_current_term();
            self.log.set_voted_for(Some(self.id));
            let latest_log_index = self.log.latest_log_index();
            self.state = ConsensusState::Leader;
            self.leader_state.reinitialize(latest_log_index);
        } else {
            self.transition_to_candidate(actions);
        }
    }

    /// The term of the latest log entry (0 for an empty log).
    pub open spec fn latest_term(&self) -> Term {
        term_at(self.contents(), self.contents().len() as int)
    }

    /// The index of the latest log entry (0 for an empty log).
    pub open spec fn latest_index(&self) -> LogIndex {
        self.contents().len() as LogIndex
    }

    /// The vote this instance owes a candidate asking with `req`: grant only
    /// if the candidate's term is current, its log is at least as up to date
    /// (term dominating, then index), and no vote was given to anyone else in
    /// that term.
    pub open spec fn vote_result_for(&self, candidate: ServerId, req: RequestVoteRequest) -> VoteResult {
        if req.term < self.log.stored_term() {
            VoteResult::StaleTerm
        } else if req.last_log_term < self.latest_term() || (req.last_log_term
            == self.latest_term() && req.last_log_index < self.latest_index()) {
            VoteResult::InconsistentLog
        } else if req.term == self.log.stored_term() && (self.log.stored_vote() matches Some(v)
            && v != candidate) {
            VoteResult::AlreadyVoted
        } else {
            VoteResult::Granted
        }
    }

    /// Answers a RequestVote: adopts a newer term (stepping down if needed),
    /// grants or denies per [`Self::vote_result_for`], and persists the vote
    /// before replying.
    pub fn request_vote_request(
        &mut self,
        candidate: ServerId,
        request: RequestVoteRequest,
        actions: &mut Actions,
    )
        requires
            old(self).wf(),
        ensures
            Self::request_vote_request_post(*old(self), *final(self), candidate, request, *old(actions), *final(actions), true),
    {
        let ghost a0 = *actions;
        let candidate_term = request.term;
        let local_term = self.log.current_term();
        if candidate_term > local_term {
            self.transition_to_follower(candidate_term, candidate, actions);
        }
        let new_local_term = self.log.current_term();
        let which = if candidate_term < local_term {
            VoteResult::StaleTerm
        } else {
            let latest_term = self.log.latest_log_term();
            let latest_index = self.log.latest_log_index();
            if request.last_log_term < latest_term || (request.last_log_term == latest_term
                && request.last_log_index < latest_index) {
                VoteResult::InconsistentLog
            } else {
                match self.log.voted_for() {
                    None => {
                        self.log.set_voted_for(Some(candidate));
                        VoteResult::Granted
                    },
                    Some(voted_for) => {
                        if voted_for == candidate {
                            VoteResult::Granted
                        } else {
                            VoteResult::AlreadyVoted
                        }
                    },
                }
            }
        };
        let response = RequestVoteResponse { log_id: self.lid, term: new_local_term, which };
        actions.push_peer_message(candidate, PeerMessage::RequestVoteResponse(response));
    }

    /// Tallies a RequestVote answer: a newer term demotes to Follower, a
    /// granted vote from a peer counts toward the majority, and reaching the
    /// majority makes this candidate the leader.
    pub fn request_vote_response(
        &mut self,
        from: ServerId,
        response: RequestVoteResponse,
        actions: &mut Actions,
    ) -> (r: Result<(), StateMachineError>)
        requires
            old(self).wf(),
            old(self).log.contents().len() < u64::MAX,
        ensures
            Self::request_vote_response_post(*old(self), *final(self), from, response, *old(actions), *final(actions), r is Ok),
    {
        let local_term = self.log.current_term();
        let voter_term = response.term;
        if local_term < voter_term {
            self.transition_to_follower(voter_term, from, actions);
            return Ok(());
        }
        if local_term > voter_term {
            // A response from a previous election cycle; ignore it.
            return Ok(());
        }
        if !self.is_candidate() {
            return Ok(());
        }
        let granted = matches!(response.which, VoteResult::Granted);
        if !granted {
            return Ok(());
        }
        if self.peer_addr(from).is_none() {
            // Only votes of known group members count toward the majority.
            return Ok(());
        }
        let majority = self.majority();
        self.candidate_state.record_vote(from);
        if self.candidate_state.count_votes() >= majority {
            self.transition_to_leader(actions)?;
        }
        Ok(())
    }

    /// An AppendEntries whose term is behind ours: rejected as stale.
    pub open spec fn ae_stale(&self, req: AppendEntriesRequest) -> bool {
        req.term < self.log.stored_term()
    }

    /// An AppendEntries from another leader of our own term while we lead:
    /// the single-leader-per-term invariant rules this out among honest
    /// replicas, so it is dropped without an answer.
    pub open spec fn ae_ignored(&self, req: AppendEntriesRequest) -> bool {
        self.state is Leader && req.term == self.log.stored_term()
    }

    /// The previous-entry check fails: the log is shorter than
    /// `prev_log_index`, or holds a different term there.
    pub open spec fn ae_inconsistent(&self, req: AppendEntriesRequest) -> bool {
        self.contents().len() < req.prev_log_index || term_at(
            self.contents(),
            req.prev_log_index as int,
        ) != req.prev_log_term
    }

    /// The `min_index` below which a reordered AppendEntries is dropped; a
    /// step-down first raises it to the commit index.
    pub open spec fn ae_effective_min(&self) -> LogIndex {
        if self.state is Follower {
            self.follower_state.min_index
        } else if self.follower_state.min_index >= self.commit_index {
            self.follower_state.min_index
        } else {
            self.commit_index
        }
    }

    /// The request would regress the log below what this follower already
    /// accepted (a reordered duplicate): dropped silently, without an answer.
    pub open spec fn ae_silent_drop(&self, req: AppendEntriesRequest) -> bool {
        req.prev_log_index + req.entries@.len() < self.ae_effective_min()
    }

    /// The request passes every check and its entries are appended.
    pub open spec fn ae_accepted(&self, req: AppendEntriesRequest) -> bool {
        &&& !self.ae_stale(req)
        &&& !self.ae_ignored(req)
        &&& !self.ae_inconsistent(req)
        &&& !self.ae_silent_drop(req)
    }

    /// The answer this instance owes an AppendEntries, if any.
    pub open spec fn ae_reply(&self, req: AppendEntriesRequest) -> Option<AppendResultView> {
        if self.ae_stale(req) {
            Some(AppendResultView::StaleTerm)
        } else if self.ae_ignored(req) {
            None
        } else if self.ae_inconsistent(req) {
            Some(AppendResultView::InconsistentPrevEntry(req.prev_log_index))
        } else if self.ae_silent_drop(req) {
            None
        } else {
            Some(
                AppendResultView::Success((req.prev_log_index + req.entries@.len()) as LogIndex),
            )
        }
    }

    /// Syncs the log with a leader's AppendEntries: a stale term is refused,
    /// a newer term adopted (stepping down if needed), the previous-entry
    /// check guards consistency, the `min_index` guard drops reordered
    /// duplicates silently, and an accepted request replaces the tail from
    /// `prev_log_index + 1` on, moves the commit index forward, and applies
    /// the newly committed entries.
    #[verifier::rlimit(100)]
    pub fn append_entries_request(
        &mut self,
        from: ServerId,
        request: AppendEntriesRequest,
        actions: &mut Actions,
    ) -> (r: Result<(), StateMachineError>)
        requires
            old(self).wf(),
            request.prev_log_index + request.entries@.len() < u64::MAX,
        ensures
            Self::append_entries_request_post(*old(self), *final(self), from, request, *old(actions), *final(actions), r is Ok),
    {
        let ghost pre = *old(self);
        let current_term = self.log.current_term();
        if request.term < current_term {
            let response = AppendEntriesResponse {
                log_id: self.lid,
                term: current_term,
                which: AppendResult::StaleTerm,
            };
            actions.push_peer_message(from, PeerMessage::AppendEntriesResponse(response));
            return Ok(());
        }
        match self.state {
            ConsensusState::Leader => {
                if request.term == current_term {
                    // Another leader of our own term: an anomaly that honest
                    // replicas never produce; drop it.
                    return Ok(());
                }
                self.transition_to_follower(request.term, from, actions);
            },
            ConsensusState::Candidate => {
                self.transition_to_follower(request.term, from, actions);
            },
            ConsensusState::Follower => {
                if current_term < request.term {
                    self.log.set_current_term(request.term);
                    self.follower_state.set_leader(from);
                }
            },
        }
        let prev = request.prev_log_index;
        let latest = self.log.latest_log_index();
        let local_prev_matches = if latest < prev {
            false
        } else {
            let local_prev_term = if prev == 0 {
                0
            } else {
                self.log.entry(prev).0
            };
            local_prev_term == request.prev_log_term
        };
        let which = if !local_prev_matches {
            AppendResult::InconsistentPrevEntry(prev)
        } else {
            let new_latest = prev + request.entries.len() as u64;
            if new_latest < self.follower_state.min_index {
                // A reordered duplicate that would regress the log; ignore it.
                return Ok(());
            }
            self.log.append_entries(prev + 1, &request.entries);
            self.follower_state.min_index = new_latest;
            let new_commit = if request.leader_commit < new_latest {
                request.leader_commit
            } else {
                new_latest
            };
            if new_commit > self.commit_index {
                self.commit_index = new_commit;
            }
            let ghost mid = *self;
            let apply_result = self.apply_commits();
            proof {
                if pre.txn_coherent() && self.transaction.is_active && prev
                    >= pre.last_applied {
                    crate::log::lemma_applied_commands_agree(
                        pre.log.contents(),
                        self.log.contents(),
                        self.transaction.saved_last_applied as int,
                        pre.last_applied as int,
                    );
                    crate::log::lemma_applied_commands_split(
                        self.log.contents(),
                        self.transaction.saved_last_applied as int,
                        pre.last_applied as int,
                        self.last_applied as int,
                    );
                    assert(self.state_machine.applied() =~= self.transaction.saved_applied@
                        + crate::log::applied_commands(
                        self.log.contents(),
                        self.transaction.saved_last_applied as int,
                        self.last_applied as int,
                    ));
                }
            }
            match apply_result {
                Ok(_) => {},
                Err(e) => {
                    return Err(e);
                },
            }
            AppendResult::Success(self.log.latest_log_index())
        };
        actions.push_clear_timeouts(self.lid);
        actions.push_timeout(ConsensusTimeout::Election(self.lid));
        let response = AppendEntriesResponse {
            log_id: self.lid,
            term: self.log.current_term(),
            which,
        };
        let ghost resp_view = PeerMessage::AppendEntriesResponse(response)@;
        actions.push_peer_message(from, PeerMessage::AppendEntriesResponse(response));
        proof {
            if pre.state is Follower {
                assert(actions.clear_timeouts@ =~= old(actions).clear_timeouts@ + seq![
                    pre.lid,
                ]);
                assert(actions.timeouts@ =~= old(actions).timeouts@ + seq![
                    ConsensusTimeout::Election(pre.lid),
                ]);
            } else {
                assert(actions.clear_timeouts@ =~= old(actions).clear_timeouts@ + seq![
                    pre.lid,
                    pre.lid,
                ]);
                assert(actions.timeouts@ =~= old(actions).timeouts@ + seq![
                    ConsensusTimeout::Election(pre.lid),
                    ConsensusTimeout::Election(pre.lid),
                ]);
            }
            assert(peer_msgs_view(actions.peer_messages@) =~= peer_msgs_view(
                old(actions).peer_messages@,
            ) + seq![(from, resp_view)]);
        }
        Ok(())
    }

    /// A hint from an InconsistentPrevEntry reply, forced into the sane range
    /// `1..=latest+1` so that a faulty peer cannot derail the leader.
    pub open spec fn clamped_hint(&self, h: LogIndex) -> LogIndex {
        if h == 0 {
            1
        } else if h as nat > self.contents().len() + 1 {
            (self.contents().len() + 1) as LogIndex
        } else {
            h
        }
    }

    /// The batch that catches a peer up from `next` on: entries
    /// `next..=latest` with the pair before them for the consistency check.
    pub open spec fn backfill_view(&self, next: LogIndex) -> PeerMessageView {
        PeerMessageView::AppendEntriesRequest(
            crate::messages::AppendEntriesRequestView {
                log_id: self.lid,
                term: self.log.stored_term(),
                prev_log_index: (next - 1) as LogIndex,
                prev_log_term: term_at(self.contents(), next - 1),
                entries: self.contents().subrange(next - 1, self.contents().len() as int),
                leader_commit: self.commit_index,
            },
        )
    }

    /// Digests a peer's answer to an AppendEntries: a newer term demotes to
    /// Follower; on success the peer's match index moves and the commit index
    /// may advance (answering committed proposals); on an inconsistency the
    /// peer's next index backs off to the hint. A peer that still lags is
    /// sent the missing batch at once, a caught-up peer gets a heartbeat
    /// timeout armed.
    #[verifier::rlimit(100)]
    pub fn append_entries_response(
        &mut self,
        from: ServerId,
        response: AppendEntriesResponse,
        actions: &mut Actions,
    ) -> (r: Result<(), StateMachineError>)
        requires
            old(self).wf(),
            old(self).log.contents().len() < u64::MAX,
        ensures
            Self::append_entries_response_post(*old(self), *final(self), from, response, *old(actions), *final(actions), r is Ok),
    {
        let ghost pre = *old(self);
        let local_term = self.log.current_term();
        let responder_term = response.term;
        if local_term < responder_term {
            // The responder is ahead; step down and use it as the leader hint.
            self.transition_to_follower(responder_term, from, actions);
            return Ok(());
        }
        if local_term > responder_term {
            // An answer to a request from a previous term; ignore it.
            return Ok(());
        }
        if !self.is_leader() {
            return Ok(());
        }
        if self.peer_addr(from).is_none() {
            return Ok(());
        }
        proof {
            assert(self.has_peer(from));
            assert(self.leader_state.has_peer(from));
            assert(self.leader_state.ids_unique());
        }
        let ghost mut a_mid: Actions = *actions;
        let local_latest_log_index = self.log.latest_log_index();
        match &response.which {
            AppendResult::StaleTerm => {
                return Ok(());
            },
            AppendResult::Success(follower_latest_log_index) => {
                self.leader_state.set_match_index(from, *follower_latest_log_index);
                proof {
                    assert(self.leader_state.ids() =~= pre.leader_state.ids());
                }
                self.advance_commit_index(actions)?;
                proof {
                    a_mid = *actions;
                }
            },
            AppendResult::InconsistentPrevEntry(next_index_hint) => {
                let hint = *next_index_hint;
                let clamped = if hint == 0 {
                    1
                } else if hint > local_latest_log_index {
                    local_latest_log_index + 1
                } else {
                    hint
                };
                self.leader_state.set_next_index(from, clamped);
                proof {
                    assert(self.leader_state.ids() =~= pre.leader_state.ids());
                }
            },
            AppendResult::InternalError(_) => {},
        }
        let next_index = self.leader_state.next_index(from);
        proof {
            let k = choose|k: int|
                0 <= k < pre.leader_state.progress@.len()
                    && pre.leader_state.progress@[k].peer == from;
            assert(pre.leader_state.ids()[k] == from);
            if response.which matches AppendResult::Success(_) {
                assert(self.leader_state.progress@[k].peer == from);
                assert(next_index == self.leader_state.progress@[k].next_index);
                assert(next_index == pre.leader_state.spec_next_index(from));
            }
            if response.which is InconsistentPrevEntry {
                let h = response.which->InconsistentPrevEntry_0;
                assert(self.leader_state.progress@[k].peer == from);
                assert(next_index == self.leader_state.progress@[k].next_index);
                assert(next_index == pre.clamped_hint(h));
            }
        }
        if next_index <= local_latest_log_index {
            // The peer is behind; send it the entries it is missing.
            let prev_log_index = next_index - 1;
            let prev_log_term = if prev_log_index == 0 {
                0
            } else {
                self.log.entry(prev_log_index).0
            };
            let entries = self.log.entries(next_index, local_latest_log_index + 1);
            let message = PeerMessage::AppendEntriesRequest(
                AppendEntriesRequest {
                    log_id: self.lid,
                    term: local_term,
                    prev_log_index,
                    prev_log_term,
                    entries,
                    leader_commit: self.commit_index,
                },
            );
            let ghost sent_view = message@;
            let ghost ls_before = self.leader_state.progress@;
            self.leader_state.set_next_index(from, local_latest_log_index + 1);
            proof {
                assert(self.leader_state.ids() =~= pre.leader_state.ids());
                assert(sent_view == self.backfill_view(next_index));
                crate::state::lemma_count_matching_same(
                    ls_before,
                    self.leader_state.progress@,
                    if self.commit_index < u64::MAX {
                        (self.commit_index + 1) as LogIndex
                    } else {
                        self.commit_index
                    },
                );
                crate::state::lemma_count_matching_same(
                    ls_before,
                    self.leader_state.progress@,
                    self.commit_index,
                );
            }
            actions.push_peer_message(from, message);
            proof {
                assert(peer_msgs_view(actions.peer_messages@) =~= peer_msgs_view(
                    old(actions).peer_messages@,
                ) + seq![(from, sent_view)]);
            }
        } else {
            // The peer is caught up; schedule its next heartbeat.
            actions.push_timeout(ConsensusTimeout::Heartbeat(from, self.lid));
        }
        proof {
            let pre_cv = client_msgs_view(old(actions).client_messages@);
            let cv = client_msgs_view(actions.client_messages@);
            if response.which is Success {
                let k = acked_prefix(pre.leader_state.proposals@, self.commit_index);
                assert(actions.client_messages == a_mid.client_messages);
                let da = Self::ack_data(
                    pre.state_machine.applied(),
                    pre.log.contents(),
                    pre.last_applied as int,
                    self.commit_index as int,
                );
                assert(acks_ok(
                    pre.leader_state.proposals@,
                    k,
                    pre_cv,
                    client_msgs_view(a_mid.client_messages@),
                    pre.lid,
                    da,
                ));
                assert(acks_ok(pre.leader_state.proposals@, k, pre_cv, cv, pre.lid, da));
            }
            if cv.len() > pre_cv.len() && cv.take(pre_cv.len() as int) == pre_cv {
                assert(cv =~= pre_cv + cv.skip(pre_cv.len() as int));
            }
        }
        Ok(())
    }

    /// The address recorded for peer `id` (meaningful when `id` is a peer).
    pub open spec fn addr_of(&self, id: ServerId) -> PeerAddr {
        let i = choose|i: int| 0 <= i < self.peers@.len() && self.peers@[i].0 == id;
        self.peers@[i].1
    }

    /// The AppendEntries that replicates one freshly appended entry to a
    /// peer whose `next_index` expects exactly it.
    pub open spec fn proposal_send_view(&self, entry: Seq<u8>) -> PeerMessageView {
        PeerMessageView::AppendEntriesRequest(
            crate::messages::AppendEntriesRequestView {
                log_id: self.lid,
                term: self.log.stored_term(),
                prev_log_index: self.contents().len() as LogIndex,
                prev_log_term: self.latest_term(),
                entries: seq![(self.log.stored_term(), entry)],
                leader_commit: self.commit_index,
            },
        )
    }

    /// Admits a client proposal: a non-leader refers the client to the
    /// leader; the leader appends the entry to its own log, queues the
    /// proposal for acknowledgement, and hands the entry to every peer whose
    /// `next_index` expects it (a solitary leader commits it at once).
    pub fn proposal_request(&mut self, from: ClientId, entry: Vec<u8>, actions: &mut Actions) -> (r:
        Result<(), StateMachineError>)
        requires
            old(self).wf(),
            old(self).log.contents().len() + 2 <= u64::MAX,
        ensures
            Self::proposal_request_post(*old(self), *final(self), from, entry@, *old(actions), *final(actions), r is Ok),
    {
        let ghost pre = *old(self);
        if self.is_candidate() || (self.is_follower() && self.follower_state.leader.is_none()) {
            actions.push_client_message(
                from,
                CommandResponse::UnknownLeader { log_id: self.lid },
            );
            return Ok(());
        }
        if self.is_follower() {
            let leader = match self.follower_state.leader {
                Some(l) => l,
                None => unreached(),
            };
            match self.peer_addr(leader) {
                Some(addr) => {
                    proof {
                        let a = choose|i: int|
                            0 <= i < self.peers@.len() && self.peers@[i] == (leader, addr);
                        assert(pre.peers@[a] == (leader, addr));
                        assert(pre.peer_ids()[a] == leader);
                        assert forall|c: int|
                            0 <= c < pre.peers@.len() && pre.peers@[c].0
                                == leader implies #[trigger] pre.peers@[c].1 == addr by {
                            if c != a {
                                assert(pre.peer_ids()[c] == leader);
                                assert(pre.peer_ids()[a] == leader);
                                assert(false);
                            }
                        }
                        assert(exists|i: int|
                            0 <= i < pre.peers@.len() && pre.peers@[i].0 == leader);
                        assert(addr == pre.addr_of(leader));
                    }
                    actions.push_client_message(
                        from,
                        CommandResponse::NotLeader { log_id: self.lid, leader_addr: addr },
                    );
                },
                None => {
                    actions.push_client_message(
                        from,
                        CommandResponse::UnknownLeader { log_id: self.lid },
                    );
                },
            }
            return Ok(());
        }
        // Leader: replicate.
        let prev_log_index = self.log.latest_log_index();
        let prev_log_term = self.log.latest_log_term();
        let term = self.log.current_term();
        let log_index = prev_log_index + 1;
        let batch: Vec<Entry> = vec![Entry { term, command: entry }];
        self.log.append_entries(log_index, &batch);
        self.leader_state.proposals.push((from, log_index));
        proof {
            assert(self.log.contents() =~= pre.log.contents().push(
                (pre.log.stored_term(), batch@[0]@.1),
            ));
        }
        if self.peers.len() == 0 {
            proof {
                if pre.txn_coherent() && self.transaction.is_active {
                    crate::log::lemma_applied_commands_agree(
                        pre.log.contents(),
                        self.log.contents(),
                        self.transaction.saved_last_applied as int,
                        self.last_applied as int,
                    );
                }
            }
            self.advance_commit_index(actions)?;
            proof {
                assert(self.commit_index as nat == self.log.contents().len());
            }
        } else {
            let ghost snap = *self;
            let ghost a0 = *actions;
            let mut i: usize = 0;
            while i < self.peers.len()
                invariant
                    old(self).wf(),
                    pre == *old(self),
                    0 <= i <= self.peers@.len(),
                    self.peers == pre.peers,
                    self.id == pre.id,
                    self.lid == pre.lid,
                    self.log == snap.log,
                    self.state_machine == snap.state_machine,
                    self.commit_index == pre.commit_index,
                    self.last_applied == pre.last_applied,
                    self.state == pre.state,
                    self.state is Leader,
                    self.candidate_state == pre.candidate_state,
                    self.follower_state == pre.follower_state,
                    self.transaction == pre.transaction,
                    self.leader_state.proposals == snap.leader_state.proposals,
                    pre.log.contents().len() + 2 <= u64::MAX,
                    log_index == pre.log.contents().len() + 1,
                    term == pre.log.stored_term(),
                    prev_log_index == pre.log.contents().len(),
                    prev_log_term == pre.latest_term(),
                    self.log.contents() == pre.log.contents().push((term, entry@)),
                    crate::log::views_of(batch@) == seq![(term, entry@)],
                    pre.leader_state.ids() == pre.peer_ids(),
                    pre.leader_state.ids_unique(),
                    self.leader_state.progress@.len() == pre.leader_state.progress@.len(),
                    forall|j: int|
                        0 <= j < self.leader_state.progress@.len()
                            ==> #[trigger] self.leader_state.progress@[j]
                            == (crate::state::PeerProgress {
                            peer: pre.leader_state.progress@[j].peer,
                            next_index: if j < i && pre.leader_state.progress@[j].next_index
                                == log_index {
                                (log_index + 1) as LogIndex
                            } else {
                                pre.leader_state.progress@[j].next_index
                            },
                            match_index: pre.leader_state.progress@[j].match_index,
                        }),
                    Actions::delta(
                        a0,
                        *actions,
                        pre.peer_ids().take(i as int).filter(
                            |p: ServerId| pre.leader_state.spec_next_index(p) == log_index,
                        ).map_values(
                            |p: ServerId| (p, pre.proposal_send_view(entry@)),
                        ),
                        Seq::empty(),
                        Seq::empty(),
                        Seq::empty(),
                        false,
                        Seq::empty(),
                        Seq::empty(),
                    ),
                decreases self.peers@.len() - i,
            {
                let ghost gained = pre.peer_ids().take(i as int).filter(
                    |p: ServerId| pre.leader_state.spec_next_index(p) == log_index,
                ).map_values(|p: ServerId| (p, pre.proposal_send_view(entry@)));
                let peer = self.peers[i].0;
                proof {
                    pre.leader_state.lemma_spec_next_index_at(i as int);
                    assert(pre.leader_state.ids()[i as int] == peer);
                    assert(self.leader_state.ids() =~= pre.leader_state.ids());
                    assert(self.leader_state.has_peer(peer));
                    reveal(Seq::filter);
                    assert(pre.peer_ids().take(i + 1).drop_last() =~= pre.peer_ids().take(
                        i as int,
                    ));
                    assert(pre.peer_ids().take(i + 1).last() == peer);
                }
                let next = self.leader_state.next_index(peer);
                proof {
                    assert(next == self.leader_state.progress@[i as int].next_index);
                    assert(next == pre.leader_state.progress@[i as int].next_index);
                }
                if next == log_index {
                    let message = PeerMessage::AppendEntriesRequest(
                        AppendEntriesRequest {
                            log_id: self.lid,
                            term,
                            prev_log_index,
                            prev_log_term,
                            entries: crate::clone_entries(&batch),
                            leader_commit: self.commit_index,
                        },
                    );
                    proof {
                        assert(message@ == pre.proposal_send_view(entry@));
                    }
                    actions.push_peer_message(peer, message);
                    self.leader_state.set_next_index(peer, log_index + 1);
                    proof {
                        assert(self.leader_state.ids() =~= pre.leader_state.ids());
                        assert forall|j: int|
                            0 <= j < self.leader_state.progress@.len()
                                && j != i && pre.leader_state.progress@[j].peer
                                == peer implies false by {
                            assert(pre.leader_state.ids()[j] == peer);
                            assert(pre.leader_state.ids()[i as int] == peer);
                        }
                        assert(peer_msgs_view(actions.peer_messages@) =~= peer_msgs_view(
                            a0.peer_messages@,
                        ) + gained.push((peer, pre.proposal_send_view(entry@))));
                        assert(pre.peer_ids().take(i + 1).filter(
                            |p: ServerId| pre.leader_state.spec_next_index(p) == log_index,
                        ).map_values(
                            |p: ServerId| (p, pre.proposal_send_view(entry@)),
                        ) =~= gained.push((peer, pre.proposal_send_view(entry@))));
                    }
                } else {
                    proof {
                        assert(pre.peer_ids().take(i + 1).filter(
                            |p: ServerId| pre.leader_state.spec_next_index(p) == log_index,
                        ).map_values(
                            |p: ServerId| (p, pre.proposal_send_view(entry@)),
                        ) =~= gained);
                    }
                }
                i = i + 1;
            }
            proof {
                assert(pre.peer_ids().take(pre.peer_ids().len() as int) =~= pre.peer_ids());
                assert(self.leader_state.ids() =~= pre.leader_state.ids());
            }
        }
        Ok(())
    }

    /// Answers a read-only client query against the local state machine; a
    /// replica that knows no leader refers the client away instead.
    pub fn query_request(&mut self, from: ClientId, query: Vec<u8>, actions: &mut Actions) -> (r:
        Result<(), StateMachineError>)
        requires
            old(self).wf(),
        ensures
            Self::query_request_post(*old(self), *final(self), from, query@, *old(actions), *final(actions), r is Ok),
    {
        if self.is_candidate() || (self.is_follower() && self.follower_state.leader.is_none()) {
            actions.push_client_message(
                from,
                CommandResponse::UnknownLeader { log_id: self.lid },
            );
            return Ok(());
        }
        let result = match self.state_machine.query(query.as_slice()) {
            Ok(result) => result,
            Err(e) => {
                return Err(e);
            },
        };
        actions.push_client_message(
            from,
            CommandResponse::Success { log_id: self.lid, data: result },
        );
        Ok(())
    }

    /// Mirrors a leader's transaction begin on a non-leader: captures the
    /// indices to restore, including this replica's `min_index`.
    pub fn transaction_begin(&mut self, from: ServerId, session: TransactionId, actions: &mut Actions)
        requires
            old(self).wf(),
        ensures
            Self::transaction_begin_post(*old(self), *final(self), from, session, *old(actions), *final(actions), true),
    {
        if !self.is_leader() {
            if !self.transaction.is_active {
                let min = if self.follower_state.min_index >= self.commit_index {
                    self.follower_state.min_index
                } else {
                    self.commit_index
                };
                let applied = Ghost(self.state_machine.applied());
                let _ = self.transaction.begin(
                    session,
                    self.commit_index,
                    self.last_applied,
                    Some(min),
                    applied,
                );
                proof {
                    assert(self.state_machine.applied() =~= self.transaction.saved_applied@
                        + crate::log::applied_commands(
                        self.log.contents(),
                        self.transaction.saved_last_applied as int,
                        self.last_applied as int,
                    ));
                }
            }
        }
    }

    /// Mirrors a leader's transaction commit: clears the bookkeeping if the
    /// session matches the active transaction. A commit naming a different
    /// session is a protocol anomaly; it is ignored, so the open transaction
    /// stays open until its own commit or rollback arrives.
    pub fn transaction_commit(&mut self, from: ServerId, session: TransactionId, actions: &mut Actions)
        requires
            old(self).wf(),
        ensures
            Self::transaction_commit_post(*old(self), *final(self), from, session, *old(actions), *final(actions), true),
    {
        if self.transaction.compare(session) {
            let _ = self.transaction.end();
        }
    }

    /// Mirrors a leader's transaction rollback: restores the captured
    /// indices, reverts and truncates the uncommitted tail, and restores this
    /// replica's `min_index`.
    pub fn transaction_rollback(
        &mut self,
        from: ServerId,
        session: TransactionId,
        actions: &mut Actions,
    ) -> (r: Result<(), StateMachineError>)
        requires
            old(self).wf(),
            old(self).log.contents().len() < u64::MAX,
        ensures
            Self::transaction_rollback_post(*old(self), *final(self), from, session, *old(actions), *final(actions), r is Ok),
    {
        if self.transaction.is_active {
            self.perform_rollback()
        } else {
            Ok(())
        }
    }

    /// Opens a client transaction on the leader: captures the indices to
    /// restore, broadcasts the begin to every peer, and acknowledges the
    /// client; a non-leader refers the client to the leader instead.
    pub fn client_transaction_begin(
        &mut self,
        from: ClientId,
        session: TransactionId,
        actions: &mut Actions,
    )
        requires
            old(self).wf(),
        ensures
            Self::client_transaction_begin_post(*old(self), *final(self), from, session, *old(actions), *final(actions), true),
    {
        if self.is_leader() {
            if !self.transaction.is_active {
                let applied = Ghost(self.state_machine.applied());
                let _ = self.transaction.begin(
                    session,
                    self.commit_index,
                    self.last_applied,
                    None,
                    applied,
                );
                self.transaction.broadcast_begin(self.lid, actions);
                actions.push_client_message(
                    from,
                    CommandResponse::TransactionSuccess {
                        log_id: self.lid,
                        data: crate::session_bytes(session),
                    },
                );
                proof {
                    assert(self.state_machine.applied() =~= self.transaction.saved_applied@
                        + crate::log::applied_commands(
                        self.log.contents(),
                        self.transaction.saved_last_applied as int,
                        self.last_applied as int,
                    ));
                }
            } else {
                actions.push_client_message(
                    from,
                    CommandResponse::TransactionFailure {
                        log_id: self.lid,
                        kind: TransactionError::NotActive,
                    },
                );
            }
        } else {
            self.refer_to_leader(from, actions);
        }
    }

    /// Closes the client transaction on the leader, broadcasting the commit;
    /// the parked traffic becomes admissible again.
    pub fn client_transaction_commit(&mut self, from: ClientId, actions: &mut Actions)
        requires
            old(self).wf(),
        ensures
            Self::client_transaction_commit_post(*old(self), *final(self), from, *old(actions), *final(actions), true),
    {
        if self.is_leader() {
            if self.transaction.is_active {
                self.transaction.broadcast_end(self.lid, actions);
                let _ = self.transaction.end();
                actions.push_client_message(
                    from,
                    CommandResponse::TransactionSuccess {
                        log_id: self.lid,
                        data: Vec::new(),
                    },
                );
            } else {
                actions.push_client_message(
                    from,
                    CommandResponse::TransactionFailure {
                        log_id: self.lid,
                        kind: TransactionError::AlreadyActive,
                    },
                );
            }
        } else {
            self.refer_to_leader(from, actions);
        }
    }

    /// Rolls the client transaction back on the leader: broadcasts the
    /// rollback, restores the captured indices, reverts and truncates the
    /// transaction's entries, and acknowledges the client.
    pub fn client_transaction_rollback(&mut self, from: ClientId, actions: &mut Actions) -> (r:
        Result<(), StateMachineError>)
        requires
            old(self).wf(),
            old(self).log.contents().len() < u64::MAX,
        ensures
            Self::client_transaction_rollback_post(*old(self), *final(self), from, *old(actions), *final(actions), r is Ok),
    {
        if self.is_leader() {
            if self.transaction.is_active {
                self.transaction.broadcast_rollback(self.lid, actions);
                match self.perform_rollback() {
                    Ok(()) => {},
                    Err(e) => {
                        return Err(e);
                    },
                }
                actions.push_client_message(
                    from,
                    CommandResponse::TransactionSuccess {
                        log_id: self.lid,
                        data: Vec::new(),
                    },
                );
            } else {
                actions.push_client_message(
                    from,
                    CommandResponse::TransactionFailure {
                        log_id: self.lid,
                        kind: TransactionError::AlreadyActive,
                    },
                );
            }
        } else {
            self.refer_to_leader(from, actions);
        }
        Ok(())
    }

    /// The referral a non-leader owes a client: the believed leader's
    /// address when one is known, otherwise word that none is.
    pub open spec fn referral(pre: &Self, a0: Actions, a1: Actions, from: ClientId) -> bool {
        Actions::delta(
            a0,
            a1,
            Seq::empty(),
            seq![
                (
                    from,
                    if pre.follower_state.leader is Some && pre.has_peer(
                        pre.follower_state.leader->0,
                    ) {
                        CommandResponseView::NotLeader {
                            log_id: pre.lid,
                            leader_addr: pre.addr_of(pre.follower_state.leader->0),
                        }
                    } else {
                        CommandResponseView::UnknownLeader { log_id: pre.lid }
                    },
                ),
            ],
            Seq::empty(),
            Seq::empty(),
            false,
            Seq::empty(),
            Seq::empty(),
        )
    }

    /// Points a client at the leader this replica believes in, or reports
    /// that none is known.
    fn refer_to_leader(&mut self, from: ClientId, actions: &mut Actions)
        requires
            old(self).wf(),
        ensures
            final(self).wf(),
            *final(self) == *old(self),
            Self::referral(old(self), *old(actions), *final(actions), from),
    {
        let ghost pre = *old(self);
        let hint = self.follower_state.leader;
        match hint {
            Some(leader) => {
                match self.peer_addr(leader) {
                    Some(addr) => {
                        proof {
                            let a = choose|i: int|
                                0 <= i < self.peers@.len() && self.peers@[i] == (
                                leader,
                                addr,
                                );
                            assert(pre.peers@[a] == (leader, addr));
                            assert(pre.peer_ids()[a] == leader);
                            assert forall|c: int|
                                0 <= c < pre.peers@.len() && pre.peers@[c].0
                                    == leader implies #[trigger] pre.peers@[c].1 == addr by {
                                if c != a {
                                    assert(pre.peer_ids()[c] == leader);
                                    assert(pre.peer_ids()[a] == leader);
                                    assert(false);
                                }
                            }
                            assert(exists|i: int|
                                0 <= i < pre.peers@.len() && pre.peers@[i].0 == leader);
                            assert(addr == pre.addr_of(leader));
                        }
                        actions.push_client_message(
                            from,
                            CommandResponse::NotLeader { log_id: self.lid, leader_addr: addr },
                        );
                    },
                    None => {
                        actions.push_client_message(
                            from,
                            CommandResponse::UnknownLeader { log_id: self.lid },
                        );
                    },
                }
            },
            None => {
                actions.push_client_message(
                    from,
                    CommandResponse::UnknownLeader { log_id: self.lid },
                );
            },
        }
    }

    /// How one AppendEntries request relates `post` and the actions gained
    /// in `a1` to `pre` and `a0`; `ok` is whether the handler returned Ok.
    pub open spec fn append_entries_request_post(
        pre: Self,
        post: Self,
        from: ServerId,
        request: AppendEntriesRequest,
        a0: Actions,
        a1: Actions,
        ok: bool,
    ) -> bool {
        &&& (post.wf())
        &&& (post.id == pre.id)
        &&& (post.peers == pre.peers)
        &&& (post.lid == pre.lid)
        &&& (post.transaction == pre.transaction)
        &&& (post.leader_state == pre.leader_state)
        &&& (post.candidate_state == pre.candidate_state)
        &&& (pre.log.stored_term() <= post.log.stored_term())
        &&& (pre.ae_stale(request) ==> ok && post == pre
                && Actions::delta(
                a0,
                a1,
                seq![
                    (
                        from,
                        PeerMessageView::AppendEntriesResponse(
                            crate::messages::AppendEntriesResponseView {
                                log_id: pre.lid,
                                term: pre.log.stored_term(),
                                which: AppendResultView::StaleTerm,
                            },
                        ),
                    ),
                ],
                Seq::empty(),
                Seq::empty(),
                Seq::empty(),
                false,
                Seq::empty(),
                Seq::empty(),
            ))
        &&& (!pre.ae_stale(request) && pre.ae_ignored(request) ==> ok && post == pre && a1 == a0)
        &&& (!pre.ae_stale(request) && !pre.ae_ignored(request) ==> {
                &&& post.state is Follower
                &&& post.log.stored_term() == request.term
                &&& post.log.stored_vote() == (if request.term > pre.log.stored_term() {
                    None
                } else {
                    pre.log.stored_vote()
                })
                &&& post.follower_state.leader == (if !(pre.state is Follower)
                    || request.term > pre.log.stored_term() {
                    Some(from)
                } else {
                    pre.follower_state.leader
                })
            })
        &&& (!pre.ae_stale(request) && !pre.ae_ignored(request) && pre.ae_inconsistent(request) ==> {
                &&& ok
                &&& post.log.contents() == pre.log.contents()
                &&& post.commit_index == pre.commit_index
                &&& post.last_applied == pre.last_applied
                &&& post.state_machine == pre.state_machine
                &&& post.follower_state.min_index == pre.ae_effective_min()
                &&& Actions::delta(
                    a0,
                    a1,
                    seq![
                        (
                            from,
                            PeerMessageView::AppendEntriesResponse(
                                crate::messages::AppendEntriesResponseView {
                                    log_id: pre.lid,
                                    term: request.term,
                                    which: AppendResultView::InconsistentPrevEntry(
                                        request.prev_log_index,
                                    ),
                                },
                            ),
                        ),
                    ],
                    Seq::empty(),
                    if pre.state is Follower {
                        seq![pre.lid]
                    } else {
                        seq![pre.lid, pre.lid]
                    },
                    if pre.state is Follower {
                        seq![ConsensusTimeout::Election(pre.lid)]
                    } else {
                        seq![
                            ConsensusTimeout::Election(pre.lid),
                            ConsensusTimeout::Election(pre.lid),
                        ]
                    },
                    !(pre.state is Follower),
                    Seq::empty(),
                    Seq::empty(),
                )
            })
        &&& (!pre.ae_stale(request) && !pre.ae_ignored(request) && !pre.ae_inconsistent(request) && pre.ae_silent_drop(request) ==> {
                &&& ok
                &&& post.log.contents() == pre.log.contents()
                &&& post.commit_index == pre.commit_index
                &&& post.last_applied == pre.last_applied
                &&& post.state_machine == pre.state_machine
                &&& post.follower_state.min_index == pre.ae_effective_min()
                &&& Actions::delta(
                    a0,
                    a1,
                    Seq::empty(),
                    Seq::empty(),
                    if pre.state is Follower {
                        Seq::empty()
                    } else {
                        seq![pre.lid]
                    },
                    if pre.state is Follower {
                        Seq::empty()
                    } else {
                        seq![ConsensusTimeout::Election(pre.lid)]
                    },
                    !(pre.state is Follower),
                    Seq::empty(),
                    Seq::empty(),
                )
            })
        &&& (pre.ae_accepted(request) ==> {
                &&& post.log.contents() == pre.log.contents().take(
                    request.prev_log_index as int,
                ) + views_of(request.entries@)
                &&& post.follower_state.min_index == request.prev_log_index
                    + request.entries@.len()
                &&& post.commit_index == (if pre.commit_index >= min_spec(
                    request.leader_commit,
                    (request.prev_log_index + request.entries@.len()) as LogIndex,
                ) {
                    pre.commit_index
                } else {
                    min_spec(
                        request.leader_commit,
                        (request.prev_log_index + request.entries@.len()) as LogIndex,
                    )
                })
                &&& pre.last_applied <= post.last_applied <= post.commit_index
                &&& post.state_machine.applied() == pre.state_machine.applied()
                    + crate::log::applied_commands(
                    post.log.contents(),
                    pre.last_applied as int,
                    post.last_applied as int,
                )
                &&& !ok ==> post.last_applied < post.commit_index
                &&& ok ==> post.last_applied == post.commit_index
                    && Actions::delta(
                    a0,
                    a1,
                    seq![
                        (
                            from,
                            PeerMessageView::AppendEntriesResponse(
                                crate::messages::AppendEntriesResponseView {
                                    log_id: pre.lid,
                                    term: request.term,
                                    which: AppendResultView::Success(
                                        (request.prev_log_index + request.entries@.len()) as LogIndex,
                                    ),
                                },
                            ),
                        ),
                    ],
                    Seq::empty(),
                    if pre.state is Follower {
                        seq![pre.lid]
                    } else {
                        seq![pre.lid, pre.lid]
                    },
                    if pre.state is Follower {
                        seq![ConsensusTimeout::Election(pre.lid)]
                    } else {
                        seq![
                            ConsensusTimeout::Election(pre.lid),
                            ConsensusTimeout::Election(pre.lid),
                        ]
                    },
                    !(pre.state is Follower),
                    Seq::empty(),
                    Seq::empty(),
                )
            })
        &&& (pre.txn_coherent() && (pre.ae_accepted(request)
                ==> request.prev_log_index >= pre.last_applied) ==> post.txn_coherent())
    }

    /// How one AppendEntries answer relates `post` and the actions gained
    /// in `a1` to `pre` and `a0`; `ok` is whether the handler returned Ok.
    pub open spec fn append_entries_response_post(
        pre: Self,
        post: Self,
        from: ServerId,
        response: AppendEntriesResponse,
        a0: Actions,
        a1: Actions,
        ok: bool,
    ) -> bool {
        &&& (post.wf())
        &&& (post.id == pre.id)
        &&& (post.peers == pre.peers)
        &&& (post.lid == pre.lid)
        &&& (post.log.contents() == pre.log.contents())
        &&& (post.transaction == pre.transaction)
        &&& (pre.log.stored_term() <= post.log.stored_term())
        &&& (pre.txn_coherent() ==> post.txn_coherent())
        &&& (response.term > pre.log.stored_term() ==> {
                &&& ok
                &&& Self::core_unchanged(&pre, &post)
                &&& post.state is Follower
                &&& post.log.stored_term() == response.term
                &&& post.follower_state.leader == Some(from)
                &&& post.leader_state == pre.leader_state
                &&& Actions::delta(
                    a0,
                    a1,
                    Seq::empty(),
                    Seq::empty(),
                    seq![pre.lid],
                    seq![ConsensusTimeout::Election(pre.lid)],
                    true,
                    Seq::empty(),
                    Seq::empty(),
                )
            })
        &&& (response.term <= pre.log.stored_term() && (response.term < pre.log.stored_term() || !(pre.state is Leader) || !pre.has_peer(from)
                || response.which is StaleTerm) ==> ok && post == pre
                && a1 == a0)
        &&& ((response.term == pre.log.stored_term() && pre.state is Leader && pre.has_peer(from) && !(response.which is StaleTerm)) ==> {
                &&& post.state is Leader
                &&& post.log.stored_term() == pre.log.stored_term()
                &&& post.log.stored_vote() == pre.log.stored_vote()
                &&& post.candidate_state == pre.candidate_state
                &&& post.follower_state == pre.follower_state
                &&& post.leader_state.ids() == pre.leader_state.ids()
            })
        &&& (response.term == pre.log.stored_term() && pre.state is Leader && pre.has_peer(from) ==> (response.which matches AppendResult::InconsistentPrevEntry(h)
                ==> {
                let nxt = pre.clamped_hint(h);
                let backfilled = nxt as nat <= pre.log.contents().len();
                &&& ok
                &&& post.commit_index == pre.commit_index
                &&& post.last_applied == pre.last_applied
                &&& post.state_machine == pre.state_machine
                &&& post.leader_state.proposals == pre.leader_state.proposals
                &&& forall|i: int|
                    0 <= i < post.leader_state.progress@.len()
                        ==> #[trigger] post.leader_state.progress@[i]
                        == (crate::state::PeerProgress {
                        peer: pre.leader_state.progress@[i].peer,
                        next_index: if pre.leader_state.progress@[i].peer == from {
                            if backfilled {
                                (pre.log.contents().len() + 1) as LogIndex
                            } else {
                                nxt
                            }
                        } else {
                            pre.leader_state.progress@[i].next_index
                        },
                        match_index: pre.leader_state.progress@[i].match_index,
                    })
                &&& Actions::delta(
                    a0,
                    a1,
                    if backfilled {
                        seq![(from, post.backfill_view(nxt))]
                    } else {
                        Seq::empty()
                    },
                    Seq::empty(),
                    Seq::empty(),
                    if backfilled {
                        Seq::empty()
                    } else {
                        seq![ConsensusTimeout::Heartbeat(from, pre.lid)]
                    },
                    false,
                    Seq::empty(),
                    Seq::empty(),
                )
            }))
        &&& (response.term == pre.log.stored_term() && pre.state is Leader && pre.has_peer(from) ==> (response.which matches AppendResult::Success(fl) ==> {
                let nxt = pre.leader_state.spec_next_index(from);
                let backfilled = nxt as nat <= pre.log.contents().len();
                &&& pre.commit_index <= post.commit_index
                &&& post.commit_index as nat <= pre.log.contents().len()
                &&& (post.commit_index > pre.commit_index ==> post.leader_state.match_count(post.commit_index) >= pre.majority_spec())
                &&& pre.last_applied <= post.last_applied <= post.commit_index
                &&& post.state_machine.applied() == pre.state_machine.applied()
                    + crate::log::applied_commands(
                    pre.log.contents(),
                    pre.last_applied as int,
                    post.last_applied as int,
                )
                &&& forall|i: int|
                    0 <= i < post.leader_state.progress@.len()
                        ==> #[trigger] post.leader_state.progress@[i]
                        == (crate::state::PeerProgress {
                        peer: pre.leader_state.progress@[i].peer,
                        next_index: if pre.leader_state.progress@[i].peer == from
                            && backfilled && ok {
                            (pre.log.contents().len() + 1) as LogIndex
                        } else {
                            pre.leader_state.progress@[i].next_index
                        },
                        match_index: if pre.leader_state.progress@[i].peer == from {
                            fl
                        } else {
                            pre.leader_state.progress@[i].match_index
                        },
                    })
                &&& !ok ==> post.last_applied < post.commit_index
                &&& ok ==> {
                    let k = acked_prefix(
                        pre.leader_state.proposals@,
                        post.commit_index,
                    );
                    let cv0 = client_msgs_view(a0.client_messages@);
                    let cv1 = client_msgs_view(a1.client_messages@);
                    &&& post.last_applied == post.commit_index
                    &&& post.leader_state.proposals@ == pre.leader_state.proposals@.skip(k)
                    &&& acks_ok(
                        pre.leader_state.proposals@,
                        k,
                        cv0,
                        cv1,
                        pre.lid,
                        Self::ack_data(
                            pre.state_machine.applied(),
                            pre.log.contents(),
                            pre.last_applied as int,
                            post.commit_index as int,
                        ),
                    )
                    &&& (backfilled ==> peer_msgs_view(a1.peer_messages@)
                        == peer_msgs_view(a0.peer_messages@) + seq![(from, post.backfill_view(nxt))])
                    &&& (!backfilled ==> a1.peer_messages == a0.peer_messages)
                    &&& (!backfilled ==> a1.timeouts@ == a0.timeouts@
                        + seq![ConsensusTimeout::Heartbeat(from, pre.lid)])
                    &&& (backfilled ==> a1.timeouts == a0.timeouts)
                    &&& a1.clear_timeouts == a0.clear_timeouts
                    &&& a1.clear_peer_messages == a0.clear_peer_messages
                    &&& a1.transaction_queue == a0.transaction_queue
                    &&& a1.peer_messages_broadcast == a0.peer_messages_broadcast
                    &&& (k > 0 ==> client_msgs_view(a1.client_messages@)
                        == client_msgs_view(a0.client_messages@) + cv1.skip(cv0.len() as int))
                    &&& (k == 0 ==> a1.client_messages == a0.client_messages)
                }
            }))
    }

    /// How one RequestVote relates `post` and the actions gained in `a1` to
    /// `pre` and `a0`.
    pub open spec fn request_vote_request_post(
        pre: Self,
        post: Self,
        candidate: ServerId,
        request: RequestVoteRequest,
        a0: Actions,
        a1: Actions,
        ok: bool,
    ) -> bool {
        &&& (post.wf())
        &&& (Self::core_unchanged(&pre, &post))
        &&& (post.log.stored_term() == (if request.term > pre.log.stored_term() {
                request.term
            } else {
                pre.log.stored_term()
            }))
        &&& (pre.log.stored_term() <= post.log.stored_term())
        &&& (post.leader_state == pre.leader_state)
        &&& (post.candidate_state == pre.candidate_state)
        &&& (post.log.stored_vote() == (match pre.vote_result_for(
                candidate,
                request,
            ) {
                VoteResult::Granted => Some(candidate),
                VoteResult::AlreadyVoted => pre.log.stored_vote(),
                VoteResult::StaleTerm => pre.log.stored_vote(),
                VoteResult::InconsistentLog => if request.term > pre.log.stored_term() {
                    None
                } else {
                    pre.log.stored_vote()
                },
            }))
        &&& (request.term > pre.log.stored_term() ==> post.state is Follower
                && post.follower_state.leader == Some(candidate) && post.follower_state.min_index == (if pre.follower_state.min_index >= pre.commit_index {
                pre.follower_state.min_index
            } else {
                pre.commit_index
            }))
        &&& (request.term <= pre.log.stored_term() ==> post.state == pre.state && post.follower_state == pre.follower_state)
        &&& (Actions::delta(
                a0,
                a1,
                seq![
                    (
                        candidate,
                        PeerMessageView::RequestVoteResponse(
                            RequestVoteResponse {
                                log_id: pre.lid,
                                term: if request.term > pre.log.stored_term() {
                                    request.term
                                } else {
                                    pre.log.stored_term()
                                },
                                which: pre.vote_result_for(candidate, request),
                            },
                        ),
                    ),
                ],
                Seq::empty(),
                if request.term > pre.log.stored_term() {
                    seq![pre.lid]
                } else {
                    Seq::empty()
                },
                if request.term > pre.log.stored_term() {
                    seq![ConsensusTimeout::Election(pre.lid)]
                } else {
                    Seq::empty()
                },
                request.term > pre.log.stored_term(),
                Seq::empty(),
                Seq::empty(),
            ))
    }

    /// How one RequestVote answer relates `post` and the actions gained in
    /// `a1` to `pre` and `a0`; `ok` is whether the handler returned Ok.
    pub open spec fn request_vote_response_post(
        pre: Self,
        post: Self,
        from: ServerId,
        response: RequestVoteResponse,
        a0: Actions,
        a1: Actions,
        ok: bool,
    ) -> bool {
        &&& (post.wf())
        &&& (pre.log.stored_term() <= post.log.stored_term())
        &&& (response.term > pre.log.stored_term() ==> {
                &&& ok
                &&& Self::core_unchanged(&pre, &post)
                &&& post.state is Follower
                &&& post.log.stored_term() == response.term
                &&& post.follower_state.leader == Some(from)
                &&& post.leader_state == pre.leader_state
                &&& post.candidate_state == pre.candidate_state
                &&& Actions::delta(
                    a0,
                    a1,
                    Seq::empty(),
                    Seq::empty(),
                    seq![pre.lid],
                    seq![ConsensusTimeout::Election(pre.lid)],
                    true,
                    Seq::empty(),
                    Seq::empty(),
                )
            })
        &&& ((response.term < pre.log.stored_term() || !(pre.state is Candidate)
                || !(response.which is Granted) || !pre.has_peer(from)) && response.term
                <= pre.log.stored_term() ==> ok && post == pre
                && a1 == a0)
        &&& ((response.term == pre.log.stored_term() && pre.state is Candidate
                && response.which is Granted && pre.has_peer(from)) ==> {
                let votes = if pre.candidate_state.has_vote(from) {
                    pre.candidate_state.granted_votes@
                } else {
                    pre.candidate_state.granted_votes@.push(from)
                };
                if votes.len() >= pre.majority_spec() {
                    &&& Self::leader_post(&pre, &post, ok)
                    &&& post.candidate_state.granted_votes@ == votes
                    &&& Self::leader_actions(&pre, a0, a1)
                } else {
                    &&& ok
                    &&& Self::core_unchanged(&pre, &post)
                    &&& post.state == pre.state
                    &&& post.log.stored_term() == pre.log.stored_term()
                    &&& post.log.stored_vote() == pre.log.stored_vote()
                    &&& post.leader_state == pre.leader_state
                    &&& post.follower_state == pre.follower_state
                    &&& post.candidate_state.granted_votes@ == votes
                    &&& a1 == a0
                }
            })
    }

    /// How a mirrored transaction begin relates `post` to `pre`; it emits
    /// no actions.
    pub open spec fn transaction_begin_post(
        pre: Self,
        post: Self,
        from: ServerId,
        session: TransactionId,
        a0: Actions,
        a1: Actions,
        ok: bool,
    ) -> bool {
        &&& (post.wf())
        &&& (pre.txn_coherent() ==> post.txn_coherent())
        &&& (a1 == a0)
        &&& (post.id == pre.id)
        &&& (post.peers == pre.peers)
        &&& (post.log == pre.log)
        &&& (post.state_machine == pre.state_machine)
        &&& (post.commit_index == pre.commit_index)
        &&& (post.last_applied == pre.last_applied)
        &&& (post.state == pre.state)
        &&& (post.leader_state == pre.leader_state)
        &&& (post.candidate_state == pre.candidate_state)
        &&& (post.follower_state == pre.follower_state)
        &&& (post.lid == pre.lid)
        &&& (!(pre.state is Leader) && !pre.transaction.is_active ==> post.txn_coherent() && post.transaction == (TransactionManager {
                is_active: true,
                session: Some(session),
                saved_commit_index: pre.commit_index,
                saved_last_applied: pre.last_applied,
                saved_follower_min_index: Some(
                    if pre.follower_state.min_index >= pre.commit_index {
                        pre.follower_state.min_index
                    } else {
                        pre.commit_index
                    },
                ),
                inflight_count: 0,
                saved_applied: Ghost(pre.state_machine.applied()),
            }))
        &&& (pre.state is Leader || pre.transaction.is_active ==> post.transaction == pre.transaction)
    }

    /// How a mirrored transaction commit relates `post` to `pre`; it emits
    /// no actions.
    pub open spec fn transaction_commit_post(
        pre: Self,
        post: Self,
        from: ServerId,
        session: TransactionId,
        a0: Actions,
        a1: Actions,
        ok: bool,
    ) -> bool {
        &&& (post.wf())
        &&& (pre.txn_coherent() ==> post.txn_coherent())
        &&& (a1 == a0)
        &&& (post.id == pre.id)
        &&& (post.peers == pre.peers)
        &&& (post.log == pre.log)
        &&& (post.state_machine == pre.state_machine)
        &&& (post.commit_index == pre.commit_index)
        &&& (post.last_applied == pre.last_applied)
        &&& (post.state == pre.state)
        &&& (post.leader_state == pre.leader_state)
        &&& (post.candidate_state == pre.candidate_state)
        &&& (post.follower_state == pre.follower_state)
        &&& (post.lid == pre.lid)
        &&& (pre.transaction.is_active && pre.transaction.session == Some(session)
                ==> !post.transaction.is_active)
        &&& (!(pre.transaction.is_active && pre.transaction.session == Some(
                session,
            )) ==> post.transaction == pre.transaction)
    }

    /// How a mirrored transaction rollback relates `post` to `pre`; `ok` is
    /// whether the handler returned Ok.
    pub open spec fn transaction_rollback_post(
        pre: Self,
        post: Self,
        from: ServerId,
        session: TransactionId,
        a0: Actions,
        a1: Actions,
        ok: bool,
    ) -> bool {
        &&& (post.wf())
        &&& (a1 == a0)
        &&& (post.id == pre.id)
        &&& (post.peers == pre.peers)
        &&& (post.state == pre.state)
        &&& (post.candidate_state == pre.candidate_state)
        &&& (post.lid == pre.lid)
        &&& (post.log.stored_term() == pre.log.stored_term())
        &&& (post.log.stored_vote() == pre.log.stored_vote())
        &&& (!post.transaction.is_active)
        &&& (!pre.transaction.is_active ==> ok && post == pre)
        &&& (pre.transaction.is_active ==> {
                &&& post.commit_index == pre.transaction.saved_commit_index
                &&& post.last_applied == pre.transaction.saved_last_applied
                &&& post.follower_state.min_index == (match pre.transaction.saved_follower_min_index {
                    Some(m) => m,
                    None => pre.follower_state.min_index,
                })
                &&& (ok ==> post.log.contents() == pre.log.contents().take(
                    pre.transaction.saved_commit_index as int,
                ) && pre.state_machine.applied() == post.state_machine.applied()
                    + crate::log::applied_commands(
                    pre.log.contents(),
                    pre.transaction.saved_commit_index as int,
                    pre.log.contents().len() as int,
                ))
                &&& (!ok ==> crate::log::applied_commands(
                    pre.log.contents(),
                    pre.transaction.saved_commit_index as int,
                    pre.log.contents().len() as int,
                ).len() > 0)
            })
        // Transaction atomicity, mirrored on a non-leader.
        &&& ((ok && pre.transaction.is_active && pre.txn_coherent() && pre.last_applied as nat
            == pre.log.contents().len() && pre.transaction.saved_commit_index
            == pre.transaction.saved_last_applied) ==> post.state_machine.applied()
            == pre.transaction.saved_applied@)
    }

    /// How one client proposal relates `post` and the actions gained in
    /// `a1` to `pre` and `a0`; `ok` is whether the handler returned Ok.
    pub open spec fn proposal_request_post(
        pre: Self,
        post: Self,
        from: ClientId,
        entry_bytes: Seq<u8>,
        a0: Actions,
        a1: Actions,
        ok: bool,
    ) -> bool {
        &&& (post.wf())
        &&& (post.id == pre.id)
        &&& (post.peers == pre.peers)
        &&& (post.lid == pre.lid)
        &&& (post.state == pre.state)
        &&& (post.log.stored_term() == pre.log.stored_term())
        &&& (post.log.stored_vote() == pre.log.stored_vote())
        &&& (post.candidate_state == pre.candidate_state)
        &&& (post.follower_state == pre.follower_state)
        &&& (post.transaction == pre.transaction)
        &&& (pre.state is Candidate || (pre.state is Follower && (pre.follower_state.leader is None || !pre.has_peer(
                pre.follower_state.leader->0,
            ))) ==> ok && post == pre && Actions::delta(
                a0,
                a1,
                Seq::empty(),
                seq![
                    (from, CommandResponseView::UnknownLeader { log_id: pre.lid }),
                ],
                Seq::empty(),
                Seq::empty(),
                false,
                Seq::empty(),
                Seq::empty(),
            ))
        &&& (pre.state is Follower && (pre.follower_state.leader matches Some(l)
                && pre.has_peer(l)) ==> ok && post == pre
                && Actions::delta(
                a0,
                a1,
                Seq::empty(),
                seq![
                    (
                        from,
                        CommandResponseView::NotLeader {
                            log_id: pre.lid,
                            leader_addr: pre.addr_of(
                                pre.follower_state.leader->0,
                            ),
                        },
                    ),
                ],
                Seq::empty(),
                Seq::empty(),
                false,
                Seq::empty(),
                Seq::empty(),
            ))
        &&& (pre.state is Leader ==> {
                let idx = (pre.log.contents().len() + 1) as LogIndex;
                &&& post.log.contents() == pre.log.contents().push(
                    (pre.log.stored_term(), entry_bytes),
                )
                &&& pre.peer_ids().len() > 0 ==> {
                    &&& ok
                    &&& post.commit_index == pre.commit_index
                    &&& post.last_applied == pre.last_applied
                    &&& post.state_machine == pre.state_machine
                    &&& post.leader_state.proposals@ == pre.leader_state.proposals@.push((from, idx))
                    &&& forall|i: int|
                        0 <= i < post.leader_state.progress@.len()
                            ==> #[trigger] post.leader_state.progress@[i]
                            == (crate::state::PeerProgress {
                            peer: pre.leader_state.progress@[i].peer,
                            next_index: if pre.leader_state.progress@[i].next_index
                                == idx {
                                (idx + 1) as LogIndex
                            } else {
                                pre.leader_state.progress@[i].next_index
                            },
                            match_index: pre.leader_state.progress@[i].match_index,
                        })
                    &&& Actions::delta(
                        a0,
                        a1,
                        pre.peer_ids().filter(
                            |p: ServerId| pre.leader_state.spec_next_index(p) == idx,
                        ).map_values(
                            |p: ServerId| (p, pre.proposal_send_view(entry_bytes)),
                        ),
                        Seq::empty(),
                        Seq::empty(),
                        Seq::empty(),
                        false,
                        Seq::empty(),
                        Seq::empty(),
                    )
                }
                &&& pre.peer_ids().len() == 0 ==> {
                    &&& post.leader_state.progress@ == pre.leader_state.progress@
                    &&& pre.txn_coherent() ==> post.txn_coherent()
                    &&& (!ok ==> post.last_applied < post.commit_index)
                    &&& (ok ==> {
                        let props1 = pre.leader_state.proposals@.push((from, idx));
                        let k = acked_prefix(props1, post.commit_index);
                        &&& post.commit_index == idx
                        &&& post.last_applied == idx
                        &&& post.leader_state.proposals@ == props1.skip(k)
                        &&& acks_ok(
                            props1,
                            k,
                            client_msgs_view(a0.client_messages@),
                            client_msgs_view(a1.client_messages@),
                            pre.lid,
                            Self::ack_data(
                                pre.state_machine.applied(),
                                pre.log.contents().push(
                                    (pre.log.stored_term(), entry_bytes),
                                ),
                                pre.last_applied as int,
                                post.commit_index as int,
                            ),
                        )
                    })
                }
            })
    }

    /// How one client query relates `post` and the actions gained in `a1`
    /// to `pre` and `a0`; `ok` is whether the handler returned Ok.
    pub open spec fn query_request_post(
        pre: Self,
        post: Self,
        from: ClientId,
        query_bytes: Seq<u8>,
        a0: Actions,
        a1: Actions,
        ok: bool,
    ) -> bool {
        &&& (post.wf())
        &&& (post == pre)
        &&& (pre.state is Candidate || (pre.state is Follower && pre.follower_state.leader is None) ==> ok && Actions::delta(
                a0,
                a1,
                Seq::empty(),
                seq![
                    (from, CommandResponseView::UnknownLeader { log_id: pre.lid }),
                ],
                Seq::empty(),
                Seq::empty(),
                false,
                Seq::empty(),
                Seq::empty(),
            ))
        &&& (!(pre.state is Candidate || (pre.state is Follower && pre.follower_state.leader is None)) ==> {
                &&& ok ==> Actions::delta(
                    a0,
                    a1,
                    Seq::empty(),
                    seq![
                        (
                            from,
                            CommandResponseView::Success {
                                log_id: pre.lid,
                                data: M::query_of(
                                    pre.state_machine.applied(),
                                    query_bytes,
                                ),
                            },
                        ),
                    ],
                    Seq::empty(),
                    Seq::empty(),
                    false,
                    Seq::empty(),
                    Seq::empty(),
                )
                &&& !ok ==> a1 == a0
            })
    }

    /// How a client's transaction begin relates `post` and the actions
    /// gained in `a1` to `pre` and `a0`.
    pub open spec fn client_transaction_begin_post(
        pre: Self,
        post: Self,
        from: ClientId,
        session: TransactionId,
        a0: Actions,
        a1: Actions,
        ok: bool,
    ) -> bool {
        &&& (post.wf())
        &&& (post.id == pre.id)
        &&& (post.peers == pre.peers)
        &&& (post.log == pre.log)
        &&& (post.state_machine == pre.state_machine)
        &&& (post.commit_index == pre.commit_index)
        &&& (post.last_applied == pre.last_applied)
        &&& (post.state == pre.state)
        &&& (post.leader_state == pre.leader_state)
        &&& (post.candidate_state == pre.candidate_state)
        &&& (post.follower_state == pre.follower_state)
        &&& (post.lid == pre.lid)
        &&& (pre.txn_coherent() ==> post.txn_coherent())
        &&& (pre.state is Leader && !pre.transaction.is_active ==> {
                &&& post.transaction == (TransactionManager {
                    is_active: true,
                    session: Some(session),
                    saved_commit_index: pre.commit_index,
                    saved_last_applied: pre.last_applied,
                    saved_follower_min_index: None,
                    inflight_count: 0,
                    saved_applied: Ghost(pre.state_machine.applied()),
                })
                &&& post.txn_coherent()
                &&& Actions::delta(
                    a0,
                    a1,
                    Seq::empty(),
                    seq![
                        (
                            from,
                            CommandResponseView::TransactionSuccess {
                                log_id: pre.lid,
                                data: crate::session_bytes_spec(session),
                            },
                        ),
                    ],
                    Seq::empty(),
                    Seq::empty(),
                    false,
                    Seq::empty(),
                    seq![
                        PeerMessageView::TransactionBegin {
                            log_id: pre.lid,
                            session,
                        },
                    ],
                )
            })
        &&& (pre.state is Leader && pre.transaction.is_active ==> post.transaction == pre.transaction && Actions::delta(
                a0,
                a1,
                Seq::empty(),
                seq![
                    (
                        from,
                        CommandResponseView::TransactionFailure {
                            log_id: pre.lid,
                            kind: TransactionError::NotActive,
                        },
                    ),
                ],
                Seq::empty(),
                Seq::empty(),
                false,
                Seq::empty(),
                Seq::empty(),
            ))
        &&& (!(pre.state is Leader) ==> post.transaction == pre.transaction
                && Self::referral(&pre, a0, a1, from))
    }

    /// How a client's transaction commit relates `post` and the actions
    /// gained in `a1` to `pre` and `a0`.
    pub open spec fn client_transaction_commit_post(
        pre: Self,
        post: Self,
        from: ClientId,
        a0: Actions,
        a1: Actions,
        ok: bool,
    ) -> bool {
        &&& (post.wf())
        &&& (pre.txn_coherent() ==> post.txn_coherent())
        &&& (post.id == pre.id)
        &&& (post.peers == pre.peers)
        &&& (post.log == pre.log)
        &&& (post.state_machine == pre.state_machine)
        &&& (post.commit_index == pre.commit_index)
        &&& (post.last_applied == pre.last_applied)
        &&& (post.state == pre.state)
        &&& (post.leader_state == pre.leader_state)
        &&& (post.candidate_state == pre.candidate_state)
        &&& (post.follower_state == pre.follower_state)
        &&& (post.lid == pre.lid)
        &&& (pre.state is Leader && pre.transaction.is_active ==> !post.transaction.is_active && Actions::delta(
                a0,
                a1,
                Seq::empty(),
                seq![
                    (
                        from,
                        CommandResponseView::TransactionSuccess {
                            log_id: pre.lid,
                            data: Seq::empty(),
                        },
                    ),
                ],
                Seq::empty(),
                Seq::empty(),
                false,
                Seq::empty(),
                seq![
                    PeerMessageView::TransactionCommit {
                        log_id: pre.lid,
                        session: pre.transaction.session->0,
                    },
                ],
            ))
        &&& (pre.state is Leader && !pre.transaction.is_active ==> post.transaction == pre.transaction && Actions::delta(
                a0,
                a1,
                Seq::empty(),
                seq![
                    (
                        from,
                        CommandResponseView::TransactionFailure {
                            log_id: pre.lid,
                            kind: TransactionError::AlreadyActive,
                        },
                    ),
                ],
                Seq::empty(),
                Seq::empty(),
                false,
                Seq::empty(),
                Seq::empty(),
            ))
        &&& (!(pre.state is Leader) ==> post.transaction == pre.transaction
                && Self::referral(&pre, a0, a1, from))
    }

    /// How a client's transaction rollback relates `post` and the actions
    /// gained in `a1` to `pre` and `a0`; `ok` is whether the handler
    /// returned Ok. On success the machine is back at its state from the
    /// transaction's begin whenever log and machine were in step.
    pub open spec fn client_transaction_rollback_post(
        pre: Self,
        post: Self,
        from: ClientId,
        a0: Actions,
        a1: Actions,
        ok: bool,
    ) -> bool {
        &&& (post.wf())
        &&& (post.id == pre.id)
        &&& (post.peers == pre.peers)
        &&& (post.state == pre.state)
        &&& (post.candidate_state == pre.candidate_state)
        &&& (post.lid == pre.lid)
        &&& (post.log.stored_term() == pre.log.stored_term())
        &&& (post.log.stored_vote() == pre.log.stored_vote())
        &&& (!(pre.state is Leader && pre.transaction.is_active) ==> ok
                && post.transaction == pre.transaction && post.log == pre.log && post.state_machine == pre.state_machine && post.commit_index == pre.commit_index && post.last_applied == pre.last_applied && post.leader_state == pre.leader_state && post.follower_state == pre.follower_state)
        &&& (pre.state is Leader && !pre.transaction.is_active ==> Actions::delta(
                a0,
                a1,
                Seq::empty(),
                seq![
                    (
                        from,
                        CommandResponseView::TransactionFailure {
                            log_id: pre.lid,
                            kind: TransactionError::AlreadyActive,
                        },
                    ),
                ],
                Seq::empty(),
                Seq::empty(),
                false,
                Seq::empty(),
                Seq::empty(),
            ))
        &&& (!(pre.state is Leader) ==> Self::referral(
                &pre,
                a0,
                a1,
                from,
            ))
        &&& (pre.state is Leader && pre.transaction.is_active ==> {
                &&& !post.transaction.is_active
                &&& post.commit_index == pre.transaction.saved_commit_index
                &&& post.last_applied == pre.transaction.saved_last_applied
                &&& (ok ==> post.log.contents() == pre.log.contents().take(
                    pre.transaction.saved_commit_index as int,
                ) && pre.state_machine.applied() == post.state_machine.applied()
                    + crate::log::applied_commands(
                    pre.log.contents(),
                    pre.transaction.saved_commit_index as int,
                    pre.log.contents().len() as int,
                ) && forall|i: int|
                    0 <= i < post.leader_state.progress@.len()
                        ==> #[trigger] post.leader_state.progress@[i].next_index == pre.transaction.saved_commit_index + 1)
                &&& (ok ==> Actions::delta(
                    a0,
                    a1,
                    Seq::empty(),
                    seq![
                        (
                            from,
                            CommandResponseView::TransactionSuccess {
                                log_id: pre.lid,
                                data: Seq::empty(),
                            },
                        ),
                    ],
                    Seq::empty(),
                    Seq::empty(),
                    false,
                    Seq::empty(),
                    seq![
                        PeerMessageView::TransactionRollback {
                            log_id: pre.lid,
                            session: pre.transaction.session->0,
                        },
                    ],
                ))
                &&& (!ok ==> crate::log::applied_commands(
                    pre.log.contents(),
                    pre.transaction.saved_commit_index as int,
                    pre.log.contents().len() as int,
                ).len() > 0)
            })
        &&& ((ok && pre.state is Leader && pre.transaction.is_active && pre.txn_coherent() && pre.last_applied as nat == pre.log.contents().len() && pre.transaction.saved_commit_index == pre.transaction.saved_last_applied) ==> post.state_machine.applied() == pre.transaction.saved_applied@)
    }

    /// How one peer message relates `post` and the actions gained in `a1`
    /// to `pre` and `a0`: the contract of the variant's handler.
    pub open spec fn apply_peer_post(
        pre: Self,
        post: Self,
        from: ServerId,
        message: PeerMessage,
        a0: Actions,
        a1: Actions,
        ok: bool,
    ) -> bool {
        &&& post.wf()
        &&& post.id == pre.id
        &&& post.peers == pre.peers
        &&& post.lid == pre.lid
        &&& pre.log.stored_term() <= post.log.stored_term()
        &&& (message matches PeerMessage::AppendEntriesRequest(req)
            ==> Self::append_entries_request_post(pre, post, from, req, a0, a1, ok))
        &&& (message matches PeerMessage::AppendEntriesResponse(resp)
            ==> Self::append_entries_response_post(pre, post, from, resp, a0, a1, ok))
        &&& (message matches PeerMessage::RequestVoteRequest(req)
            ==> Self::request_vote_request_post(pre, post, from, req, a0, a1, true))
        &&& (message matches PeerMessage::RequestVoteResponse(resp)
            ==> Self::request_vote_response_post(pre, post, from, resp, a0, a1, ok))
        &&& (message matches PeerMessage::TransactionBegin { session, .. }
            ==> Self::transaction_begin_post(pre, post, from, session, a0, a1, true))
        &&& (message matches PeerMessage::TransactionCommit { session, .. }
            ==> Self::transaction_commit_post(pre, post, from, session, a0, a1, true))
        &&& (message matches PeerMessage::TransactionRollback { session, .. }
            ==> Self::transaction_rollback_post(pre, post, from, session, a0, a1, ok))
    }

    /// How one client request relates `post` and the actions gained in `a1`
    /// to `pre` and `a0`: while a transaction is active, proposals under a
    /// different session and all queries are parked in the transaction
    /// queue; everything else follows the contract of its handler.
    pub open spec fn apply_client_post(
        pre: Self,
        post: Self,
        from: ClientId,
        message: ClientRequest,
        a0: Actions,
        a1: Actions,
        ok: bool,
    ) -> bool {
        &&& post.wf()
        &&& post.id == pre.id
        &&& post.peers == pre.peers
        &&& post.lid == pre.lid
        &&& post.state == pre.state
        &&& post.log.stored_term() == pre.log.stored_term()
        &&& (message@.which is Proposal ==> (if pre.state is Leader
            && pre.transaction.is_active && pre.transaction.session != Some(
            message@.which->Proposal_session,
        ) {
            Self::parked_post(pre, post, from, message, a0, a1, ok, true)
        } else {
            Self::proposal_request_post(
                pre,
                post,
                from,
                message@.which->Proposal_entry,
                a0,
                a1,
                ok,
            )
        }))
        &&& (message@.which is Query ==> (if pre.transaction.is_active {
            Self::parked_post(pre, post, from, message, a0, a1, ok, false)
        } else {
            Self::query_request_post(pre, post, from, message@.which->Query_query, a0, a1, ok)
        }))
        &&& (message@.which is TransactionBegin ==> Self::client_transaction_begin_post(
            pre,
            post,
            from,
            message@.which->TransactionBegin_session,
            a0,
            a1,
            true,
        ))
        &&& (message@.which is TransactionCommit ==> Self::client_transaction_commit_post(
            pre,
            post,
            from,
            a0,
            a1,
            true,
        ))
        &&& (message@.which is TransactionRollback ==> Self::client_transaction_rollback_post(
            pre,
            post,
            from,
            a0,
            a1,
            ok,
        ))
    }

    /// A request parked behind the active transaction: nothing is served,
    /// the request joins the transaction queue, and — for a proposal — the
    /// advisory inflight counter ticks up.
    pub open spec fn parked_post(
        pre: Self,
        post: Self,
        from: ClientId,
        message: ClientRequest,
        a0: Actions,
        a1: Actions,
        ok: bool,
        counted: bool,
    ) -> bool {
        &&& ok
        &&& post.log == pre.log
        &&& post.state_machine == pre.state_machine
        &&& post.leader_state == pre.leader_state
        &&& post.candidate_state == pre.candidate_state
        &&& post.follower_state == pre.follower_state
        &&& post.commit_index == pre.commit_index
        &&& post.last_applied == pre.last_applied
        &&& post.transaction.is_active
        &&& post.transaction.session == pre.transaction.session
        &&& post.transaction.saved_commit_index == pre.transaction.saved_commit_index
        &&& post.transaction.saved_last_applied == pre.transaction.saved_last_applied
        &&& post.transaction.saved_follower_min_index
            == pre.transaction.saved_follower_min_index
        &&& post.transaction.saved_applied == pre.transaction.saved_applied
        &&& post.transaction.inflight_count == (if counted {
            if pre.transaction.inflight_count < u64::MAX {
                pre.transaction.inflight_count + 1
            } else {
                pre.transaction.inflight_count as int
            }
        } else {
            pre.transaction.inflight_count as int
        })
        &&& Actions::delta(
            a0,
            a1,
            Seq::empty(),
            Seq::empty(),
            Seq::empty(),
            Seq::empty(),
            false,
            seq![
                (
                    pre.lid,
                    from,
                    crate::messages::ClientRequestView {
                        log_id: pre.lid,
                        which: message@.which,
                    },
                ),
            ],
            Seq::empty(),
        )
    }

    /// Applies one peer message: each variant goes to its handler, whose
    /// contract pins the outcome; across all of them the current term never
    /// decreases.
    pub fn apply_peer_message(
        &mut self,
        from: ServerId,
        message: PeerMessage,
        actions: &mut Actions,
    ) -> (r: Result<(), StateMachineError>)
        requires
            old(self).wf(),
            old(self).log.contents().len() < u64::MAX,
            message matches PeerMessage::AppendEntriesRequest(req) ==> req.prev_log_index
                + req.entries@.len() < u64::MAX,
        ensures
            Self::apply_peer_post(*old(self), *final(self), from, message, *old(actions), *final(actions), r is Ok),
    {
        match message {
            PeerMessage::AppendEntriesRequest(request) => {
                self.append_entries_request(from, request, actions)
            },
            PeerMessage::AppendEntriesResponse(response) => {
                self.append_entries_response(from, response, actions)
            },
            PeerMessage::RequestVoteRequest(request) => {
                self.request_vote_request(from, request, actions);
                Ok(())
            },
            PeerMessage::RequestVoteResponse(response) => {
                self.request_vote_response(from, response, actions)
            },
            PeerMessage::TransactionBegin { session, .. } => {
                self.transaction_begin(from, session, actions);
                Ok(())
            },
            PeerMessage::TransactionCommit { session, .. } => {
                self.transaction_commit(from, session, actions);
                Ok(())
            },
            PeerMessage::TransactionRollback { session, .. } => {
                self.transaction_rollback(from, session, actions)
            },
        }
    }

    /// Applies one client request. While a transaction is active, proposals
    /// under a different session and all queries are parked in the
    /// transaction queue instead of being served; everything else goes to its
    /// handler, whose contract pins the outcome.
    pub fn apply_client_message(
        &mut self,
        from: ClientId,
        message: ClientRequest,
        actions: &mut Actions,
    ) -> (r: Result<(), StateMachineError>)
        requires
            old(self).wf(),
            old(self).log.contents().len() + 2 <= u64::MAX,
        ensures
            Self::apply_client_post(*old(self), *final(self), from, message, *old(actions), *final(actions), r is Ok),
    {
        match message.which {
            ClientRequestKind::Proposal { session, entry } => {
                if self.is_leader() && self.transaction.is_active && !self.transaction.compare(
                    session,
                ) {
                    let queued = ClientRequest {
                        log_id: self.lid,
                        which: ClientRequestKind::Proposal { session, entry },
                    };
                    actions.push_transaction_queue(self.lid, from, queued);
                    self.transaction.count_up();
                    Ok(())
                } else {
                    self.proposal_request(from, entry, actions)
                }
            },
            ClientRequestKind::Query { query } => {
                if self.transaction.is_active {
                    let queued = ClientRequest {
                        log_id: self.lid,
                        which: ClientRequestKind::Query { query },
                    };
                    actions.push_transaction_queue(self.lid, from, queued);
                    Ok(())
                } else {
                    self.query_request(from, query, actions)
                }
            },
            ClientRequestKind::TransactionBegin { session } => {
                self.client_transaction_begin(from, session, actions);
                Ok(())
            },
            ClientRequestKind::TransactionCommit => {
                self.client_transaction_commit(from, actions);
                Ok(())
            },
            ClientRequestKind::TransactionRollback => {
                self.client_transaction_rollback(from, actions)
            },
        }
    }

    /// How one timeout relates `post` and the actions gained in `a1` to
    /// `pre` and `a0`: a heartbeat timeout pings its peer, an election
    /// timeout starts an election or crowns a solitary replica.
    pub open spec fn apply_timeout_post(
        pre: Self,
        post: Self,
        timeout: ConsensusTimeout,
        a0: Actions,
        a1: Actions,
        ok: bool,
    ) -> bool {
        &&& (post.wf())
        &&& (post.id == pre.id)
        &&& (post.peers == pre.peers)
        &&& (post.lid == pre.lid)
        &&& (ok)
        &&& (timeout matches ConsensusTimeout::Heartbeat(peer, _) ==> post == pre
                && Actions::delta(
                a0,
                a1,
                seq![(peer, pre.heartbeat_view())],
                Seq::empty(),
                Seq::empty(),
                Seq::empty(),
                false,
                Seq::empty(),
                Seq::empty(),
            ))
        &&& (timeout is Election ==> {
                &&& Self::core_unchanged(&pre, &post)
                &&& post.log.stored_term() == pre.log.stored_term() + 1
                &&& post.log.stored_vote() == Some(pre.id)
                &&& (pre.peer_ids().len() == 0 ==> post.state is Leader
                    && post.leader_state.ids() == pre.leader_state.ids()
                    && post.leader_state.proposals@ == Seq::<(ClientId, LogIndex)>::empty()
                    && (forall|i: int|
                    0 <= i < post.leader_state.progress@.len()
                        ==> #[trigger] post.leader_state.progress@[i]
                        == (crate::state::PeerProgress {
                        peer: pre.leader_state.progress@[i].peer,
                        next_index: (pre.log.contents().len() + 1) as LogIndex,
                        match_index: 0,
                    })) && Actions::unchanged(a0, a1))
                &&& (pre.peer_ids().len() > 0 ==> post.state is Candidate
                    && Actions::delta(
                    a0,
                    a1,
                    Seq::new(
                        pre.peer_ids().len(),
                        |k: int| (pre.peer_ids()[k], post.vote_request_view()),
                    ),
                    Seq::empty(),
                    Seq::empty(),
                    seq![ConsensusTimeout::Election(pre.lid)],
                    true,
                    Seq::empty(),
                    Seq::empty(),
                ))
            })
    }

    /// Whether `timeout` still fits this instance's role: an election
    /// timeout is for a non-leader (and, when solitary, a follower that has
    /// not voted), a heartbeat timeout for the leader.
    pub open spec fn timeout_fits(&self, timeout: ConsensusTimeout) -> bool {
        match timeout {
            ConsensusTimeout::Election(..) => !(self.state is Leader) && (self.peer_ids().len()
                > 0 || (self.state is Follower && self.log.stored_vote() is None)),
            ConsensusTimeout::Heartbeat(..) => self.state is Leader,
        }
    }

    /// Applies a timeout: an election timeout starts an election (or crowns a
    /// solitary replica), a heartbeat timeout pings the peer it names.
    pub fn apply_timeout(&mut self, timeout: ConsensusTimeout, actions: &mut Actions) -> (r:
        Result<(), StateMachineError>)
        requires
            old(self).wf(),
            old(self).log.contents().len() < u64::MAX,
            timeout is Election ==> !(old(self).state is Leader) && old(self).log.stored_term() < u64::MAX && (old(self).peer_ids().len() == 0 ==> old(self).state is Follower && old(self).log.stored_vote() is None),
            timeout is Heartbeat ==> old(self).state is Leader,
        ensures
            Self::apply_timeout_post(*old(self), *final(self), timeout, *old(actions), *final(actions), r is Ok),
    {
        match timeout {
            ConsensusTimeout::Election(..) => {
                self.election_timeout(actions);
            },
            ConsensusTimeout::Heartbeat(peer, ..) => {
                self.heartbeat_timeout(peer, actions);
            },
        }
        Ok(())
    }

    /// When no transaction is active, takes the most recently parked request
    /// out of the queue and serves it through the normal client path.
    pub fn handle_queue(
        &mut self,
        requests_in_queue: &mut Vec<(ClientId, ClientRequest)>,
        actions: &mut Actions,
    ) -> (r: Result<(), StateMachineError>)
        requires
            old(self).wf(),
            old(self).log.contents().len() + 2 <= u64::MAX,
        ensures
            final(self).wf(),
            old(self).transaction.is_active ==> r is Ok && *final(self) == *old(self) && *final(requests_in_queue) == *old(requests_in_queue) && *final(actions) == *old(actions),
            !old(self).transaction.is_active && old(requests_in_queue)@.len() == 0 ==> r is Ok
                && *final(self) == *old(self) && final(requests_in_queue)@ == old(requests_in_queue)@
                && *final(actions) == *old(actions),
            !old(self).transaction.is_active && old(requests_in_queue)@.len() > 0 ==> final(requests_in_queue)@ == old(requests_in_queue)@.drop_last()
                && Self::apply_client_post(
                *old(self),
                *final(self),
                old(requests_in_queue)@.last().0,
                old(requests_in_queue)@.last().1,
                *old(actions),
                *final(actions),
                r is Ok,
            ),
    {
        if !self.transaction.is_active {
            match requests_in_queue.pop() {
                Some((client, request)) => {
                    self.apply_client_message(client, request, actions)?;
                },
                None => {},
            }
        }
        Ok(())
    }

    /// A new connection to `peer` exists and in-flight messages may be lost:
    /// a leader retransmits everything the peer might miss, a candidate
    /// re-solicits the peer's vote, a follower stays quiet. The peer's
    /// address is refreshed.
    pub fn peer_connection_reset(
        &mut self,
        peer: ServerId,
        addr: PeerAddr,
        actions: &mut Actions,
    )
        requires
            old(self).wf(),
            old(self).has_peer(peer),
            old(self).log.contents().len() < u64::MAX,
        ensures
            final(self).wf(),
            final(self).id == old(self).id,
            final(self).lid == old(self).lid,
            final(self).log == old(self).log,
            final(self).state_machine == old(self).state_machine,
            final(self).commit_index == old(self).commit_index,
            final(self).last_applied == old(self).last_applied,
            final(self).state == old(self).state,
            final(self).candidate_state == old(self).candidate_state,
            final(self).follower_state == old(self).follower_state,
            final(self).transaction == old(self).transaction,
            final(self).peers@.len() == old(self).peers@.len(),
            forall|i: int|
                0 <= i < final(self).peers@.len() ==> #[trigger] final(self).peers@[i] == (
                old(self).peers@[i].0,
                if old(self).peers@[i].0 == peer {
                    addr
                } else {
                    old(self).peers@[i].1
                },
            ),
            old(self).state is Leader ==> {
                let nxt = old(self).leader_state.spec_next_index(peer);
                &&& final(self).leader_state.proposals == old(self).leader_state.proposals
                &&& forall|i: int|
                    0 <= i < final(self).leader_state.progress@.len()
                        ==> #[trigger] final(self).leader_state.progress@[i]
                        == (crate::state::PeerProgress {
                        peer: old(self).leader_state.progress@[i].peer,
                        next_index: if old(self).leader_state.progress@[i].peer == peer {
                            (old(self).log.contents().len() + 1) as LogIndex
                        } else {
                            old(self).leader_state.progress@[i].next_index
                        },
                        match_index: old(self).leader_state.progress@[i].match_index,
                    })
                &&& Actions::delta(
                    *old(actions),
                    *final(actions),
                    seq![(peer, old(self).backfill_view(nxt))],
                    Seq::empty(),
                    Seq::empty(),
                    Seq::empty(),
                    false,
                    Seq::empty(),
                    Seq::empty(),
                )
            },
            old(self).state is Candidate ==> {
                &&& final(self).leader_state == old(self).leader_state
                &&& (old(self).candidate_state.has_vote(peer) ==> *final(actions) == *old(actions))
                &&& (!old(self).candidate_state.has_vote(peer) ==> Actions::delta(
                    *old(actions),
                    *final(actions),
                    seq![(peer, old(self).vote_request_view())],
                    Seq::empty(),
                    Seq::empty(),
                    Seq::empty(),
                    false,
                    Seq::empty(),
                    Seq::empty(),
                ))
            },
            old(self).state is Follower ==> final(self).leader_state == old(self).leader_state
                && *final(actions) == *old(actions),
    {
        let ghost pre = *old(self);
        let n = self.peers.len();
        let mut i: usize = 0;
        while i < n
            invariant
                pre == *old(self),
                pre.wf(),
                pre.has_peer(peer),
                pre.log.contents().len() < u64::MAX,
                self.id == pre.id,
                self.log == pre.log,
                self.state_machine == pre.state_machine,
                self.commit_index == pre.commit_index,
                self.last_applied == pre.last_applied,
                self.state == pre.state,
                self.leader_state == pre.leader_state,
                self.candidate_state == pre.candidate_state,
                self.follower_state == pre.follower_state,
                self.transaction == pre.transaction,
                self.lid == pre.lid,
                0 <= i <= n,
                n == self.peers@.len(),
                forall|j: int|
                    i <= j < n ==> #[trigger] self.peers@[j] == old(self).peers@[j],
                forall|j: int|
                    0 <= j < i ==> #[trigger] self.peers@[j] == (
                    old(self).peers@[j].0,
                    if old(self).peers@[j].0 == peer {
                        addr
                    } else {
                        old(self).peers@[j].1
                    },
                ),
            decreases n - i,
        {
            if self.peers[i].0 == peer {
                let id = self.peers[i].0;
                self.peers.set(i, (id, addr));
            }
            i = i + 1;
        }
        proof {
            assert(self.peer_ids() =~= pre.peer_ids());
        }
        if self.is_leader() {
            proof {
                assert(self.leader_state.has_peer(peer));
                assert(self.leader_state.ids_unique());
            }
            let from_index = self.leader_state.next_index(peer);
            proof {
                let k = choose|k: int|
                    0 <= k < pre.leader_state.progress@.len()
                        && pre.leader_state.progress@[k].peer == peer;
                assert(pre.leader_state.ids()[k] == peer);
                assert(from_index == pre.leader_state.progress@[k].next_index);
                assert(from_index == pre.leader_state.spec_next_index(peer));
            }
            let until_index = self.log.latest_log_index() + 1;
            let prev_log_index = from_index - 1;
            let prev_log_term = if prev_log_index == 0 {
                0
            } else {
                self.log.entry(prev_log_index).0
            };
            let entries = self.log.entries(from_index, until_index);
            let message = PeerMessage::AppendEntriesRequest(
                AppendEntriesRequest {
                    log_id: self.lid,
                    term: self.log.current_term(),
                    prev_log_index,
                    prev_log_term,
                    entries,
                    leader_commit: self.commit_index,
                },
            );
            proof {
                assert(message@ == pre.backfill_view(from_index));
            }
            self.leader_state.set_next_index(peer, until_index);
            proof {
                assert(self.leader_state.ids() =~= pre.leader_state.ids());
            }
            actions.push_peer_message(peer, message);
        } else if self.is_candidate() {
            if !self.candidate_state.peer_voted(peer) {
                let request = RequestVoteRequest {
                    log_id: self.lid,
                    term: self.log.current_term(),
                    last_log_index: self.log.latest_log_index(),
                    last_log_term: self.log.latest_log_term(),
                };
                proof {
                    assert(PeerMessage::RequestVoteRequest(request)@ == pre.vote_request_view());
                }
                actions.push_peer_message(peer, PeerMessage::RequestVoteRequest(request));
            }
        } else {
            // A follower stays quiet; a leader or candidate will reach out.
        }
    }

    /// Adds a new peer to the group; the peer must not be known yet.
    pub fn add_peer(&mut self, peer_id: ServerId, peer_addr: PeerAddr)
        requires
            old(self).wf(),
            !old(self).has_peer(peer_id),
            old(self).peers@.len() + 1 < usize::MAX,
            old(self).log.contents().len() < u64::MAX,
        ensures
            final(self).wf(),
            final(self).peers@ == old(self).peers@.push((peer_id, peer_addr)),
            final(self).leader_state.progress@ == old(self).leader_state.progress@.push(
                crate::state::PeerProgress {
                    peer: peer_id,
                    next_index: (old(self).log.contents().len() + 1) as LogIndex,
                    match_index: 0,
                },
            ),
            final(self).leader_state.proposals == old(self).leader_state.proposals,
            final(self).log == old(self).log,
            final(self).state_machine == old(self).state_machine,
            final(self).commit_index == old(self).commit_index,
            final(self).last_applied == old(self).last_applied,
            final(self).state == old(self).state,
            final(self).transaction == old(self).transaction,
            final(self).follower_state == old(self).follower_state,
            final(self).candidate_state == old(self).candidate_state,
    {
        let latest_log_index = self.log.latest_log_index();
        self.peers.push((peer_id, peer_addr));
        self.leader_state.add_peer(peer_id, latest_log_index + 1);
        proof {
            assert(final(self).peer_ids() =~= old(self).peer_ids().push(peer_id));
            assert(final(self).leader_state.ids() =~= old(self).leader_state.ids().push(
                peer_id,
            ));
        }
    }
}

} // verus!
