//! Role state of one consensus instance: the tag (`Follower`, `Candidate`,
//! `Leader`) and the bookkeeping that each role needs.

use vstd::prelude::*;

use crate::{ClientId, LogIndex, ServerId};

verus! {

/// The role a consensus instance currently plays.
#[derive(Clone, Copy, Debug, PartialEq, Eq, Structural)]
pub enum ConsensusState {
    Follower,
    Candidate,
    Leader,
}

/// Replication progress the leader tracks for one peer.
#[derive(Clone, Copy, Debug, PartialEq, Eq, Structural)]
pub struct PeerProgress {
    pub peer: ServerId,
    /// Index of the next entry to send to this peer; always at least 1.
    pub next_index: LogIndex,
    /// Highest index known to be replicated on this peer.
    pub match_index: LogIndex,
}

/// Number of elements of `s` whose `match_index` is at least `idx`.
pub open spec fn count_matching(s: Seq<PeerProgress>, idx: LogIndex) -> nat
    decreases s.len(),
{
    if s.len() == 0 {
        0
    } else {
        count_matching(s.drop_last(), idx) + if s.last().match_index >= idx {
            1nat
        } else {
            0nat
        }
    }
}

/// `count_matching` only reads the match indices: two progress lists that
/// agree on them count alike.
pub proof fn lemma_count_matching_same(s1: Seq<PeerProgress>, s2: Seq<PeerProgress>, idx: LogIndex)
    requires
        s1.len() == s2.len(),
        forall|i: int| 0 <= i < s1.len() ==> s1[i].match_index == s2[i].match_index,
    ensures
        count_matching(s1, idx) == count_matching(s2, idx),
    decreases s1.len(),
{
    if s1.len() > 0 {
        lemma_count_matching_same(s1.drop_last(), s2.drop_last(), idx);
    }
}

/// State the leader role needs: per-peer progress and the FIFO of in-flight
/// client proposals.
#[derive(Debug)]
pub struct LeaderState {
    pub progress: Vec<PeerProgress>,
    /// Client proposals not yet acknowledged, oldest first.
    pub proposals: Vec<(ClientId, LogIndex)>,
}

impl LeaderState {
    /// The peers tracked, in order.
    pub open spec fn ids(&self) -> Seq<ServerId> {
        self.progress@.map_values(|p: PeerProgress| p.peer)
    }

    pub open spec fn has_peer(&self, peer: ServerId) -> bool {
        self.ids().contains(peer)
    }

    /// Replicas (the tracked peers plus the leader itself) whose log is known
    /// to hold the entry at `idx`.
    pub open spec fn match_count(&self, idx: LogIndex) -> nat {
        1 + count_matching(self.progress@, idx)
    }

    /// Creates leader state for the given peers, each starting with
    /// `next_index` just past the latest log entry and nothing known matched.
    pub fn new(latest_log_index: LogIndex, peers: &Vec<ServerId>) -> (s: LeaderState)
        requires
            latest_log_index < u64::MAX,
        ensures
            s.ids() == peers@,
            forall|i: int|
                0 <= i < s.progress@.len() ==> #[trigger] s.progress@[i] == (PeerProgress {
                    peer: peers@[i],
                    next_index: (latest_log_index + 1) as LogIndex,
                    match_index: 0,
                }),
            s.proposals@ == Seq::<(ClientId, LogIndex)>::empty(),
    {
        let mut progress: Vec<PeerProgress> = Vec::new();
        let mut i: usize = 0;
        while i < peers.len()
            invariant
                0 <= i <= peers@.len(),
                latest_log_index < u64::MAX,
                progress@.len() == i,
                forall|j: int|
                    0 <= j < i ==> #[trigger] progress@[j] == (PeerProgress {
                        peer: peers@[j],
                        next_index: (latest_log_index + 1) as LogIndex,
                        match_index: 0,
                    }),
            decreases peers@.len() - i,
        {
            progress.push(
                PeerProgress {
                    peer: peers[i],
                    next_index: latest_log_index + 1,
                    match_index: 0,
                },
            );
            i = i + 1;
        }
        let s = LeaderState { progress, proposals: Vec::new() };
        proof {
            assert(s.ids() =~= peers@);
        }
        s
    }

    /// Resets every peer to `next_index` just past the latest log entry and
    /// `match_index` 0, and drops any stale proposals.
    pub fn reinitialize(&mut self, latest_log_index: LogIndex)
        requires
            latest_log_index < u64::MAX,
        ensures
            final(self).ids() == old(self).ids(),
            forall|i: int|
                0 <= i < final(self).progress@.len() ==> #[trigger] final(self).progress@[i]
                    == (PeerProgress {
                    peer: old(self).progress@[i].peer,
                    next_index: (latest_log_index + 1) as LogIndex,
                    match_index: 0,
                }),
            final(self).proposals@ == Seq::<(ClientId, LogIndex)>::empty(),
    {
        let n = self.progress.len();
        let mut i: usize = 0;
        while i < n
            invariant
                0 <= i <= n,
                n == self.progress@.len(),
                latest_log_index < u64::MAX,
                forall|j: int|
                    0 <= j < self.progress@.len() ==> #[trigger] self.progress@[j].peer == old(self).progress@[j].peer,
                forall|j: int|
                    0 <= j < i ==> #[trigger] self.progress@[j] == (PeerProgress {
                        peer: old(self).progress@[j].peer,
                        next_index: (latest_log_index + 1) as LogIndex,
                        match_index: 0,
                    }),
            decreases n - i,
        {
            let peer = self.progress[i].peer;
            self.progress.set(
                i,
                PeerProgress {
                    peer,
                    next_index: latest_log_index + 1,
                    match_index: 0,
                },
            );
            i = i + 1;
        }
        self.proposals.clear();
        proof {
            assert(final(self).ids() =~= old(self).ids());
        }
    }

    /// Starts tracking a new peer.
    pub fn add_peer(&mut self, peer: ServerId, next_index: LogIndex)
        ensures
            final(self).progress@ == old(self).progress@.push(
                PeerProgress { peer, next_index, match_index: 0 },
            ),
            final(self).proposals == old(self).proposals,
    {
        self.progress.push(PeerProgress { peer, next_index, match_index: 0 });
    }

    /// No two tracked entries are for the same peer.
    pub open spec fn ids_unique(&self) -> bool {
        forall|i: int, j: int|
            0 <= i < j < self.ids().len() ==> self.ids()[i] != self.ids()[j]
    }

    /// The next index tracked for `peer` (meaningful when `peer` is tracked
    /// and ids are unique).
    pub open spec fn spec_next_index(&self, peer: ServerId) -> LogIndex {
        let i = choose|i: int| 0 <= i < self.progress@.len() && self.progress@[i].peer == peer;
        self.progress@[i].next_index
    }

    /// With unique ids, `spec_next_index` of the `j`-th peer is the `j`-th
    /// tracked next index.
    pub proof fn lemma_spec_next_index_at(&self, j: int)
        requires
            self.ids_unique(),
            0 <= j < self.progress@.len(),
        ensures
            self.spec_next_index(self.ids()[j]) == self.progress@[j].next_index,
    {
        let peer = self.ids()[j];
        assert(self.progress@[j].peer == peer);
        let k = choose|k: int|
            0 <= k < self.progress@.len() && self.progress@[k].peer == peer;
        assert(self.ids()[k] == peer);
    }

    /// The next entry index to send to `peer`.
    pub fn next_index(&self, peer: ServerId) -> (r: LogIndex)
        requires
            self.has_peer(peer),
            self.ids_unique(),
        ensures
            forall|i: int|
                0 <= i < self.progress@.len() && #[trigger] self.progress@[i].peer == peer
                    ==> r == self.progress@[i].next_index,
    {
        let mut i: usize = 0;
        while i < self.progress.len()
            invariant
                0 <= i <= self.progress@.len(),
                self.ids_unique(),
                forall|j: int| 0 <= j < i ==> #[trigger] self.progress@[j].peer != peer,
            decreases self.progress@.len() - i,
        {
            if self.progress[i].peer == peer {
                let r = self.progress[i].next_index;
                proof {
                    assert forall|k: int|
                        0 <= k < self.progress@.len() && #[trigger] self.progress@[k].peer
                            == peer implies r == self.progress@[k].next_index by {
                        assert(self.ids()[k] == peer);
                        assert(self.ids()[i as int] == peer);
                    }
                }
                return r;
            }
            i = i + 1;
        }
        proof {
            let idx = choose|k: int| 0 <= k < self.ids().len() && self.ids()[k] == peer;
            assert(self.progress@[idx].peer == peer);
            assert(false);
        }
        unreached()
    }

    /// Sets the next index of `peer`, leaving everything else unchanged.
    pub fn set_next_index(&mut self, peer: ServerId, next_index: LogIndex)
        ensures
            final(self).progress@.len() == old(self).progress@.len(),
            forall|i: int|
                0 <= i < final(self).progress@.len() ==> #[trigger] final(self).progress@[i]
                    == (PeerProgress {
                    peer: old(self).progress@[i].peer,
                    next_index: if old(self).progress@[i].peer == peer {
                        next_index
                    } else {
                        old(self).progress@[i].next_index
                    },
                    match_index: old(self).progress@[i].match_index,
                }),
            final(self).proposals == old(self).proposals,
    {
        let n = self.progress.len();
        let mut i: usize = 0;
        while i < n
            invariant
                0 <= i <= n,
                n == self.progress@.len(),
                self.proposals == old(self).proposals,
                forall|j: int|
                    i <= j < n ==> #[trigger] self.progress@[j] == old(self).progress@[j],
                forall|j: int|
                    0 <= j < i ==> #[trigger] self.progress@[j] == (PeerProgress {
                        peer: old(self).progress@[j].peer,
                        next_index: if old(self).progress@[j].peer == peer {
                            next_index
                        } else {
                            old(self).progress@[j].next_index
                        },
                        match_index: old(self).progress@[j].match_index,
                    }),
            decreases n - i,
        {
            if self.progress[i].peer == peer {
                let match_index = self.progress[i].match_index;
                self.progress.set(i, PeerProgress { peer, next_index, match_index });
            }
            i = i + 1;
        }
    }

    /// Sets every peer's next index to `next_index`, leaving match indices
    /// and proposals unchanged.
    pub fn reset_next_index(&mut self, next_index: LogIndex)
        ensures
            final(self).progress@.len() == old(self).progress@.len(),
            forall|i: int|
                0 <= i < final(self).progress@.len() ==> #[trigger] final(self).progress@[i]
                    == (PeerProgress {
                    peer: old(self).progress@[i].peer,
                    next_index,
                    match_index: old(self).progress@[i].match_index,
                }),
            final(self).ids() == old(self).ids(),
            final(self).proposals == old(self).proposals,
    {
        let n = self.progress.len();
        let mut i: usize = 0;
        while i < n
            invariant
                0 <= i <= n,
                n == self.progress@.len(),
                self.proposals == old(self).proposals,
                forall|j: int|
                    i <= j < n ==> #[trigger] self.progress@[j] == old(self).progress@[j],
                forall|j: int|
                    0 <= j < i ==> #[trigger] self.progress@[j] == (PeerProgress {
                        peer: old(self).progress@[j].peer,
                        next_index,
                        match_index: old(self).progress@[j].match_index,
                    }),
            decreases n - i,
        {
            let p = self.progress[i];
            self.progress.set(
                i,
                PeerProgress { peer: p.peer, next_index, match_index: p.match_index },
            );
            i = i + 1;
        }
        proof {
            assert(final(self).ids() =~= old(self).ids());
        }
    }

    /// Sets the match index of `peer`, leaving everything else unchanged.
    pub fn set_match_index(&mut self, peer: ServerId, match_index: LogIndex)
        ensures
            final(self).progress@.len() == old(self).progress@.len(),
            forall|i: int|
                0 <= i < final(self).progress@.len() ==> #[trigger] final(self).progress@[i]
                    == (PeerProgress {
                    peer: old(self).progress@[i].peer,
                    next_index: old(self).progress@[i].next_index,
                    match_index: if old(self).progress@[i].peer == peer {
                        match_index
                    } else {
                        old(self).progress@[i].match_index
                    },
                }),
            final(self).proposals == old(self).proposals,
    {
        let n = self.progress.len();
        let mut i: usize = 0;
        while i < n
            invariant
                0 <= i <= n,
                n == self.progress@.len(),
                self.proposals == old(self).proposals,
                forall|j: int|
                    i <= j < n ==> #[trigger] self.progress@[j] == old(self).progress@[j],
                forall|j: int|
                    0 <= j < i ==> #[trigger] self.progress@[j] == (PeerProgress {
                        peer: old(self).progress@[j].peer,
                        next_index: old(self).progress@[j].next_index,
                        match_index: if old(self).progress@[j].peer == peer {
                            match_index
                        } else {
                            old(self).progress@[j].match_index
                        },
                    }),
            decreases n - i,
        {
            if self.progress[i].peer == peer {
                let next_index = self.progress[i].next_index;
                self.progress.set(i, PeerProgress { peer, next_index, match_index });
            }
            i = i + 1;
        }
    }

    /// How many replicas, the leader included, hold the entry at `idx`.
    pub fn count_match_indexes(&self, idx: LogIndex) -> (c: usize)
        requires
            self.progress@.len() < usize::MAX,
        ensures
            c as nat == self.match_count(idx),
    {
        let mut c: usize = 1;
        let mut i: usize = 0;
        while i < self.progress.len()
            invariant
                0 <= i <= self.progress@.len(),
                self.progress@.len() < usize::MAX,
                c as nat == 1 + count_matching(self.progress@.take(i as int), idx),
                c <= 1 + i,
            decreases self.progress@.len() - i,
        {
            if self.progress[i].match_index >= idx {
                c = c + 1;
            }
            i = i + 1;
            proof {
                assert(self.progress@.take(i as int).drop_last() =~= self.progress@.take(
                    i - 1,
                ));
            }
        }
        proof {
            assert(self.progress@.take(self.progress@.len() as int) =~= self.progress@);
        }
        c
    }
}

/// State the candidate role needs: which peers granted their vote this term.
#[derive(Debug)]
pub struct CandidateState {
    pub granted_votes: Vec<ServerId>,
}

impl CandidateState {
    pub open spec fn has_vote(&self, peer: ServerId) -> bool {
        self.granted_votes@.contains(peer)
    }

    pub fn new() -> (s: CandidateState)
        ensures
            s.granted_votes@ == Seq::<ServerId>::empty(),
    {
        CandidateState { granted_votes: Vec::new() }
    }

    /// Records a granted vote; duplicates are ignored.
    pub fn record_vote(&mut self, peer: ServerId)
        ensures
            final(self).granted_votes@ == if old(self).has_vote(peer) {
                old(self).granted_votes@
            } else {
                old(self).granted_votes@.push(peer)
            },
    {
        if !self.peer_voted(peer) {
            self.granted_votes.push(peer);
        }
    }

    /// Whether `peer` already granted its vote.
    pub fn peer_voted(&self, peer: ServerId) -> (r: bool)
        ensures
            r == self.has_vote(peer),
    {
        let mut i: usize = 0;
        while i < self.granted_votes.len()
            invariant
                0 <= i <= self.granted_votes@.len(),
                forall|j: int| 0 <= j < i ==> self.granted_votes@[j] != peer,
            decreases self.granted_votes@.len() - i,
        {
            if self.granted_votes[i] == peer {
                return true;
            }
            i = i + 1;
        }
        false
    }

    pub fn count_votes(&self) -> (c: usize)
        ensures
            c == self.granted_votes@.len(),
    {
        self.granted_votes.len()
    }

    pub fn clear(&mut self)
        ensures
            final(self).granted_votes@ == Seq::<ServerId>::empty(),
    {
        self.granted_votes.clear();
    }
}

/// State the follower role needs: the leader it believes in and the highest
/// log index it has accepted, which guards against reordered appends.
#[derive(Clone, Copy, Debug)]
pub struct FollowerState {
    pub leader: Option<ServerId>,
    pub min_index: LogIndex,
}

impl FollowerState {
    pub fn new() -> (s: FollowerState)
        ensures
            s.leader is None,
            s.min_index == 0,
    {
        FollowerState { leader: None, min_index: 0 }
    }

    pub fn set_leader(&mut self, leader: ServerId)
        ensures
            final(self).leader == Some(leader),
            final(self).min_index == old(self).min_index,
    {
        self.leader = Some(leader);
    }
}

} // verus!
