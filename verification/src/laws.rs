//! The safety arguments of the consensus core, as far as one replica's
//! contracts can carry them: quorum overlap and election safety, the log
//! matching step, state-machine safety over agreeing logs, and robustness
//! against reordered appends. Each lemma's hypotheses name exactly the
//! protocol facts the handlers' contracts establish.

use vstd::prelude::*;

use crate::consensus::{spec_majority, Consensus};
use crate::log::{applied_commands, lemma_applied_commands_agree, term_at, views_of, Log, LogContents};
use crate::messages::AppendEntriesRequest;
use crate::state_machine::StateMachine;
use crate::{LogIndex, ServerId, Term};

verus! {

/// Two disjoint finite sets have a union as large as both together.
proof fn lemma_len_disjoint_union<A>(a: Set<A>, b: Set<A>)
    requires
        a.finite(),
        b.finite(),
        a.intersect(b).is_empty(),
    ensures
        a.union(b).len() == a.len() + b.len(),
    decreases a.len(),
{
    if a.is_empty() {
        assert(a.union(b) =~= b);
    } else {
        let x = a.choose();
        if b.contains(x) {
            assert(a.intersect(b).contains(x));
        }
        assert(a.union(b).remove(x) =~= a.remove(x).union(b));
        assert(a.remove(x).intersect(b) =~= a.intersect(b));
        lemma_len_disjoint_union(a.remove(x), b);
    }
}

/// Majority quorum overlap: any two subsets of the members that together
/// outnumber them share a member.
pub proof fn lemma_quorum_overlap(members: Set<ServerId>, qa: Set<ServerId>, qb: Set<ServerId>)
    requires
        members.finite(),
        qa.subset_of(members),
        qb.subset_of(members),
        qa.len() + qb.len() > members.len(),
    ensures
        exists|s: ServerId| qa.contains(s) && qb.contains(s),
{
    vstd::set_lib::lemma_set_union_finite_implies_sets_finite(qa, qb);
    if qa.intersect(qb).is_empty() {
        lemma_len_disjoint_union(qa, qb);
        vstd::set_lib::lemma_len_subset(qa.union(qb), members);
        assert(false);
    }
    let s = qa.intersect(qb).choose();
    assert(qa.contains(s) && qb.contains(s));
}

/// Election safety: at most one leader exists per term. Two candidates each
/// backed by a majority of the members' votes in one term are the same
/// candidate, because the two vote quorums share a voter and — as
/// `request_vote_request` guarantees by persisting the vote before replying
/// and never overwriting it within a term — each voter grants at most one
/// vote per term, modelled by the map `votes`.
pub proof fn lemma_election_safety(
    members: Set<ServerId>,
    votes: Map<ServerId, ServerId>,
    a: ServerId,
    b: ServerId,
    qa: Set<ServerId>,
    qb: Set<ServerId>,
)
    requires
        members.finite(),
        qa.subset_of(members),
        qb.subset_of(members),
        qa.len() >= spec_majority(members.len()),
        qb.len() >= spec_majority(members.len()),
        forall|v: ServerId| qa.contains(v) ==> votes.dom().contains(v) && #[trigger] votes[v] == a,
        forall|v: ServerId| qb.contains(v) ==> votes.dom().contains(v) && #[trigger] votes[v] == b,
    ensures
        a == b,
{
    assert(qa.len() + qb.len() > members.len());
    lemma_quorum_overlap(members, qa, qb);
    let w = choose|w: ServerId| qa.contains(w) && qb.contains(w);
    assert(votes[w] == a && votes[w] == b);
}

/// Log matching, the replication step: when a follower whose log agrees with
/// the leader's up to `prev` passes the consistency check and accepts the
/// leader's entries `(prev, q]`, its new log is exactly the leader's log up
/// to `q` — so the two agree on every position `<= q`.
pub proof fn lemma_log_matching_step(leader: LogContents, follower: LogContents, prev: int, q: int)
    requires
        0 <= prev <= q <= leader.len(),
        prev <= follower.len(),
        follower.take(prev) == leader.take(prev),
    ensures
        follower.take(prev) + leader.subrange(prev, q) == leader.take(q),
{
    assert(follower.take(prev) + leader.subrange(prev, q) =~= leader.take(q));
}

/// Log matching, the global shape: if two replicas' logs are both prefixes
/// of one history — the invariant that `lemma_log_matching_step` maintains
/// and that entries at equal `(term, index)` witness — then they agree on
/// every position up to the shorter one, in particular on all positions
/// `<= i` whenever both hold position `i`.
pub proof fn lemma_log_matching(l1: LogContents, l2: LogContents, h: LogContents, i: int)
    requires
        l1.len() <= h.len(),
        l2.len() <= h.len(),
        l1 == h.take(l1.len() as int),
        l2 == h.take(l2.len() as int),
        0 <= i < l1.len(),
        i < l2.len(),
    ensures
        l1.take(i + 1) == l2.take(i + 1),
        l1[i] == l2[i],
{
    assert forall|j: int| 0 <= j < i + 1 implies #[trigger] l1.take(i + 1)[j] == l2.take(i + 1)[j] by {
        assert(l1.take(i + 1)[j] == l1[j]);
        assert(l2.take(i + 1)[j] == l2[j]);
        assert(l1[j] == h.take(l1.len() as int)[j]);
        assert(h.take(l1.len() as int)[j] == h[j]);
        assert(l2[j] == h.take(l2.len() as int)[j]);
        assert(h.take(l2.len() as int)[j] == h[j]);
    }
    assert(l1.take(i + 1) =~= l2.take(i + 1));
    assert(l1[i] == l1.take(i + 1)[i]);
    assert(l2[i] == l2.take(i + 1)[i]);
}

/// State-machine safety: two replicas whose logs agree up to a position both
/// committed hand their state machines identical command bytes in identical
/// order up to it — `apply_commits` feeds exactly `applied_commands` of the
/// log, in order.
pub proof fn lemma_state_machine_safety(l1: LogContents, l2: LogContents, i: int)
    requires
        0 <= i <= l1.len(),
        i <= l2.len(),
        l1.take(i) == l2.take(i),
    ensures
        applied_commands(l1, 0, i) == applied_commands(l2, 0, i),
{
    assert forall|j: int| 0 <= j < i implies l1[j] == l2[j] by {
        assert(l1[j] == l1.take(i)[j]);
        assert(l2[j] == l2.take(i)[j]);
    }
    lemma_applied_commands_agree(l1, l2, 0, i);
}

/// Leader completeness, the quorum step: a candidate elected by a majority
/// of the members hears from at least one member of any majority that stores
/// a committed entry, and that voter granted its vote only because the
/// candidate's `(last_log_term, last_log_index)` was at least as up to date
/// as its own. The full completeness property follows by induction over the
/// terms between commit and election, which no single replica's contract can
/// carry.
pub proof fn lemma_leader_completeness_quorums(
    members: Set<ServerId>,
    holders: Set<ServerId>,
    voters: Set<ServerId>,
    last_log_term: Map<ServerId, Term>,
    last_log_index: Map<ServerId, LogIndex>,
    candidate_term: Term,
    candidate_index: LogIndex,
)
    requires
        members.finite(),
        holders.subset_of(members),
        voters.subset_of(members),
        holders.len() >= spec_majority(members.len()),
        voters.len() >= spec_majority(members.len()),
        forall|v: ServerId|
            voters.contains(v) ==> last_log_term.dom().contains(v)
                && last_log_index.dom().contains(v) && (candidate_term > #[trigger] last_log_term[v]
                || (candidate_term == last_log_term[v] && candidate_index >= last_log_index[v])),
    ensures
        exists|w: ServerId|
            holders.contains(w) && voters.contains(w) && (candidate_term > last_log_term[w] || (
            candidate_term == last_log_term[w] && candidate_index >= #[trigger] last_log_index[w])),
{
    assert(holders.len() + voters.len() > members.len());
    lemma_quorum_overlap(members, holders, voters);
    let w = choose|w: ServerId| holders.contains(w) && voters.contains(w);
    assert(holders.contains(w) && voters.contains(w) && (candidate_term > last_log_term[w] || (
    candidate_term == last_log_term[w] && candidate_index >= last_log_index[w])));
}

/// Reorder robustness: after a follower accepts an AppendEntries of length
/// `k`, a delivery of the same message cut to a shorter prefix falls under
/// the `min_index` guard: `append_entries_request` drops it silently and the
/// log stays the length-`k` version.
pub proof fn lemma_reorder_robustness<L: Log, M: StateMachine>(
    s0: Consensus<L, M>,
    s1: Consensus<L, M>,
    req1: AppendEntriesRequest,
    req2: AppendEntriesRequest,
)
    requires
        s0.wf(),
        s0.state is Follower,
        s0.ae_accepted(req1),
        // the state after the first delivery, as append_entries_request ensures it
        s1.state is Follower,
        s1.log.stored_term() == (if req1.term > s0.log.stored_term() {
            req1.term
        } else {
            s0.log.stored_term()
        }),
        s1.log.contents() == s0.log.contents().take(req1.prev_log_index as int) + views_of(
            req1.entries@,
        ),
        s1.follower_state.min_index == req1.prev_log_index + req1.entries@.len(),
        // the second message duplicates a strict prefix of the first
        req2.term == req1.term,
        req2.prev_log_index == req1.prev_log_index,
        req2.prev_log_term == req1.prev_log_term,
        req2.entries@.len() < req1.entries@.len(),
    ensures
        !s1.ae_stale(req2),
        !s1.ae_ignored(req2),
        !s1.ae_inconsistent(req2),
        s1.ae_silent_drop(req2),
        s1.ae_reply(req2) is None,
{
    let prev = req1.prev_log_index as int;
    let c0 = s0.log.contents();
    let c1 = s1.log.contents();
    assert(c1.len() == prev + req1.entries@.len());
    assert(!s0.ae_stale(req1));
    assert(!s0.ae_inconsistent(req1));
    assert(term_at(c0, prev) == req1.prev_log_term);
    if prev > 0 {
        assert(c1[prev - 1] == c0.take(prev)[prev - 1]);
        assert(c1[prev - 1] == c0[prev - 1]);
    }
    assert(term_at(c1, prev) == req2.prev_log_term);
}

} // verus!
