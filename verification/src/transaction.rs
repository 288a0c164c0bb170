//! Per-log transaction bookkeeping: at most one active transaction per log.
//! `begin` captures the indices that `rollback` later restores, so that the
//! log and the state machine can be brought back to their pre-transaction
//! state.

use vstd::prelude::*;

use crate::consensus::Actions;
use crate::messages::{PeerMessage, PeerMessageView};
use crate::{LogId, LogIndex, TransactionId};

verus! {

/// Misuse of the transaction facility, reported to the client.
#[derive(Clone, Copy, Debug, PartialEq, Eq, Structural)]
pub enum TransactionError {
    NotActive,
    AlreadyActive,
}

/// Bookkeeping for the (at most one) active transaction of a log.
pub struct TransactionManager {
    pub is_active: bool,
    /// Session of the active transaction.
    pub session: Option<TransactionId>,
    /// Commit index captured at `begin`.
    pub saved_commit_index: LogIndex,
    /// Last-applied index captured at `begin`.
    pub saved_last_applied: LogIndex,
    /// A follower also captures its `min_index` at `begin`; a leader stores
    /// `None` here.
    pub saved_follower_min_index: Option<LogIndex>,
    /// Advisory count of proposals queued while the transaction ran.
    pub inflight_count: u64,
    /// Commands the state machine had applied when the transaction began.
    pub saved_applied: Ghost<Seq<Seq<u8>>>,
}

impl TransactionManager {
    pub fn new() -> (t: TransactionManager)
        ensures
            !t.is_active,
            t.session is None,
            t.inflight_count == 0,
    {
        TransactionManager {
            is_active: false,
            session: None,
            saved_commit_index: 0,
            saved_last_applied: 0,
            saved_follower_min_index: None,
            inflight_count: 0,
            saved_applied: Ghost(Seq::empty()),
        }
    }

    /// Opens a transaction, capturing the indices to restore on rollback;
    /// fails if one is already active.
    pub fn begin(
        &mut self,
        session: TransactionId,
        commit_index: LogIndex,
        last_applied: LogIndex,
        follower_min_index: Option<LogIndex>,
        applied: Ghost<Seq<Seq<u8>>>,
    ) -> (r: Result<(), TransactionError>)
        ensures
            old(self).is_active ==> r is Err && *final(self) == *old(self),
            !old(self).is_active ==> r is Ok && *final(self) == (TransactionManager {
                is_active: true,
                session: Some(session),
                saved_commit_index: commit_index,
                saved_last_applied: last_applied,
                saved_follower_min_index: follower_min_index,
                inflight_count: 0,
                saved_applied: applied,
            }),
    {
        if self.is_active {
            return Err(TransactionError::AlreadyActive);
        }
        self.is_active = true;
        self.session = Some(session);
        self.saved_commit_index = commit_index;
        self.saved_last_applied = last_applied;
        self.saved_follower_min_index = follower_min_index;
        self.inflight_count = 0;
        self.saved_applied = applied;
        Ok(())
    }

    /// True iff a transaction is active and runs under `session`.
    pub fn compare(&self, session: TransactionId) -> (r: bool)
        ensures
            r == (self.is_active && self.session == Some(session)),
    {
        if !self.is_active {
            return false;
        }
        match self.session {
            Some(s) => s == session,
            None => false,
        }
    }

    /// Counts one more proposal queued behind the transaction; the counter is
    /// advisory and stops at its maximum rather than wrapping.
    pub fn count_up(&mut self)
        ensures
            *final(self) == (TransactionManager {
                inflight_count: if old(self).inflight_count < u64::MAX {
                    (old(self).inflight_count + 1) as u64
                } else {
                    old(self).inflight_count
                },
                ..*old(self)
            }),
    {
        if self.inflight_count < u64::MAX {
            self.inflight_count = self.inflight_count + 1;
        }
    }

    /// Commits: clears the transaction without touching log or state machine.
    pub fn end(&mut self) -> (r: Result<(), TransactionError>)
        ensures
            !old(self).is_active ==> r is Err && *final(self) == *old(self),
            old(self).is_active ==> r is Ok && !final(self).is_active && final(self).session
                is None,
    {
        if !self.is_active {
            return Err(TransactionError::NotActive);
        }
        self.clear();
        Ok(())
    }

    /// Aborts: returns the captured `(commit_index, last_applied,
    /// follower_min_index)` and clears the transaction.
    pub fn rollback(&mut self) -> (r: Result<
        (LogIndex, LogIndex, Option<LogIndex>),
        TransactionError,
    >)
        ensures
            !old(self).is_active ==> r is Err && *final(self) == *old(self),
            old(self).is_active ==> r == Ok::<_, TransactionError>(
                (
                    old(self).saved_commit_index,
                    old(self).saved_last_applied,
                    old(self).saved_follower_min_index,
                ),
            ) && !final(self).is_active && final(self).session is None,
    {
        if !self.is_active {
            return Err(TransactionError::NotActive);
        }
        let r = (self.saved_commit_index, self.saved_last_applied, self.saved_follower_min_index);
        self.clear();
        Ok(r)
    }

    fn clear(&mut self)
        ensures
            *final(self) == (TransactionManager {
                is_active: false,
                session: None,
                saved_commit_index: 0,
                saved_last_applied: 0,
                saved_follower_min_index: None,
                inflight_count: 0,
                saved_applied: Ghost(Seq::empty()),
            }),
    {
        self.is_active = false;
        self.session = None;
        self.saved_commit_index = 0;
        self.saved_last_applied = 0;
        self.saved_follower_min_index = None;
        self.inflight_count = 0;
        self.saved_applied = Ghost(Seq::empty());
    }

    /// Announces the transaction's begin to every peer.
    pub fn broadcast_begin(&self, log_id: LogId, actions: &mut Actions)
        requires
            self.session is Some,
        ensures
            Actions::delta(
                *old(actions),
                *final(actions),
                Seq::empty(),
                Seq::empty(),
                Seq::empty(),
                Seq::empty(),
                false,
                Seq::empty(),
                seq![
                    PeerMessageView::TransactionBegin { log_id, session: self.session->0 },
                ],
            ),
    {
        let session = match self.session {
            Some(s) => s,
            None => unreached(),
        };
        let ghost pre = *actions;
        actions.peer_messages_broadcast.push(PeerMessage::TransactionBegin { log_id, session });
        proof {
            assert(crate::consensus::broadcast_view(actions.peer_messages_broadcast@)
                =~= crate::consensus::broadcast_view(pre.peer_messages_broadcast@) + seq![
                PeerMessageView::TransactionBegin { log_id, session: self.session->0 },
            ]);
        }
    }

    /// Announces the transaction's commit to every peer.
    pub fn broadcast_end(&self, log_id: LogId, actions: &mut Actions)
        requires
            self.session is Some,
        ensures
            Actions::delta(
                *old(actions),
                *final(actions),
                Seq::empty(),
                Seq::empty(),
                Seq::empty(),
                Seq::empty(),
                false,
                Seq::empty(),
                seq![
                    PeerMessageView::TransactionCommit { log_id, session: self.session->0 },
                ],
            ),
    {
        let session = match self.session {
            Some(s) => s,
            None => unreached(),
        };
        let ghost pre = *actions;
        actions.peer_messages_broadcast.push(PeerMessage::TransactionCommit { log_id, session });
        proof {
            assert(crate::consensus::broadcast_view(actions.peer_messages_broadcast@)
                =~= crate::consensus::broadcast_view(pre.peer_messages_broadcast@) + seq![
                PeerMessageView::TransactionCommit { log_id, session: self.session->0 },
            ]);
        }
    }

    /// Announces the transaction's rollback to every peer.
    pub fn broadcast_rollback(&self, log_id: LogId, actions: &mut Actions)
        requires
            self.session is Some,
        ensures
            Actions::delta(
                *old(actions),
                *final(actions),
                Seq::empty(),
                Seq::empty(),
                Seq::empty(),
                Seq::empty(),
                false,
                Seq::empty(),
                seq![
                    PeerMessageView::TransactionRollback { log_id, session: self.session->0 },
                ],
            ),
    {
        let session = match self.session {
            Some(s) => s,
            None => unreached(),
        };
        let ghost pre = *actions;
        actions.peer_messages_broadcast.push(
            PeerMessage::TransactionRollback { log_id, session },
        );
        proof {
            assert(crate::consensus::broadcast_view(actions.peer_messages_broadcast@)
                =~= crate::consensus::broadcast_view(pre.peer_messages_broadcast@) + seq![
                PeerMessageView::TransactionRollback { log_id, session: self.session->0 },
            ]);
        }
    }
}

} // verus!
