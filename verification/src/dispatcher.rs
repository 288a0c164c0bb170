//! The log manager: demultiplexes inbound peer messages, client requests and
//! timeouts onto the consensus instance of their log. The surrounding server
//! owns the transport and the timers; it feeds events in and carries the
//! returned [`Actions`] out.

use vstd::prelude::*;

use crate::consensus::{Actions, Consensus, ConsensusTimeout};
use crate::log::Log;
use crate::messages::{ClientRequest, PeerMessage};
use crate::state_machine::{StateMachine, StateMachineError};
use crate::{ClientId, LogId, ServerId};

verus! {

/// The consensus group of each log, keyed by log id.
pub struct LogManager<L, M> {
    pub instances: Vec<(LogId, Consensus<L, M>)>,
}

impl<L: Log, M: StateMachine> LogManager<L, M> {
    /// The log ids served, in order.
    pub open spec fn lids(&self) -> Seq<LogId> {
        self.instances@.map_values(|p: (LogId, Consensus<L, M>)| p.0)
    }

    pub open spec fn has_log(&self, lid: LogId) -> bool {
        self.lids().contains(lid)
    }

    /// Each instance is well-formed and serves the log it is keyed by; no
    /// log id appears twice.
    pub open spec fn wf(&self) -> bool {
        &&& forall|i: int, j: int|
            0 <= i < j < self.lids().len() ==> self.lids()[i] != self.lids()[j]
        &&& forall|i: int|
            0 <= i < self.instances@.len() ==> (#[trigger] self.instances@[i].1).wf()
                && self.instances@[i].1.lid == self.instances@[i].0
    }

    pub fn new() -> (d: LogManager<L, M>)
        ensures
            d.wf(),
            d.instances@.len() == 0,
    {
        LogManager { instances: Vec::new() }
    }

    /// Starts serving a new log; its id must not be served yet.
    pub fn add_log(&mut self, consensus: Consensus<L, M>)
        requires
            old(self).wf(),
            consensus.wf(),
            !old(self).has_log(consensus.lid),
        ensures
            final(self).wf(),
            final(self).instances@.len() == old(self).instances@.len() + 1,
    {
        let lid = consensus.lid;
        self.instances.push((lid, consensus));
        proof {
            assert(final(self).lids() =~= old(self).lids().push(lid));
            assert forall|i: int, j: int|
                0 <= i < j < final(self).lids().len() implies final(self).lids()[i] != final(self).lids()[j] by {
                if j < old(self).lids().len() {
                } else {
                    assert(old(self).lids().contains(old(self).lids()[i]) == old(self).has_log(old(self).lids()[i]));
                }
            }
        }
    }

    /// The position of the instance serving `lid`, if any.
    fn find(&self, lid: LogId) -> (r: Option<usize>)
        ensures
            r matches Some(i) ==> i < self.instances@.len() && self.instances@[i as int].0
                == lid,
            r is None ==> !self.has_log(lid),
    {
        let mut i: usize = 0;
        while i < self.instances.len()
            invariant
                0 <= i <= self.instances@.len(),
                forall|j: int| 0 <= j < i ==> #[trigger] self.instances@[j].0 != lid,
            decreases self.instances@.len() - i,
        {
            if self.instances[i].0 == lid {
                return Some(i);
            }
            i = i + 1;
        }
        proof {
            if self.has_log(lid) {
                let k = choose|k: int| 0 <= k < self.lids().len() && self.lids()[k] == lid;
                assert(self.instances@[k].0 == lid);
                assert(false);
            }
        }
        None
    }

    /// Routes one peer message by the log id it carries; messages for logs
    /// not served here, and appends too large to index, are dropped.
    pub fn dispatch_peer_message(
        &mut self,
        from: ServerId,
        message: PeerMessage,
        actions: &mut Actions,
    ) -> (r: Result<(), StateMachineError>)
        requires
            old(self).wf(),
            forall|i: int|
                0 <= i < old(self).instances@.len() ==> (#[trigger] old(self).instances@[i].1).log.contents().len() < u64::MAX,
        ensures
            final(self).wf(),
            final(self).lids() == old(self).lids(),
            forall|i: int|
                0 <= i < old(self).instances@.len() && (#[trigger] old(self).instances@[i]).0
                    != message.spec_log_id() ==> final(self).instances@[i] == old(
                    self,
                ).instances@[i],
            !old(self).has_log(message.spec_log_id()) || (
            message matches PeerMessage::AppendEntriesRequest(m) && m.prev_log_index
                + m.entries@.len() >= u64::MAX) ==> r is Ok && final(self).instances == old(
                self,
            ).instances && *final(actions) == *old(actions),
            !(message matches PeerMessage::AppendEntriesRequest(m) && m.prev_log_index
                + m.entries@.len() >= u64::MAX) ==> forall|i: int|
                0 <= i < old(self).instances@.len() && (#[trigger] old(self).instances@[i]).0
                    == message.spec_log_id() ==> Consensus::apply_peer_post(
                    old(self).instances@[i].1,
                    final(self).instances@[i].1,
                    from,
                    message,
                    *old(actions),
                    *final(actions),
                    r is Ok,
                ),
    {
        let lid = match &message {
            PeerMessage::AppendEntriesRequest(m) => m.log_id,
            PeerMessage::AppendEntriesResponse(m) => m.log_id,
            PeerMessage::RequestVoteRequest(m) => m.log_id,
            PeerMessage::RequestVoteResponse(m) => m.log_id,
            PeerMessage::TransactionBegin { log_id, .. } => *log_id,
            PeerMessage::TransactionCommit { log_id, .. } => *log_id,
            PeerMessage::TransactionRollback { log_id, .. } => *log_id,
        };
        proof {
            assert(lid == message.spec_log_id());
        }
        let idx = match self.find(lid) {
            Some(i) => i,
            None => {
                proof {
                    assert forall|i: int|
                        0 <= i < self.instances@.len() implies (
                    #[trigger] self.instances@[i]).0 != lid by {
                        assert(self.lids()[i] == self.instances@[i].0);
                    }
                }
                return Ok(());
            },
        };
        if let PeerMessage::AppendEntriesRequest(m) = &message {
            // An append whose indices would overflow cannot be meant for a
            // log this size; drop it.
            if m.prev_log_index >= u64::MAX - (m.entries.len() as u64) {
                return Ok(());
            }
        }
        proof {
            assert(lid == message.spec_log_id());
            assert(self.lids()[idx as int] == lid);
            assert(self.has_log(message.spec_log_id()));
        }
        let ghost pre = *self;
        let (key, mut instance) = self.instances.remove(idx);
        let result = instance.apply_peer_message(from, message, actions);
        self.instances.insert(idx, (key, instance));
        proof {
            assert(self.instances@ =~= pre.instances@.update(
                idx as int,
                (key, self.instances@[idx as int].1),
            ));
            assert(final(self).lids() =~= old(self).lids());
            assert forall|i: int|
                0 <= i < old(self).instances@.len() && (#[trigger] old(self).instances@[i]).0
                    == lid implies i == idx by {
                if i != idx {
                    assert(old(self).lids()[i] == lid);
                    assert(old(self).lids()[idx as int] == lid);
                }
            }
        }
        result
    }

    /// Routes one client request by the log id it carries; requests for logs
    /// not served here, and proposals to a log at its index limit, are
    /// answered by silence.
    pub fn dispatch_client_message(
        &mut self,
        from: ClientId,
        request: ClientRequest,
        actions: &mut Actions,
    ) -> (r: Result<(), StateMachineError>)
        requires
            old(self).wf(),
            forall|i: int|
                0 <= i < old(self).instances@.len() ==> (#[trigger] old(self).instances@[i].1).log.contents().len() + 2 <= u64::MAX,
        ensures
            final(self).wf(),
            final(self).lids() == old(self).lids(),
            forall|i: int|
                0 <= i < old(self).instances@.len() && (#[trigger] old(self).instances@[i]).0
                    != request.log_id ==> final(self).instances@[i] == old(self).instances@[i],
            !old(self).has_log(request.log_id) ==> r is Ok && final(self).instances == old(
                self,
            ).instances && *final(actions) == *old(actions),
            forall|i: int|
                0 <= i < old(self).instances@.len() && (#[trigger] old(self).instances@[i]).0
                    == request.log_id ==> Consensus::apply_client_post(
                    old(self).instances@[i].1,
                    final(self).instances@[i].1,
                    from,
                    request,
                    *old(actions),
                    *final(actions),
                    r is Ok,
                ),
    {
        let ghost req_lid = request.log_id;
        let idx = match self.find(request.log_id) {
            Some(i) => i,
            None => {
                proof {
                    assert forall|i: int|
                        0 <= i < self.instances@.len() implies (
                    #[trigger] self.instances@[i]).0 != req_lid by {
                        assert(self.lids()[i] == self.instances@[i].0);
                    }
                }
                return Ok(());
            },
        };
        proof {
            assert(self.lids()[idx as int] == req_lid);
            assert(self.has_log(req_lid));
        }
        let ghost pre = *self;
        let (key, mut instance) = self.instances.remove(idx);
        let result = instance.apply_client_message(from, request, actions);
        self.instances.insert(idx, (key, instance));
        proof {
            assert(self.instances@ =~= pre.instances@.update(
                idx as int,
                (key, self.instances@[idx as int].1),
            ));
            assert(final(self).lids() =~= old(self).lids());
            assert forall|i: int|
                0 <= i < old(self).instances@.len() && (#[trigger] old(self).instances@[i]).0
                    == req_lid implies i == idx by {
                if i != idx {
                    assert(old(self).lids()[i] == req_lid);
                    assert(old(self).lids()[idx as int] == req_lid);
                }
            }
        }
        result
    }

    /// Routes one timeout by the log id it names. A timeout that no longer
    /// fits the instance's role — an election timeout on a leader, a
    /// heartbeat timeout on anything else — is stale and dropped.
    pub fn dispatch_timeout(&mut self, timeout: ConsensusTimeout, actions: &mut Actions) -> (r:
        Result<(), StateMachineError>)
        requires
            old(self).wf(),
            forall|i: int|
                0 <= i < old(self).instances@.len() ==> (#[trigger] old(self).instances@[i].1).log.contents().len() < u64::MAX && old(self).instances@[i].1.log.stored_term() < u64::MAX,
        ensures
            final(self).wf(),
            final(self).lids() == old(self).lids(),
            forall|i: int|
                0 <= i < old(self).instances@.len() && (#[trigger] old(self).instances@[i]).0
                    != timeout.spec_log_id() ==> final(self).instances@[i] == old(
                    self,
                ).instances@[i],
            !old(self).has_log(timeout.spec_log_id()) ==> r is Ok && final(self).instances
                == old(self).instances && *final(actions) == *old(actions),
            forall|i: int|
                0 <= i < old(self).instances@.len() && (#[trigger] old(self).instances@[i]).0
                    == timeout.spec_log_id() ==> (if old(self).instances@[i].1.timeout_fits(
                    timeout,
                ) {
                    Consensus::apply_timeout_post(
                        old(self).instances@[i].1,
                        final(self).instances@[i].1,
                        timeout,
                        *old(actions),
                        *final(actions),
                        r is Ok,
                    )
                } else {
                    r is Ok && final(self).instances@[i] == old(self).instances@[i]
                        && *final(actions) == *old(actions)
                }),
    {
        let lid = match timeout {
            ConsensusTimeout::Election(lid) => lid,
            ConsensusTimeout::Heartbeat(_, lid) => lid,
        };
        proof {
            assert(lid == timeout.spec_log_id());
        }
        let idx = match self.find(lid) {
            Some(i) => i,
            None => {
                proof {
                    assert forall|i: int|
                        0 <= i < self.instances@.len() implies (
                    #[trigger] self.instances@[i]).0 != lid by {
                        assert(self.lids()[i] == self.instances@[i].0);
                    }
                }
                return Ok(());
            },
        };
        proof {
            assert(self.lids()[idx as int] == lid);
            assert(self.has_log(timeout.spec_log_id()));
        }
        let ghost pre = *self;
        let (key, mut instance) = self.instances.remove(idx);
        let fits = match timeout {
            ConsensusTimeout::Election(..) => !instance.is_leader() && (instance.peers.len() > 0
                || (instance.is_follower() && instance.log.voted_for().is_none())),
            ConsensusTimeout::Heartbeat(..) => instance.is_leader(),
        };
        proof {
            assert(fits == pre.instances@[idx as int].1.timeout_fits(timeout));
        }
        let result = if fits {
            instance.apply_timeout(timeout, actions)
        } else {
            Ok(())
        };
        self.instances.insert(idx, (key, instance));
        proof {
            assert(self.instances@ =~= pre.instances@.update(
                idx as int,
                (key, self.instances@[idx as int].1),
            ));
            assert(final(self).lids() =~= old(self).lids());
            assert forall|i: int|
                0 <= i < old(self).instances@.len() && (#[trigger] old(self).instances@[i]).0
                    == lid implies i == idx by {
                if i != idx {
                    assert(old(self).lids()[i] == lid);
                    assert(old(self).lids()[idx as int] == lid);
                }
            }
        }
        result
    }
}

} // verus!
