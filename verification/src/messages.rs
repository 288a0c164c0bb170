//! Wire messages of the consensus core, as plain values. The transport layer
//! serialises them with whatever stable schema it likes; the core itself only
//! ever sees these types.

use vstd::prelude::*;

use crate::log::{views_of, LogContents};
use crate::transaction::TransactionError;
use crate::{ClientId, Entry, LogId, LogIndex, PeerAddr, Term, TransactionId};

verus! {

/// Follower's verdict on one AppendEntries request.
#[derive(Debug)]
pub enum AppendResult {
    /// The entries were appended; carries the follower's latest log index.
    Success(LogIndex),
    /// The previous-entry check failed; carries a hint for the leader's next try.
    InconsistentPrevEntry(LogIndex),
    /// The request's term is older than the follower's.
    StaleTerm,
    /// The follower failed internally.
    InternalError(String),
}

/// Voter's verdict on one RequestVote request.
#[derive(Clone, Copy, Debug, PartialEq, Eq, Structural)]
pub enum VoteResult {
    Granted,
    AlreadyVoted,
    InconsistentLog,
    StaleTerm,
}

#[derive(Debug)]
pub struct AppendEntriesRequest {
    pub log_id: LogId,
    pub term: Term,
    pub prev_log_index: LogIndex,
    pub prev_log_term: Term,
    pub entries: Vec<Entry>,
    pub leader_commit: LogIndex,
}

#[derive(Debug)]
pub struct AppendEntriesResponse {
    pub log_id: LogId,
    pub term: Term,
    pub which: AppendResult,
}

#[derive(Clone, Copy, Debug, PartialEq, Eq, Structural)]
pub struct RequestVoteRequest {
    pub log_id: LogId,
    pub term: Term,
    pub last_log_index: LogIndex,
    pub last_log_term: Term,
}

#[derive(Clone, Copy, Debug, PartialEq, Eq, Structural)]
pub struct RequestVoteResponse {
    pub log_id: LogId,
    pub term: Term,
    pub which: VoteResult,
}

/// A message between two peers of a consensus group.
#[derive(Debug)]
pub enum PeerMessage {
    AppendEntriesRequest(AppendEntriesRequest),
    AppendEntriesResponse(AppendEntriesResponse),
    RequestVoteRequest(RequestVoteRequest),
    RequestVoteResponse(RequestVoteResponse),
    TransactionBegin { log_id: LogId, session: TransactionId },
    TransactionCommit { log_id: LogId, session: TransactionId },
    TransactionRollback { log_id: LogId, session: TransactionId },
}

impl PeerMessage {
    /// The log this message belongs to.
    pub open spec fn spec_log_id(&self) -> LogId {
        match self {
            PeerMessage::AppendEntriesRequest(m) => m.log_id,
            PeerMessage::AppendEntriesResponse(m) => m.log_id,
            PeerMessage::RequestVoteRequest(m) => m.log_id,
            PeerMessage::RequestVoteResponse(m) => m.log_id,
            PeerMessage::TransactionBegin { log_id, .. } => *log_id,
            PeerMessage::TransactionCommit { log_id, .. } => *log_id,
            PeerMessage::TransactionRollback { log_id, .. } => *log_id,
        }
    }
}

/// What a client asks of one log.
#[derive(Debug)]
pub enum ClientRequestKind {
    Proposal { session: TransactionId, entry: Vec<u8> },
    Query { query: Vec<u8> },
    TransactionBegin { session: TransactionId },
    TransactionCommit,
    TransactionRollback,
}

#[derive(Debug)]
pub struct ClientRequest {
    pub log_id: LogId,
    pub which: ClientRequestKind,
}

/// What a log answers a client.
#[derive(Debug)]
pub enum CommandResponse {
    Success { log_id: LogId, data: Vec<u8> },
    NotLeader { log_id: LogId, leader_addr: PeerAddr },
    UnknownLeader { log_id: LogId },
    TransactionSuccess { log_id: LogId, data: Vec<u8> },
    TransactionFailure { log_id: LogId, kind: TransactionError },
}

// The mathematical values of the message types: identical in shape, with
// entry and byte vectors replaced by sequences. Contracts speak of these.

pub ghost enum AppendResultView {
    Success(LogIndex),
    InconsistentPrevEntry(LogIndex),
    StaleTerm,
    InternalError(Seq<char>),
}

pub ghost struct AppendEntriesRequestView {
    pub log_id: LogId,
    pub term: Term,
    pub prev_log_index: LogIndex,
    pub prev_log_term: Term,
    pub entries: LogContents,
    pub leader_commit: LogIndex,
}

pub ghost struct AppendEntriesResponseView {
    pub log_id: LogId,
    pub term: Term,
    pub which: AppendResultView,
}

pub ghost enum PeerMessageView {
    AppendEntriesRequest(AppendEntriesRequestView),
    AppendEntriesResponse(AppendEntriesResponseView),
    RequestVoteRequest(RequestVoteRequest),
    RequestVoteResponse(RequestVoteResponse),
    TransactionBegin { log_id: LogId, session: TransactionId },
    TransactionCommit { log_id: LogId, session: TransactionId },
    TransactionRollback { log_id: LogId, session: TransactionId },
}

pub ghost enum ClientRequestKindView {
    Proposal { session: TransactionId, entry: Seq<u8> },
    Query { query: Seq<u8> },
    TransactionBegin { session: TransactionId },
    TransactionCommit,
    TransactionRollback,
}

pub ghost struct ClientRequestView {
    pub log_id: LogId,
    pub which: ClientRequestKindView,
}

pub ghost enum CommandResponseView {
    Success { log_id: LogId, data: Seq<u8> },
    NotLeader { log_id: LogId, leader_addr: PeerAddr },
    UnknownLeader { log_id: LogId },
    TransactionSuccess { log_id: LogId, data: Seq<u8> },
    TransactionFailure { log_id: LogId, kind: TransactionError },
}

impl View for AppendResult {
    type V = AppendResultView;

    open spec fn view(&self) -> AppendResultView {
        match self {
            AppendResult::Success(i) => AppendResultView::Success(*i),
            AppendResult::InconsistentPrevEntry(i) => AppendResultView::InconsistentPrevEntry(*i),
            AppendResult::StaleTerm => AppendResultView::StaleTerm,
            AppendResult::InternalError(s) => AppendResultView::InternalError(s@),
        }
    }
}

impl View for AppendEntriesRequest {
    type V = AppendEntriesRequestView;

    open spec fn view(&self) -> AppendEntriesRequestView {
        AppendEntriesRequestView {
            log_id: self.log_id,
            term: self.term,
            prev_log_index: self.prev_log_index,
            prev_log_term: self.prev_log_term,
            entries: views_of(self.entries@),
            leader_commit: self.leader_commit,
        }
    }
}

impl View for AppendEntriesResponse {
    type V = AppendEntriesResponseView;

    open spec fn view(&self) -> AppendEntriesResponseView {
        AppendEntriesResponseView { log_id: self.log_id, term: self.term, which: self.which@ }
    }
}

impl View for PeerMessage {
    type V = PeerMessageView;

    open spec fn view(&self) -> PeerMessageView {
        match self {
            PeerMessage::AppendEntriesRequest(r) => PeerMessageView::AppendEntriesRequest(r@),
            PeerMessage::AppendEntriesResponse(r) => PeerMessageView::AppendEntriesResponse(r@),
            PeerMessage::RequestVoteRequest(r) => PeerMessageView::RequestVoteRequest(*r),
            PeerMessage::RequestVoteResponse(r) => PeerMessageView::RequestVoteResponse(*r),
            PeerMessage::TransactionBegin { log_id, session } => PeerMessageView::TransactionBegin {
                log_id: *log_id,
                session: *session,
            },
            PeerMessage::TransactionCommit { log_id, session } => PeerMessageView::TransactionCommit {
                log_id: *log_id,
                session: *session,
            },
            PeerMessage::TransactionRollback {
                log_id,
                session,
            } => PeerMessageView::TransactionRollback { log_id: *log_id, session: *session },
        }
    }
}

impl View for ClientRequestKind {
    type V = ClientRequestKindView;

    open spec fn view(&self) -> ClientRequestKindView {
        match self {
            ClientRequestKind::Proposal { session, entry } => ClientRequestKindView::Proposal {
                session: *session,
                entry: entry@,
            },
            ClientRequestKind::Query { query } => ClientRequestKindView::Query { query: query@ },
            ClientRequestKind::TransactionBegin { session } => ClientRequestKindView::TransactionBegin {
                session: *session,
            },
            ClientRequestKind::TransactionCommit => ClientRequestKindView::TransactionCommit,
            ClientRequestKind::TransactionRollback => ClientRequestKindView::TransactionRollback,
        }
    }
}

impl View for ClientRequest {
    type V = ClientRequestView;

    open spec fn view(&self) -> ClientRequestView {
        ClientRequestView { log_id: self.log_id, which: self.which@ }
    }
}

impl View for CommandResponse {
    type V = CommandResponseView;

    open spec fn view(&self) -> CommandResponseView {
        match self {
            CommandResponse::Success { log_id, data } => CommandResponseView::Success {
                log_id: *log_id,
                data: data@,
            },
            CommandResponse::NotLeader { log_id, leader_addr } => CommandResponseView::NotLeader {
                log_id: *log_id,
                leader_addr: *leader_addr,
            },
            CommandResponse::UnknownLeader { log_id } => CommandResponseView::UnknownLeader {
                log_id: *log_id,
            },
            CommandResponse::TransactionSuccess {
                log_id,
                data,
            } => CommandResponseView::TransactionSuccess { log_id: *log_id, data: data@ },
            CommandResponse::TransactionFailure {
                log_id,
                kind,
            } => CommandResponseView::TransactionFailure { log_id: *log_id, kind: *kind },
        }
    }
}

} // verus!
