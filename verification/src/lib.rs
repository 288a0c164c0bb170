//! Consensus core of a replicated log service: a Raft state machine extended
//! with a multi-log abstraction (independent consensus groups multiplexed over
//! one peer set) and client-initiated transactions that commit or roll back
//! atomically on the application state machine.
//!
//! The core is a pure event processor: every handler consumes one event and
//! returns its I/O as a [`consensus::Actions`] record, so a dispatcher is free
//! to batch sends and arm timers outside of the verified code.

use vstd::prelude::*;

pub mod consensus;
pub mod dispatcher;
pub mod laws;
pub mod log;
pub mod messages;
pub mod state;
pub mod state_machine;
pub mod transaction;

verus! {

/// Unique identifier of a peer in a consensus group.
pub type ServerId = u64;

/// Unique identifier of a connected client.
pub type ClientId = u128;

/// Identifier of an independent consensus group sharing the peer set.
pub type LogId = u128;

/// Session identifier tying a sequence of proposals into an atomic unit.
pub type TransactionId = u128;

/// Leadership epoch; monotonically non-decreasing per log.
pub type Term = u64;

/// One-based position in the replicated log; 0 denotes "before the first entry".
pub type LogIndex = u64;

/// Network address of a peer, as plain values; the transport layer converts
/// this to its own socket address type.
#[derive(Clone, Copy, Debug, PartialEq, Eq, Structural)]
pub struct PeerAddr {
    pub host: u32,
    pub port: u16,
}

/// One replicated log entry: the term it was proposed in and opaque command bytes.
#[derive(Clone, Debug)]
pub struct Entry {
    pub term: Term,
    pub command: Vec<u8>,
}

impl View for Entry {
    type V = (Term, Seq<u8>);

    open spec fn view(&self) -> (Term, Seq<u8>) {
        (self.term, self.command@)
    }
}

/// The sixteen bytes of a session id, most significant first — the form a
/// transaction acknowledgement carries the session back to the client in.
pub open spec fn session_bytes_spec(session: TransactionId) -> Seq<u8> {
    Seq::new(16, |i: int| (session >> (((15 - i) * 8) as u128)) as u8)
}

/// Encodes a session id as its sixteen bytes, most significant first.
pub fn session_bytes(session: TransactionId) -> (r: Vec<u8>)
    ensures
        r@ == session_bytes_spec(session),
{
    let mut r: Vec<u8> = Vec::new();
    let mut i: usize = 0;
    while i < 16
        invariant
            0 <= i <= 16,
            r@.len() == i,
            forall|j: int| 0 <= j < i ==> #[trigger] r@[j] == session_bytes_spec(session)[j],
        decreases 16 - i,
    {
        let shift: u128 = ((15 - i) * 8) as u128;
        let byte = #[verifier::truncate] ((session >> shift) as u8);
        r.push(byte);
        i = i + 1;
    }
    proof {
        assert(r@ =~= session_bytes_spec(session));
    }
    r
}

/// Whether two byte slices hold the same bytes.
pub fn bytes_equal(a: &[u8], b: &[u8]) -> (r: bool)
    ensures
        r == (a@ == b@),
{
    if a.len() != b.len() {
        return false;
    }
    let mut i: usize = 0;
    while i < a.len()
        invariant
            0 <= i <= a@.len(),
            a@.len() == b@.len(),
            forall|j: int| 0 <= j < i ==> a@[j] == b@[j],
        decreases a@.len() - i,
    {
        if a[i] != b[i] {
            return false;
        }
        i = i + 1;
    }
    proof {
        assert(a@ =~= b@);
    }
    true
}

/// Byte-for-byte copy of a command buffer.
pub fn clone_bytes(v: &Vec<u8>) -> (r: Vec<u8>)
    ensures
        r@ == v@,
{
    let r = v.clone();
    proof {
        assert forall|i: int| 0 <= i < r@.len() implies r@[i] == v@[i] by {
            assert(cloned::<u8>(v@[i], r@[i]));
        }
        assert(r@ =~= v@);
    }
    r
}

/// Copy of one log entry, preserving its view.
pub fn clone_entry(e: &Entry) -> (r: Entry)
    ensures
        r@ == e@,
{
    Entry { term: e.term, command: clone_bytes(&e.command) }
}

/// Copy of a vector of log entries, preserving the sequence of views.
pub fn clone_entries(es: &Vec<Entry>) -> (r: Vec<Entry>)
    ensures
        crate::log::views_of(r@) == crate::log::views_of(es@),
        r@.len() == es@.len(),
{
    let mut r: Vec<Entry> = Vec::new();
    let mut i: usize = 0;
    while i < es.len()
        invariant
            0 <= i <= es@.len(),
            r@.len() == i,
            crate::log::views_of(r@) =~= crate::log::views_of(es@).take(i as int),
        decreases es@.len() - i,
    {
        r.push(clone_entry(&es[i]));
        i = i + 1;
        proof {
            assert(crate::log::views_of(r@) =~= crate::log::views_of(es@).take(i as int));
        }
    }
    proof {
        assert(crate::log::views_of(r@) =~= crate::log::views_of(es@));
    }
    r
}

} // verus!
