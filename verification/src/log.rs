//! The replicated log: persistent metadata `(current_term, voted_for)` plus an
//! ordered, append-only sequence of `(term, command)` entries. Positions are
//! one-based; 0 denotes "before the first entry".

use vstd::prelude::*;

use crate::{clone_bytes, clone_entries, Entry, LogIndex, ServerId, Term};

verus! {

/// Error type for the in-memory log. Its operations cannot fail, so nothing in
/// this crate constructs a value of it; the single variant only exists because
/// an enum needs one.
pub enum Error {
    Never,
}

/// The model of a log's entry sequence: position `i` (one-based) of the log is
/// element `i - 1` of the sequence.
pub type LogContents = Seq<(Term, Seq<u8>)>;

/// Term stored at one-based position `i` of `c`; position 0 carries term 0.
pub open spec fn term_at(c: LogContents, i: int) -> Term {
    if i == 0 {
        0
    } else {
        c[i - 1].0
    }
}

/// The entry sequence that a vector of entries stands for.
pub open spec fn views_of(es: Seq<Entry>) -> LogContents {
    es.map_values(|e: Entry| e@)
}

/// The commands that applying positions `(lo, hi]` of `c` hands to the state
/// machine: the non-empty commands of those entries, in order.
pub open spec fn applied_commands(c: LogContents, lo: int, hi: int) -> Seq<Seq<u8>>
    decreases hi - lo,
{
    if lo >= hi {
        Seq::empty()
    } else {
        applied_commands(c, lo, hi - 1) + if c[hi - 1].1.len() == 0 {
            Seq::empty()
        } else {
            seq![c[hi - 1].1]
        }
    }
}

/// `applied_commands` only looks at the positions in its range: two contents
/// that agree there yield the same commands.
pub proof fn lemma_applied_commands_agree(c1: LogContents, c2: LogContents, lo: int, hi: int)
    requires
        forall|i: int| lo <= i < hi ==> c1[i] == c2[i],
    ensures
        applied_commands(c1, lo, hi) == applied_commands(c2, lo, hi),
    decreases hi - lo,
{
    if lo < hi {
        lemma_applied_commands_agree(c1, c2, lo, hi - 1);
    }
}

/// Applying `(lo, hi]` hands over the commands of `(lo, mid]` followed by
/// those of `(mid, hi]`.
pub proof fn lemma_applied_commands_split(c: LogContents, lo: int, mid: int, hi: int)
    requires
        lo <= mid <= hi,
    ensures
        applied_commands(c, lo, hi) == applied_commands(c, lo, mid) + applied_commands(
            c,
            mid,
            hi,
        ),
    decreases hi - mid,
{
    if mid == hi {
        assert(applied_commands(c, lo, hi) =~= applied_commands(c, lo, mid) + applied_commands(
            c,
            mid,
            hi,
        ));
    } else {
        lemma_applied_commands_split(c, lo, mid, hi - 1);
        assert(applied_commands(c, lo, hi) =~= applied_commands(c, lo, mid) + applied_commands(
            c,
            mid,
            hi,
        ));
    }
}

/// Storage interface of the consensus core. Writes must be durable before a
/// method returns; the in-memory [`MemLog`] meets the contracts but is meant
/// for testing only.
pub trait Log: Sized {
    /// Entries currently stored, in order.
    spec fn contents(&self) -> LogContents;

    /// Persisted current term.
    spec fn stored_term(&self) -> Term;

    /// Persisted vote granted in the current term, if any.
    spec fn stored_vote(&self) -> Option<ServerId>;

    fn current_term(&self) -> (t: Term)
        ensures
            t == self.stored_term(),
    ;

    /// Stores `t` as the current term and clears the vote.
    fn set_current_term(&mut self, t: Term)
        ensures
            final(self).stored_term() == t,
            final(self).stored_vote() is None,
            final(self).contents() == old(self).contents(),
    ;

    /// Increments the current term, clearing the vote; returns the new term.
    fn inc_current_term(&mut self) -> (t: Term)
        requires
            old(self).stored_term() < u64::MAX,
        ensures
            t == old(self).stored_term() + 1,
            final(self).stored_term() == t,
            final(self).stored_vote() is None,
            final(self).contents() == old(self).contents(),
    ;

    fn voted_for(&self) -> (v: Option<ServerId>)
        ensures
            v == self.stored_vote(),
    ;

    fn set_voted_for(&mut self, v: Option<ServerId>)
        ensures
            final(self).stored_vote() == v,
            final(self).stored_term() == old(self).stored_term(),
            final(self).contents() == old(self).contents(),
    ;

    fn latest_log_index(&self) -> (i: LogIndex)
        ensures
            i as nat == self.contents().len(),
    ;

    fn latest_log_term(&self) -> (t: Term)
        ensures
            t == term_at(self.contents(), self.contents().len() as int),
    ;

    fn entry(&self, i: LogIndex) -> (e: (Term, Vec<u8>))
        requires
            1 <= i <= self.contents().len(),
        ensures
            (e.0, e.1@) == self.contents()[i - 1],
    ;

    /// Entries at one-based positions `from..until` (half-open).
    fn entries(&self, from: LogIndex, until: LogIndex) -> (es: Vec<Entry>)
        requires
            1 <= from <= until,
            until as nat <= self.contents().len() + 1,
        ensures
            views_of(es@) == self.contents().subrange(from - 1, until - 1),
    ;

    /// Truncates any entries at positions `>= from`, then appends `entries` there.
    fn append_entries(&mut self, from: LogIndex, entries: &Vec<Entry>)
        requires
            1 <= from,
            from as nat <= old(self).contents().len() + 1,
        ensures
            final(self).contents() == old(self).contents().take(from - 1) + views_of(entries@),
            final(self).stored_term() == old(self).stored_term(),
            final(self).stored_vote() == old(self).stored_vote(),
    ;

    /// Retains only the entries at positions `1..=lo`; a `lo` at or beyond
    /// the end leaves the log as it is.
    fn truncate(&mut self, lo: LogIndex)
        ensures
            final(self).contents() == (if lo as nat >= old(self).contents().len() {
                old(self).contents()
            } else {
                old(self).contents().take(lo as int)
            }),
            final(self).stored_term() == old(self).stored_term(),
            final(self).stored_vote() == old(self).stored_vote(),
    ;

    /// Returns the entries at positions `> lo`, in order, without removing them;
    /// callers that want them gone follow up with [`Log::truncate`].
    fn rollback(&mut self, lo: LogIndex) -> (es: Vec<Entry>)
        requires
            lo as nat <= old(self).contents().len(),
        ensures
            views_of(es@) == old(self).contents().skip(lo as int),
            final(self).contents() == old(self).contents(),
            final(self).stored_term() == old(self).stored_term(),
            final(self).stored_vote() == old(self).stored_vote(),
    ;
}

/// In-memory reference implementation of [`Log`].
#[derive(Debug)]
pub struct MemLog {
    pub entries: Vec<Entry>,
    pub term: Term,
    pub vote: Option<ServerId>,
}

impl MemLog {
    /// Creates an empty log at term 0 with no vote recorded.
    pub fn new() -> (l: MemLog)
        ensures
            l.contents() == Seq::<(Term, Seq<u8>)>::empty(),
            l.stored_term() == 0,
            l.stored_vote() is None,
    {
        let l = MemLog { entries: Vec::new(), term: 0, vote: None };
        proof {
            assert(l.contents() =~= Seq::<(Term, Seq<u8>)>::empty());
        }
        l
    }
}

impl Log for MemLog {
    open spec fn contents(&self) -> LogContents {
        views_of(self.entries@)
    }

    open spec fn stored_term(&self) -> Term {
        self.term
    }

    open spec fn stored_vote(&self) -> Option<ServerId> {
        self.vote
    }

    fn current_term(&self) -> (t: Term) {
        self.term
    }

    fn set_current_term(&mut self, t: Term) {
        self.term = t;
        self.vote = None;
    }

    fn inc_current_term(&mut self) -> (t: Term) {
        self.term = self.term + 1;
        self.vote = None;
        self.term
    }

    fn voted_for(&self) -> (v: Option<ServerId>) {
        self.vote
    }

    fn set_voted_for(&mut self, v: Option<ServerId>) {
        self.vote = v;
    }

    fn latest_log_index(&self) -> (i: LogIndex) {
        self.entries.len() as u64
    }

    fn latest_log_term(&self) -> (t: Term) {
        let n = self.entries.len();
        if n == 0 {
            0
        } else {
            self.entries[n - 1].term
        }
    }

    fn entry(&self, i: LogIndex) -> (e: (Term, Vec<u8>)) {
        let n: usize = self.entries.len();
        let e = &self.entries[(i - 1) as usize];
        (e.term, clone_bytes(&e.command))
    }

    fn entries(&self, from: LogIndex, until: LogIndex) -> (es: Vec<Entry>) {
        let n: usize = self.entries.len();
        let mut es: Vec<Entry> = Vec::new();
        let mut i: usize = (from - 1) as usize;
        let hi: usize = (until - 1) as usize;
        while i < hi
            invariant
                from - 1 <= i <= hi,
                hi as nat <= self.entries@.len(),
                es@.len() == i - (from - 1),
                forall|j: int| 0 <= j < es@.len() ==> #[trigger] es@[j]@ == self.entries@[from - 1 + j]@,
            decreases hi - i,
        {
            let e = &self.entries[i];
            es.push(Entry { term: e.term, command: clone_bytes(&e.command) });
            i = i + 1;
        }
        proof {
            assert(views_of(es@) =~= self.contents().subrange(from - 1, until - 1));
        }
        es
    }

    fn append_entries(&mut self, from: LogIndex, entries: &Vec<Entry>) {
        let n: usize = self.entries.len();
        self.entries.truncate((from - 1) as usize);
        let mut appended = clone_entries(entries);
        self.entries.append(&mut appended);
        proof {
            assert(self.contents() =~= old(self).contents().take(from - 1) + views_of(
                entries@,
            ));
        }
    }

    fn truncate(&mut self, lo: LogIndex) {
        let n: usize = self.entries.len();
        if lo < n as u64 {
            self.entries.truncate(lo as usize);
            proof {
                assert(self.contents() =~= old(self).contents().take(lo as int));
            }
        }
    }

    fn rollback(&mut self, lo: LogIndex) -> (es: Vec<Entry>) {
        let hi: usize = self.entries.len();
        let mut es: Vec<Entry> = Vec::new();
        let mut i: usize = lo as usize;
        while i < hi
            invariant
                lo <= i <= hi,
                hi == self.entries@.len(),
                self == old(self),
                es@.len() == i - lo,
                forall|j: int| 0 <= j < es@.len() ==> #[trigger] es@[j]@ == self.entries@[lo + j]@,
            decreases hi - i,
        {
            let e = &self.entries[i];
            es.push(Entry { term: e.term, command: clone_bytes(&e.command) });
            i = i + 1;
        }
        proof {
            assert(views_of(es@) =~= old(self).contents().skip(lo as int));
        }
        es
    }
}

} // verus!
