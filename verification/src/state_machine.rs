//! The application state machine: commands committed by consensus are applied
//! to it in a globally consistent order. The model of a machine is the
//! sequence of commands it has applied, in order; `revert` undoes the most
//! recently applied command during a transactional rollback.

use vstd::prelude::*;

use crate::bytes_equal;

verus! {

/// Failure of an application state machine. The consensus core treats such a
/// failure as fatal for the instance and surfaces it unchanged.
#[derive(Debug)]
pub enum StateMachineError {
    Io(String),
    Serialization(String),
    Deserialization(String),
    Other(String),
}

/// A single instance of the distributed application. Commands arrive through
/// `apply` once committed; `query` reads without mutating; `revert` undoes the
/// latest applied command so that a transaction can roll back.
pub trait StateMachine: Sized {
    /// The commands this machine has applied, in order.
    spec fn applied(&self) -> Seq<Seq<u8>>;

    /// The response `apply` returns for `command` on a machine that has
    /// applied `s`: a function of the command and that state alone, so that
    /// every replica answers a committed command alike.
    spec fn response_of(s: Seq<Seq<u8>>, command: Seq<u8>) -> Seq<u8>;

    /// The answer `query` returns on a machine that has applied `s`.
    spec fn query_of(s: Seq<Seq<u8>>, query: Seq<u8>) -> Seq<u8>;

    /// Applies a committed command; returns the application's response.
    fn apply(&mut self, command: &[u8]) -> (r: Result<Vec<u8>, StateMachineError>)
        ensures
            r matches Ok(v) ==> final(self).applied() == old(self).applied().push(command@)
                && v@ == Self::response_of(old(self).applied(), command@),
            r is Err ==> final(self).applied() == old(self).applied(),
    ;

    /// Answers a read-only query against the last applied state.
    fn query(&self, query: &[u8]) -> (r: Result<Vec<u8>, StateMachineError>)
        ensures
            r matches Ok(v) ==> v@ == Self::query_of(self.applied(), query@),
    ;

    /// Produces an opaque snapshot blob of the current state.
    fn snapshot(&self) -> Result<Vec<u8>, StateMachineError>;

    /// Replaces the current state with the one captured in `snapshot`.
    fn restore_snapshot(&mut self, snapshot: Vec<u8>) -> Result<(), StateMachineError>;

    /// Undoes the most recently applied command. Succeeds only if `command` is
    /// in fact that command; on failure the state is unchanged.
    fn revert(&mut self, command: &[u8]) -> (r: Result<(), StateMachineError>)
        ensures
            r is Ok ==> old(self).applied().len() > 0 && old(self).applied().last() == command@
                && final(self).applied() == old(self).applied().drop_last(),
            r is Err ==> final(self).applied() == old(self).applied(),
    ;

    /// Hook invoked after the last `revert` of a rollback, for resetting
    /// transient caches. Must not change the applied state.
    fn rollback(&mut self)
        ensures
            final(self).applied() == old(self).applied(),
    ;
}

/// A state machine that stores nothing beyond the commands it has seen;
/// useful for exercising the consensus core.
#[derive(Debug)]
pub struct NullStateMachine {
    pub commands: Vec<Vec<u8>>,
}

impl NullStateMachine {
    pub fn new() -> (m: NullStateMachine)
        ensures
            m.applied() == Seq::<Seq<u8>>::empty(),
    {
        let m = NullStateMachine { commands: Vec::new() };
        proof {
            assert(m.applied() =~= Seq::<Seq<u8>>::empty());
        }
        m
    }
}

impl StateMachine for NullStateMachine {
    open spec fn applied(&self) -> Seq<Seq<u8>> {
        self.commands@.map_values(|c: Vec<u8>| c@)
    }

    open spec fn response_of(s: Seq<Seq<u8>>, command: Seq<u8>) -> Seq<u8> {
        Seq::empty()
    }

    open spec fn query_of(s: Seq<Seq<u8>>, query: Seq<u8>) -> Seq<u8> {
        Seq::empty()
    }

    fn apply(&mut self, command: &[u8]) -> (r: Result<Vec<u8>, StateMachineError>) {
        self.commands.push(vstd::slice::slice_to_vec(command));
        let response: Vec<u8> = Vec::new();
        proof {
            assert(self.applied() =~= old(self).applied().push(command@));
            assert(response@ =~= Seq::<u8>::empty());
        }
        Ok(response)
    }

    fn query(&self, query: &[u8]) -> (r: Result<Vec<u8>, StateMachineError>) {
        let r: Vec<u8> = Vec::new();
        proof {
            assert(r@ =~= Seq::<u8>::empty());
        }
        Ok(r)
    }

    fn snapshot(&self) -> Result<Vec<u8>, StateMachineError> {
        let mut blob: Vec<u8> = Vec::new();
        let mut i: usize = 0;
        while i < self.commands.len()
            decreases self.commands@.len() - i,
        {
            let mut piece = crate::clone_bytes(&self.commands[i]);
            blob.append(&mut piece);
            blob.push(0);
            i = i + 1;
        }
        Ok(blob)
    }

    fn restore_snapshot(&mut self, snapshot: Vec<u8>) -> Result<(), StateMachineError> {
        Err(StateMachineError::Other(String::new()))
    }

    fn revert(&mut self, command: &[u8]) -> (r: Result<(), StateMachineError>) {
        let n = self.commands.len();
        if n == 0 {
            return Err(StateMachineError::Other(String::new()));
        }
        if !bytes_equal(self.commands[n - 1].as_slice(), command) {
            return Err(StateMachineError::Other(String::new()));
        }
        self.commands.pop();
        proof {
            assert(self.applied() =~= old(self).applied().drop_last());
        }
        Ok(())
    }

    fn rollback(&mut self) {
    }
}

/// A state machine that answers every command and query with its own bytes;
/// it makes the acknowledgement payloads the consensus core promises
/// observable.
#[derive(Debug)]
pub struct EchoStateMachine {
    pub commands: Vec<Vec<u8>>,
}

impl EchoStateMachine {
    pub fn new() -> (m: EchoStateMachine)
        ensures
            m.applied() == Seq::<Seq<u8>>::empty(),
    {
        let m = EchoStateMachine { commands: Vec::new() };
        proof {
            assert(m.applied() =~= Seq::<Seq<u8>>::empty());
        }
        m
    }
}

impl StateMachine for EchoStateMachine {
    open spec fn applied(&self) -> Seq<Seq<u8>> {
        self.commands@.map_values(|c: Vec<u8>| c@)
    }

    open spec fn response_of(s: Seq<Seq<u8>>, command: Seq<u8>) -> Seq<u8> {
        command
    }

    open spec fn query_of(s: Seq<Seq<u8>>, query: Seq<u8>) -> Seq<u8> {
        query
    }

    fn apply(&mut self, command: &[u8]) -> (r: Result<Vec<u8>, StateMachineError>) {
        self.commands.push(vstd::slice::slice_to_vec(command));
        proof {
            assert(self.applied() =~= old(self).applied().push(command@));
        }
        Ok(vstd::slice::slice_to_vec(command))
    }

    fn query(&self, query: &[u8]) -> (r: Result<Vec<u8>, StateMachineError>) {
        Ok(vstd::slice::slice_to_vec(query))
    }

    fn snapshot(&self) -> Result<Vec<u8>, StateMachineError> {
        let mut blob: Vec<u8> = Vec::new();
        let mut i: usize = 0;
        while i < self.commands.len()
            decreases self.commands@.len() - i,
        {
            let mut piece = crate::clone_bytes(&self.commands[i]);
            blob.append(&mut piece);
            blob.push(0);
            i = i + 1;
        }
        Ok(blob)
    }

    fn restore_snapshot(&mut self, snapshot: Vec<u8>) -> Result<(), StateMachineError> {
        Err(StateMachineError::Other(String::new()))
    }

    fn revert(&mut self, command: &[u8]) -> (r: Result<(), StateMachineError>) {
        let n = self.commands.len();
        if n == 0 {
            return Err(StateMachineError::Other(String::new()));
        }
        if !bytes_equal(self.commands[n - 1].as_slice(), command) {
            return Err(StateMachineError::Other(String::new()));
        }
        self.commands.pop();
        proof {
            assert(self.applied() =~= old(self).applied().drop_last());
        }
        Ok(())
    }

    fn rollback(&mut self) {
    }
}

} // verus!
