//! A counting semaphore: one transactional cell holding the number of tokens.
use crate::cells::{created_with, new_count_cell, read_cell, retry, write_cell};
use stm::{StmError, StmResult, TVar, Transaction};
use vstd::prelude::*;

verus! {

/// The count after a `wait`, or `None` where `wait` has to block.
pub open spec fn after_wait(count: nat) -> Option<nat> {
    if count == 0 {
        None
    } else {
        Some((count - 1) as nat)
    }
}

/// The count after a `signal`.
pub open spec fn after_signal(count: nat) -> nat {
    count + 1
}

/// One token fewer, or `None` when there is none to take.
pub fn take_token(count: u32) -> (r: Option<u32>)
    ensures
        r is None <==> after_wait(count as nat) is None,
        r matches Some(c) ==> after_wait(count as nat) == Some(c as nat),
{
    if count == 0 {
        None
    } else {
        Some(count - 1)
    }
}

/// One token more, or `None` when the count is at the largest `u32`.
pub fn give_token(count: u32) -> (r: Option<u32>)
    ensures
        r is None <==> count == u32::MAX,
        r matches Some(c) ==> c as nat == after_signal(count as nat),
{
    if count == u32::MAX {
        None
    } else {
        Some(count + 1)
    }
}

/// A `wait` at zero blocks, and a `signal` followed by a `wait` leaves the
/// count as it was.
pub proof fn lemma_signal_then_wait(count: nat)
    ensures
        after_wait(0) is None,
        after_wait(after_signal(count)) == Some(count),
{
}

/// A semaphore whose count lives in a transactional cell. Each operation
/// runs inside the caller's transaction; clones share the same cell.
#[derive(Clone)]
pub struct Semaphore {
    num: TVar<u32>,
}

/// Another name for [`Semaphore`].
pub type TSem = Semaphore;

impl Semaphore {
    /// The number of tokens that the semaphore was made with.
    pub closed spec fn initial(&self) -> u32 {
        created_with(self.num)
    }

    /// A semaphore holding `n` tokens.
    pub fn new(n: u32) -> (r: Semaphore)
        ensures
            r.initial() == n,
    {
        Semaphore { num: new_count_cell(n) }
    }

    /// Takes a token; retries while there is none.
    pub fn wait(&self, trans: &mut Transaction) -> (r: StmResult<()>)
        ensures
            r is Err ==> r->Err_0 == StmError::Retry,
    {
        let n = read_cell(&self.num, trans)?;
        match take_token(n) {
            Some(m) => write_cell(&self.num, trans, m),
            None => retry(),
        }
    }

    /// Gives a token back; retries while the count is at the largest `u32`.
    pub fn signal(&self, trans: &mut Transaction) -> (r: StmResult<()>)
        ensures
            r is Err ==> r->Err_0 == StmError::Retry,
    {
        let n = read_cell(&self.num, trans)?;
        match give_token(n) {
            Some(m) => write_cell(&self.num, trans, m),
            None => retry(),
        }
    }
}

} // verus!
