//! A FIFO queue with a fixed capacity: a transactional count of free places
//! makes pushes block while the queue is full.
use crate::cells::{new_slot_cell, read_cell, retry, slots_created_with, write_cell};
use crate::queue::{Queue, QueueOp};
use stm::{StmError, StmResult, TVar, Transaction};
use vstd::prelude::*;

verus! {

/// The free places and the queued items together make up the capacity.
pub open spec fn slots_consistent(remaining: nat, queued: nat, capacity: nat) -> bool {
    remaining + queued == capacity
}

/// The free places after one is taken, or `None` where a push has to block.
pub open spec fn after_reserve(remaining: nat) -> Option<nat> {
    if remaining == 0 {
        None
    } else {
        Some((remaining - 1) as nat)
    }
}

/// The free places after an item leaves; never more than the capacity.
pub open spec fn after_release(remaining: nat, capacity: nat) -> nat {
    if remaining < capacity {
        remaining + 1
    } else {
        remaining
    }
}

/// One free place fewer, or `None` when none is left.
pub fn reserve_slot(remaining: usize) -> (r: Option<usize>)
    ensures
        r is None <==> after_reserve(remaining as nat) is None,
        r matches Some(c) ==> after_reserve(remaining as nat) == Some(c as nat),
{
    if remaining == 0 {
        None
    } else {
        Some(remaining - 1)
    }
}

/// One free place more, up to `capacity`.
pub fn release_slot(remaining: usize, capacity: usize) -> (r: usize)
    ensures
        r as nat == after_release(remaining as nat, capacity as nat),
{
    if remaining < capacity {
        remaining + 1
    } else {
        remaining
    }
}

/// The capacity is kept: from a consistent state, no more than `capacity`
/// items are queued, a push blocks exactly when that many are, and a push
/// that goes through or a pop that takes an item leave the state consistent.
pub proof fn lemma_capacity_kept(remaining: nat, queued: nat, capacity: nat)
    requires
        slots_consistent(remaining, queued, capacity),
    ensures
        queued <= capacity,
        after_reserve(remaining) is None <==> queued == capacity,
        after_reserve(remaining) matches Some(r) ==> slots_consistent(r, queued + 1, capacity),
        queued > 0 ==> slots_consistent(
            after_release(remaining, capacity),
            (queued - 1) as nat,
            capacity,
        ),
{
}

/// The free places and the number of queued items after one attempted
/// operation; a push on a full queue or a pop on an empty one blocks, and
/// leaves both as they were.
pub open spec fn bounded_step<T>(remaining: nat, queued: nat, capacity: nat, op: QueueOp<T>) -> (
    nat,
    nat,
) {
    match op {
        QueueOp::Pop => if queued > 0 {
            (after_release(remaining, capacity), (queued - 1) as nat)
        } else {
            (remaining, queued)
        },
        _ => match after_reserve(remaining) {
            Some(r) => (r, queued + 1),
            None => (remaining, queued),
        },
    }
}

/// The free places and the number of queued items after a run of attempts.
pub open spec fn bounded_run<T>(
    remaining: nat,
    queued: nat,
    capacity: nat,
    ops: Seq<QueueOp<T>>,
) -> (nat, nat)
    decreases ops.len(),
{
    if ops.len() == 0 {
        (remaining, queued)
    } else {
        let (r, q) = bounded_step(remaining, queued, capacity, ops[0]);
        bounded_run(r, q, capacity, ops.drop_first())
    }
}

/// Every state that a run reaches from a consistent one is consistent, so
/// the queue never holds more than `capacity` items.
pub proof fn lemma_capacity_kept_over_run<T>(
    remaining: nat,
    queued: nat,
    capacity: nat,
    ops: Seq<QueueOp<T>>,
)
    requires
        slots_consistent(remaining, queued, capacity),
    ensures
        slots_consistent(
            bounded_run(remaining, queued, capacity, ops).0,
            bounded_run(remaining, queued, capacity, ops).1,
            capacity,
        ),
        bounded_run(remaining, queued, capacity, ops).1 <= capacity,
    decreases ops.len(),
{
    if ops.len() > 0 {
        lemma_capacity_kept(remaining, queued, capacity);
        let (r, q) = bounded_step(remaining, queued, capacity, ops[0]);
        lemma_capacity_kept_over_run(r, q, capacity, ops.drop_first());
    }
}

/// A queue that holds at most `capacity` items. Each operation runs inside
/// the caller's transaction; clones share the same cells.
#[derive(Clone)]
#[verifier::reject_recursive_types(T)]
pub struct BoundedQueue<T> {
    queue: Queue<T>,
    cap: TVar<usize>,
    capacity: usize,
}

impl<T: 'static + Send + Sync + Clone> BoundedQueue<T> {
    /// The number of items that the queue was made to hold.
    pub closed spec fn capacity(&self) -> usize {
        self.capacity
    }

    /// The number of free places that the queue was made with.
    pub closed spec fn initial_free(&self) -> usize {
        slots_created_with(self.cap)
    }

    /// A new, empty queue with room for `capacity` items: all its places
    /// are free.
    pub fn new(capacity: usize) -> (r: BoundedQueue<T>)
        ensures
            r.capacity() == capacity,
            r.initial_free() == capacity,
    {
        BoundedQueue { queue: Queue::new(), cap: new_slot_cell(capacity), capacity }
    }

    /// Adds `val` at the end; retries while the queue is full.
    pub fn push(&self, trans: &mut Transaction, val: T) -> (r: StmResult<()>)
        ensures
            r is Err ==> r->Err_0 == StmError::Retry,
    {
        let cap = read_cell(&self.cap, trans)?;
        match reserve_slot(cap) {
            Some(c) => {
                write_cell(&self.cap, trans, c)?;
                self.queue.push(trans, val)
            },
            None => retry(),
        }
    }

    /// Adds `value` at the front, so that the next pop returns it; retries
    /// while the queue is full.
    pub fn push_front(&self, trans: &mut Transaction, value: T) -> (r: StmResult<()>)
        ensures
            r is Err ==> r->Err_0 == StmError::Retry,
    {
        let cap = read_cell(&self.cap, trans)?;
        match reserve_slot(cap) {
            Some(c) => {
                write_cell(&self.cap, trans, c)?;
                self.queue.push_front(trans, value)
            },
            None => retry(),
        }
    }

    /// The first item, left in place; `None` when the queue is empty.
    pub fn try_peek(&self, trans: &mut Transaction) -> (r: StmResult<Option<T>>)
        ensures
            r is Ok,
    {
        self.queue.try_peek(trans)
    }

    /// The first item, left in place; retries while the queue is empty.
    pub fn peek(&self, trans: &mut Transaction) -> (r: StmResult<T>)
        ensures
            r is Err ==> r->Err_0 == StmError::Retry,
    {
        self.queue.peek(trans)
    }

    /// Takes the first item out, freeing its place; `None` when the queue is
    /// empty.
    pub fn try_pop(&self, trans: &mut Transaction) -> (r: StmResult<Option<T>>)
        ensures
            r is Ok,
    {
        let v = self.queue.try_pop(trans)?;
        if v.is_some() {
            let cap = read_cell(&self.cap, trans)?;
            write_cell(&self.cap, trans, release_slot(cap, self.capacity))?;
        }
        Ok(v)
    }

    /// Takes the first item out, freeing its place; retries while the queue
    /// is empty.
    pub fn pop(&self, trans: &mut Transaction) -> (r: StmResult<T>)
        ensures
            r is Err ==> r->Err_0 == StmError::Retry,
    {
        let v = self.queue.pop(trans)?;
        let cap = read_cell(&self.cap, trans)?;
        write_cell(&self.cap, trans, release_slot(cap, self.capacity))?;
        Ok(v)
    }

    /// Whether the queue holds no item.
    pub fn is_empty(&self, trans: &mut Transaction) -> (r: StmResult<bool>)
        ensures
            r is Ok,
    {
        self.queue.is_empty(trans)
    }

    /// Whether no free place is left.
    pub fn is_full(&self, trans: &mut Transaction) -> (r: StmResult<bool>)
        ensures
            r is Ok,
    {
        let cap = read_cell(&self.cap, trans)?;
        Ok(cap == 0)
    }
}

} // verus!
