//! A FIFO queue over two lists: items leave from `front`, and new items go
//! onto `back`, most recent first. When `front` runs out, `back` is reversed
//! into it, so that each item is reversed once between its push and its pop.
use crate::arclist::{clone_is_exact, cloned_items, lemma_exact_items, ArcList};
use crate::cells::{new_cell, read_cell, retry, write_cell};
use stm::{StmError, StmResult, TVar, Transaction};
use vstd::prelude::*;

verus! {

/// The items of a queue in the order in which they leave: `front`, then
/// `back` reversed.
pub open spec fn queue_items<T>(front: Seq<T>, back: Seq<T>) -> Seq<T> {
    front + back.reverse()
}

/// The two lists once the first item has left: it comes from `front` when
/// that has one; else `back`, reversed, becomes the new `front`.
pub open spec fn after_pop<T>(front: Seq<T>, back: Seq<T>) -> (Seq<T>, Seq<T>) {
    if front.len() > 0 {
        (front.drop_first(), back)
    } else if back.len() > 0 {
        (back.reverse().drop_first(), Seq::empty())
    } else {
        (front, back)
    }
}

/// How many items a pop reverses.
pub open spec fn reversal_work<T>(front: Seq<T>, back: Seq<T>) -> nat {
    if front.len() == 0 {
        back.len()
    } else {
        0
    }
}

/// The two lists of a queue, as plain values.
pub struct QueueLists<T> {
    pub front: ArcList<T>,
    pub back: ArcList<T>,
}

impl<T> View for QueueLists<T> {
    type V = Seq<T>;

    open spec fn view(&self) -> Seq<T> {
        queue_items(self.front@, self.back@)
    }
}

impl<T> QueueLists<T> {
    /// Two empty lists.
    pub fn new() -> (r: Self)
        ensures
            r.front@ == Seq::<T>::empty(),
            r.back@ == Seq::<T>::empty(),
            r@ == Seq::<T>::empty(),
    {
        let r = QueueLists { front: ArcList::new(), back: ArcList::new() };
        proof {
            assert(r@ =~= Seq::<T>::empty());
        }
        r
    }

    /// Adds `value` at the end of the queue.
    pub fn push(&mut self, value: T)
        ensures
            final(self).front@ == old(self).front@,
            final(self).back@ == seq![value] + old(self).back@,
            final(self)@ == old(self)@.push(value),
    {
        let back = self.back.take();
        self.back = back.prepend(value);
        proof {
            lemma_push_items(old(self).front@, old(self).back@, value);
        }
    }

    /// Adds `value` at the front, so that it is the next to leave.
    pub fn push_front(&mut self, value: T)
        ensures
            final(self).front@ == seq![value] + old(self).front@,
            final(self).back@ == old(self).back@,
            final(self)@ == seq![value] + old(self)@,
    {
        let front = self.front.take();
        self.front = front.prepend(value);
        proof {
            assert(self@ =~= seq![value] + old(self)@);
        }
    }

    /// Whether the queue holds no item.
    pub fn is_empty(&self) -> (r: bool)
        ensures
            r == (self@.len() == 0),
    {
        self.front.is_empty() && self.back.is_empty()
    }
}

impl<T: Clone> QueueLists<T> {
    /// Takes the first item out, or gives `None` when the queue is empty.
    /// The item comes from `front` when that has one; else `back` is
    /// reversed into a new `front` and left empty.
    pub fn try_pop(&mut self) -> (r: Option<T>)
        ensures
            r is None <==> old(self)@.len() == 0,
            r matches Some(x) ==> cloned::<T>(old(self)@[0], x),
            old(self).front@.len() > 0 ==> r == Some(old(self).front@[0]),
            cloned_items(after_pop(old(self).front@, old(self).back@).0, final(self).front@),
            cloned_items(after_pop(old(self).front@, old(self).back@).1, final(self).back@),
            clone_is_exact::<T>() ==> (final(self).front@, final(self).back@) == after_pop(
                old(self).front@,
                old(self).back@,
            ),
    {
        proof {
            lemma_cloned_items_refl(self.back@);
            lemma_cloned_items_refl(self.front@);
        }
        let front = self.front.take();
        match front.split() {
            Some((x, rest)) => {
                self.front = rest;
                Some(x)
            },
            None => {
                let back = self.back.take();
                match back.reverse_split() {
                    Some((x, rest)) => {
                        self.front = rest;
                        proof {
                            lemma_cloned_items_refl(self.back@);
                            if clone_is_exact::<T>() {
                                lemma_exact_items(old(self).back@.reverse().drop_first(), self.front@);
                            }
                        }
                        Some(x)
                    },
                    None => {
                        proof {
                            assert(self.back@ =~= old(self).back@);
                            assert(self.front@ =~= old(self).front@);
                        }
                        None
                    },
                }
            },
        }
    }
}

/// Every list is related to itself by `cloned_items`.
pub proof fn lemma_cloned_items_refl<T: Clone>(a: Seq<T>)
    ensures
        cloned_items(a, a),
{
}

/// Pushing onto `back` adds the item at the end of the queue.
pub proof fn lemma_push_items<T>(front: Seq<T>, back: Seq<T>, value: T)
    ensures
        queue_items(front, seq![value] + back) == queue_items(front, back).push(value),
{
    let b2 = seq![value] + back;
    assert(b2.reverse() =~= back.reverse().push(value)) by {
        assert forall|i: int| 0 <= i < b2.len() implies #[trigger] b2.reverse()[i]
            == back.reverse().push(value)[i] by {
            if i < back.len() {
                assert(b2.reverse()[i] == b2[b2.len() - 1 - i]);
            }
        }
    }
    assert(queue_items(front, b2) =~= queue_items(front, back).push(value));
}

/// A pop takes the first item of the queue, and the rest stays in order.
pub proof fn lemma_pop_items<T>(front: Seq<T>, back: Seq<T>)
    requires
        queue_items(front, back).len() > 0,
    ensures
        queue_items(after_pop(front, back).0, after_pop(front, back).1) == queue_items(
            front,
            back,
        ).drop_first(),
{
    if front.len() > 0 {
        assert(queue_items(front.drop_first(), back) =~= queue_items(front, back).drop_first());
    } else {
        assert(Seq::<T>::empty().reverse() =~= Seq::<T>::empty());
        assert(queue_items(back.reverse().drop_first(), Seq::empty()) =~= queue_items(
            front,
            back,
        ).drop_first());
    }
}

/// One operation on a queue, as the laws below count them.
pub enum QueueOp<T> {
    Push(T),
    PushFront(T),
    Pop,
}

/// The two lists after one operation; a pop on an empty queue leaves them.
pub open spec fn step<T>(front: Seq<T>, back: Seq<T>, op: QueueOp<T>) -> (Seq<T>, Seq<T>) {
    match op {
        QueueOp::Push(v) => (front, seq![v] + back),
        QueueOp::PushFront(v) => (seq![v] + front, back),
        QueueOp::Pop => after_pop(front, back),
    }
}

/// The two lists after a run of operations.
pub open spec fn run<T>(front: Seq<T>, back: Seq<T>, ops: Seq<QueueOp<T>>) -> (Seq<T>, Seq<T>)
    decreases ops.len(),
{
    if ops.len() == 0 {
        (front, back)
    } else {
        let (f, b) = step(front, back, ops[0]);
        run(f, b, ops.drop_first())
    }
}

/// How many items a run of operations reverses in all.
pub open spec fn total_work<T>(front: Seq<T>, back: Seq<T>, ops: Seq<QueueOp<T>>) -> nat
    decreases ops.len(),
{
    if ops.len() == 0 {
        0
    } else {
        let (f, b) = step(front, back, ops[0]);
        let w = match ops[0] {
            QueueOp::Pop => reversal_work(front, back),
            _ => 0,
        };
        w + total_work(f, b, ops.drop_first())
    }
}

/// The values pushed at the end by a run, in order.
pub open spec fn pushed<T>(ops: Seq<QueueOp<T>>) -> Seq<T>
    decreases ops.len(),
{
    if ops.len() == 0 {
        Seq::empty()
    } else {
        let first = match ops[0] {
            QueueOp::Push(v) => seq![v],
            _ => Seq::empty(),
        };
        first + pushed(ops.drop_first())
    }
}

/// The values that the pops of a run take out, in order.
pub open spec fn popped<T>(front: Seq<T>, back: Seq<T>, ops: Seq<QueueOp<T>>) -> Seq<T>
    decreases ops.len(),
{
    if ops.len() == 0 {
        Seq::empty()
    } else {
        let (f, b) = step(front, back, ops[0]);
        let items = queue_items(front, back);
        let first = if ops[0] is Pop && items.len() > 0 {
            seq![items[0]]
        } else {
            Seq::empty()
        };
        first + popped(f, b, ops.drop_first())
    }
}

/// Each item is reversed at most once: over any run, the items reversed
/// number at most those waiting in `back` at the start plus those pushed.
pub proof fn lemma_reversal_work_amortized<T>(
    front: Seq<T>,
    back: Seq<T>,
    ops: Seq<QueueOp<T>>,
)
    ensures
        total_work(front, back, ops) <= back.len() + pushed(ops).len(),
    decreases ops.len(),
{
    if ops.len() > 0 {
        let (f, b) = step(front, back, ops[0]);
        lemma_reversal_work_amortized(f, b, ops.drop_first());
    }
}

/// First in, first out: over a run without `push_front`, the items taken out
/// followed by those left are the items at the start followed by those
/// pushed, whatever the interleaving of pushes and pops.
pub proof fn lemma_fifo<T>(front: Seq<T>, back: Seq<T>, ops: Seq<QueueOp<T>>)
    requires
        forall|i: int| 0 <= i < ops.len() ==> !(#[trigger] ops[i] is PushFront),
    ensures
        popped(front, back, ops) + queue_items(run(front, back, ops).0, run(front, back, ops).1)
            == queue_items(front, back) + pushed(ops),
    decreases ops.len(),
{
    if ops.len() > 0 {
        let (f, b) = step(front, back, ops[0]);
        let rest = ops.drop_first();
        assert forall|i: int| 0 <= i < rest.len() implies !(#[trigger] rest[i] is PushFront) by {
            assert(rest[i] == ops[i + 1]);
        }
        lemma_fifo(f, b, rest);
        let items = queue_items(front, back);
        let p = popped(f, b, rest);
        let left = queue_items(run(f, b, rest).0, run(f, b, rest).1);
        match ops[0] {
            QueueOp::Push(v) => {
                lemma_push_items(front, back, v);
                assert(pushed(ops) =~= seq![v] + pushed(rest));
                assert(popped(front, back, ops) =~= p);
                assert(items + pushed(ops) =~= items.push(v) + pushed(rest));
            },
            QueueOp::PushFront(_) => {},
            QueueOp::Pop => {
                assert(pushed(ops) =~= pushed(rest));
                if items.len() > 0 {
                    lemma_pop_items(front, back);
                    assert(popped(front, back, ops) =~= seq![items[0]] + p);
                    assert(seq![items[0]] + p + left =~= seq![items[0]] + (p + left));
                    assert(seq![items[0]] + items.drop_first() =~= items);
                    assert(seq![items[0]] + (items.drop_first() + pushed(rest)) =~= items
                        + pushed(rest));
                } else {
                    assert(popped(front, back, ops) =~= p);
                    assert(after_pop(front, back) == (front, back));
                }
            },
        }
    }
}

/// Nothing is lost or taken twice: when a run without `push_front` starts
/// from an empty queue and pops as many items as it pushes, in whatever
/// interleaving, it takes out exactly the pushed values, in push order.
pub proof fn lemma_no_loss<T>(front: Seq<T>, back: Seq<T>, ops: Seq<QueueOp<T>>)
    requires
        forall|i: int| 0 <= i < ops.len() ==> !(#[trigger] ops[i] is PushFront),
        queue_items(front, back).len() == 0,
        popped(front, back, ops).len() == pushed(ops).len(),
    ensures
        popped(front, back, ops) == pushed(ops),
        popped(front, back, ops).to_multiset() == pushed(ops).to_multiset(),
{
    lemma_fifo(front, back, ops);
    let p = popped(front, back, ops);
    let left = queue_items(run(front, back, ops).0, run(front, back, ops).1);
    assert(queue_items(front, back) + pushed(ops) =~= pushed(ops));
    assert(p =~= (p + left).subrange(0, p.len() as int));
}

/// A FIFO queue whose two lists live in transactional cells. Each operation
/// runs inside the caller's transaction; clones share the same cells.
#[derive(Clone)]
#[verifier::reject_recursive_types(T)]
pub struct Queue<T> {
    read: TVar<ArcList<T>>,
    write: TVar<ArcList<T>>,
}

/// Another name for [`Queue`].
pub type TQueue<T> = Queue<T>;

impl<T: 'static + Send + Sync + Clone> Queue<T> {
    /// A new, empty queue.
    pub fn new() -> Queue<T> {
        Queue { read: new_cell(ArcList::new()), write: new_cell(ArcList::new()) }
    }

    /// Adds `value` at the end of the queue.
    pub fn push(&self, trans: &mut Transaction, value: T) -> (r: StmResult<()>)
        ensures
            r is Ok,
    {
        let back = read_cell(&self.write, trans)?;
        write_cell(&self.write, trans, back.prepend(value))
    }

    /// Adds `value` at the front: the next pop returns it.
    pub fn push_front(&self, trans: &mut Transaction, value: T) -> (r: StmResult<()>)
        ensures
            r is Ok,
    {
        let front = read_cell(&self.read, trans)?;
        write_cell(&self.read, trans, front.prepend(value))
    }

    /// The first item, left in place; `None` when the queue is empty.
    pub fn try_peek(&self, trans: &mut Transaction) -> (r: StmResult<Option<T>>)
        ensures
            r is Ok,
    {
        let v = self.try_pop(trans)?;
        if let Some(e) = &v {
            self.push_front(trans, e.clone())?;
        }
        Ok(v)
    }

    /// The first item, left in place; retries while the queue is empty.
    pub fn peek(&self, trans: &mut Transaction) -> (r: StmResult<T>)
        ensures
            r is Err ==> r->Err_0 == StmError::Retry,
    {
        let v = self.pop(trans)?;
        self.push_front(trans, v.clone())?;
        Ok(v)
    }

    /// Takes the first item out; `None` when the queue is empty. The step
    /// on the two lists read is `QueueLists::try_pop`; `back` is read, and
    /// written, only when `front` is empty, since only then does the step
    /// use it.
    pub fn try_pop(&self, trans: &mut Transaction) -> (r: StmResult<Option<T>>)
        ensures
            r is Ok,
    {
        let front = read_cell(&self.read, trans)?;
        let front_empty = front.is_empty();
        let back = if front_empty {
            read_cell(&self.write, trans)?
        } else {
            ArcList::new()
        };
        let mut lists = QueueLists { front, back };
        let r = lists.try_pop();
        write_cell(&self.read, trans, lists.front)?;
        if front_empty {
            write_cell(&self.write, trans, lists.back)?;
        }
        Ok(r)
    }

    /// Takes the first item out; retries while the queue is empty.
    pub fn pop(&self, trans: &mut Transaction) -> (r: StmResult<T>)
        ensures
            r is Err ==> r->Err_0 == StmError::Retry,
    {
        match self.try_pop(trans)? {
            Some(x) => Ok(x),
            None => retry(),
        }
    }

    /// Whether both lists are empty.
    pub fn is_empty(&self, trans: &mut Transaction) -> (r: StmResult<bool>)
        ensures
            r is Ok,
    {
        let front = read_cell(&self.read, trans)?;
        if !front.is_empty() {
            return Ok(false);
        }
        let back = read_cell(&self.write, trans)?;
        Ok(back.is_empty())
    }
}

} // verus!
