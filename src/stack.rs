//! A LIFO stack: one transactional cell holding a list, most recent first.
use crate::arclist::ArcList;
use crate::cells::{new_cell, read_cell, retry, write_cell};
use stm::{StmError, StmResult, TVar, Transaction};
use vstd::prelude::*;

verus! {

/// The list of a stack after `xs` are pushed onto `s` one by one.
pub open spec fn stack_pushed<T>(s: Seq<T>, xs: Seq<T>) -> Seq<T>
    decreases xs.len(),
{
    if xs.len() == 0 {
        s
    } else {
        stack_pushed(seq![xs[0]] + s, xs.drop_first())
    }
}

/// The values that `n` pops take from a stack holding `s`.
pub open spec fn stack_popped<T>(s: Seq<T>, n: nat) -> Seq<T>
    decreases n,
{
    if n == 0 || s.len() == 0 {
        Seq::empty()
    } else {
        seq![s[0]] + stack_popped(s.drop_first(), (n - 1) as nat)
    }
}

/// Last in, first out: after pushing `xs` onto any stack, as many pops give
/// `xs` in reverse order and leave the stack as it was.
pub proof fn lemma_lifo<T>(s: Seq<T>, xs: Seq<T>)
    ensures
        stack_pushed(s, xs) == xs.reverse() + s,
        stack_popped(xs.reverse() + s, xs.len()) == xs.reverse(),
    decreases xs.len(),
{
    if xs.len() > 0 {
        let rest = xs.drop_first();
        lemma_lifo(seq![xs[0]] + s, rest);
        assert(xs.reverse() =~= rest.reverse() + seq![xs[0]]) by {
            assert forall|i: int| 0 <= i < xs.len() implies #[trigger] xs.reverse()[i] == (
            rest.reverse() + seq![xs[0]])[i] by {
                if i < rest.len() {
                    assert(rest.reverse()[i] == rest[rest.len() - 1 - i]);
                }
            }
        }
        assert(rest.reverse() + (seq![xs[0]] + s) =~= xs.reverse() + s);
    }
    lemma_popped_prefix(xs.reverse(), s);
}

/// Popping as many items as `a` holds from `a + s` gives `a`.
proof fn lemma_popped_prefix<T>(a: Seq<T>, s: Seq<T>)
    ensures
        stack_popped(a + s, a.len()) == a,
    decreases a.len(),
{
    if a.len() > 0 {
        lemma_popped_prefix(a.drop_first(), s);
        assert((a + s).drop_first() =~= a.drop_first() + s);
        assert(seq![a[0]] + a.drop_first() =~= a);
    } else {
        assert(stack_popped(a + s, 0) =~= a);
    }
}

/// A stack whose list lives in a transactional cell. Each operation runs
/// inside the caller's transaction; clones share the same cell.
#[derive(Clone)]
#[verifier::reject_recursive_types(T)]
pub struct Stack<T> {
    stack: TVar<ArcList<T>>,
}

impl<T: 'static + Send + Sync + Clone> Stack<T> {
    /// A new, empty stack.
    pub fn new() -> Stack<T> {
        Stack { stack: new_cell(ArcList::new()) }
    }

    /// Puts `val` on top.
    pub fn push(&self, trans: &mut Transaction, val: T) -> (r: StmResult<()>)
        ensures
            r is Ok,
    {
        let list = read_cell(&self.stack, trans)?;
        write_cell(&self.stack, trans, list.prepend(val))
    }

    /// Takes the top item; retries while the stack is empty.
    pub fn pop(&self, trans: &mut Transaction) -> (r: StmResult<T>)
        ensures
            r is Err ==> r->Err_0 == StmError::Retry,
    {
        let list = read_cell(&self.stack, trans)?;
        match list.split() {
            Some((x, rest)) => {
                write_cell(&self.stack, trans, rest)?;
                Ok(x)
            },
            None => retry(),
        }
    }

    /// Whether the stack holds no item.
    pub fn is_empty(&self, trans: &mut Transaction) -> (r: StmResult<bool>)
        ensures
            r is Ok,
    {
        let list = read_cell(&self.stack, trans)?;
        Ok(list.is_empty())
    }
}

} // verus!
