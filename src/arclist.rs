//! A persistent singly linked list whose tails are shared through `Arc`.
use std::sync::Arc;
use vstd::prelude::*;

verus! {

/// Position by position, `b` holds the item of `a` or a clone of it.
pub open spec fn cloned_items<T: Clone>(a: Seq<T>, b: Seq<T>) -> bool {
    &&& a.len() == b.len()
    &&& forall|i: int| 0 <= i < a.len() ==> cloned::<T>(#[trigger] a[i], b[i])
}

/// Cloning a `T` always gives back an equal value (as for integers).
pub open spec fn clone_is_exact<T: Clone>() -> bool {
    forall|a: T, b: T| #[trigger] cloned::<T>(a, b) ==> a == b
}

/// When cloning is exact, lists related by `cloned_items` are equal.
pub proof fn lemma_exact_items<T: Clone>(a: Seq<T>, b: Seq<T>)
    requires
        clone_is_exact::<T>(),
        cloned_items(a, b),
    ensures
        a == b,
{
    assert forall|i: int| 0 <= i < a.len() implies a[i] == b[i] by {
        assert(cloned::<T>(a[i], b[i]));
    }
    assert(a =~= b);
}

/// Relies on std's `Arc::try_unwrap`: it hands out the value when this `Arc`
/// was its only owner, and otherwise gives the same `Arc` back.
#[verifier::external_body]
fn reclaim<T>(a: Arc<T>) -> (r: Result<T, Arc<T>>)
    ensures
        match r {
            Ok(t) => t == *a,
            Err(b) => b == a,
        },
    opens_invariants none
    no_unwind
{
    Arc::try_unwrap(a)
}

/// Relies on std's `Arc::clone`: the new pointer shares the same value.
#[verifier::external_body]
fn share<T>(a: &Arc<T>) -> (r: Arc<T>)
    ensures
        r == *a,
{
    Arc::clone(a)
}

/// The nodes of a list: an item followed by a shared tail, or the end.
pub enum Prim<T> {
    Elem(T, Arc<Prim<T>>),
    End,
}

impl<T> View for Prim<T> {
    type V = Seq<T>;

    open spec fn view(&self) -> Seq<T> {
        self.items()
    }
}

impl<T> Prim<T> {
    /// The items from this node to the end.
    pub open spec fn items(&self) -> Seq<T>
        decreases self,
    {
        match self {
            Prim::Elem(x, xs) => seq![*x] + (**xs).items(),
            Prim::End => Seq::empty(),
        }
    }

    /// A new node holding `t` in front of this chain, which is left intact.
    pub fn prepend(self, t: T) -> (r: Self)
        ensures
            r@ == seq![t] + self@,
    {
        Prim::Elem(t, Arc::new(self))
    }

    /// Releases the chain node by node, and stops at the first tail that
    /// another owner still holds.
    pub fn destroy(self)
        opens_invariants none
        no_unwind
    {
        let mut slf = self;
        loop
            decreases slf@.len(),
        {
            match slf {
                Prim::Elem(_, tail) => {
                    match reclaim(tail) {
                        Ok(t) => {
                            slf = t;
                        },
                        Err(_) => {
                            return;
                        },
                    }
                },
                Prim::End => {
                    return;
                },
            }
        }
    }
}

impl<T: Clone> Prim<T> {
    /// A new chain with the items in the opposite order, built by a loop so
    /// that long chains need no deep recursion; this chain is left intact.
    pub fn reverse(&self) -> (r: Self)
        ensures
            cloned_items(self@.reverse(), r@),
            clone_is_exact::<T>() ==> r@ == self@.reverse(),
    {
        let mut new_list = Prim::End;
        let mut ls: &Prim<T> = self;
        let ghost mut k: int = 0;
        loop
            invariant
                0 <= k <= self@.len(),
                ls@ == self@.skip(k),
                new_list@.len() == k,
                forall|i: int| 0 <= i < k ==> cloned::<T>(#[trigger] self@[k - 1 - i], new_list@[i]),
            decreases ls@.len(),
        {
            match ls {
                Prim::Elem(x, xs) => {
                    proof {
                        assert(ls@ == seq![*x] + (**xs)@);
                        assert(self@.skip(k)[0] == self@[k]);
                    }
                    let y = x.clone();
                    let ghost prev = new_list@;
                    new_list = new_list.prepend(y);
                    ls = &**xs;
                    proof {
                        assert(self@.skip(k + 1) =~= self@.skip(k).drop_first());
                        assert forall|i: int| 0 <= i < k + 1 implies cloned::<T>(
                            #[trigger] self@[k + 1 - 1 - i],
                            new_list@[i],
                        ) by {
                            if i > 0 {
                                assert(new_list@[i] == prev[i - 1]);
                                assert(self@[k + 1 - 1 - i] == self@[k - 1 - (i - 1)]);
                            }
                        }
                        k = k + 1;
                    }
                },
                Prim::End => {
                    proof {
                        assert(self@.skip(k).len() == 0);
                        assert forall|i: int| 0 <= i < self@.len() implies cloned::<T>(
                            #[trigger] self@.reverse()[i],
                            new_list@[i],
                        ) by {
                            assert(self@.reverse()[i] == self@[k - 1 - i]);
                        }
                        if clone_is_exact::<T>() {
                            lemma_exact_items(self@.reverse(), new_list@);
                        }
                    }
                    return new_list;
                },
            }
        }
    }
}

impl<T: Clone> Prim<T> {
    /// The last item, and the chain of the others in reverse order: what
    /// `reverse` followed by taking the first item gives, with each item
    /// cloned once. `None` for the empty chain.
    pub fn reverse_split(&self) -> (r: Option<(T, Prim<T>)>)
        ensures
            r is None <==> self@.len() == 0,
            r matches Some((x, rest)) ==> {
                &&& cloned::<T>(self@.reverse()[0], x)
                &&& cloned_items(self@.reverse().drop_first(), rest@)
            },
    {
        let mut new_list = Prim::End;
        let mut ls: &Prim<T> = self;
        let ghost mut k: int = 0;
        loop
            invariant
                0 <= k <= self@.len(),
                ls@ == self@.skip(k),
                k > 0 ==> ls@.len() > 0,
                new_list@.len() == k,
                forall|i: int| 0 <= i < k ==> cloned::<T>(#[trigger] self@[k - 1 - i], new_list@[i]),
            decreases ls@.len(),
        {
            match ls {
                Prim::Elem(x, xs) => {
                    proof {
                        assert(ls@ == seq![*x] + (**xs)@);
                        assert(self@.skip(k)[0] == self@[k]);
                        assert(self@.skip(k + 1) =~= self@.skip(k).drop_first());
                    }
                    match &**xs {
                        Prim::End => {
                            let y = x.clone();
                            proof {
                                assert(self@.skip(k + 1).len() == 0);
                                let rv = self@.reverse();
                                assert(rv[0] == self@[k]);
                                assert forall|i: int| 0 <= i < rv.drop_first().len() implies cloned::<T>(
                                    #[trigger] rv.drop_first()[i],
                                    new_list@[i],
                                ) by {
                                    assert(rv.drop_first()[i] == self@[k - 1 - i]);
                                }
                            }
                            return Some((y, new_list));
                        },
                        Prim::Elem(_, _) => {
                            let y = x.clone();
                            let ghost prev = new_list@;
                            new_list = new_list.prepend(y);
                            ls = &**xs;
                            proof {
                                assert forall|i: int| 0 <= i < k + 1 implies cloned::<T>(
                                    #[trigger] self@[k + 1 - 1 - i],
                                    new_list@[i],
                                ) by {
                                    if i > 0 {
                                        assert(new_list@[i] == prev[i - 1]);
                                        assert(self@[k + 1 - 1 - i] == self@[k - 1 - (i - 1)]);
                                    }
                                }
                                k = k + 1;
                            }
                        },
                    }
                },
                Prim::End => {
                    return None;
                },
            }
        }
    }
}

impl<T: Clone> Clone for Prim<T> {
    /// Clones the first item; the tail stays shared.
    fn clone(&self) -> (r: Self)
        ensures
            cloned_items(self@, r@),
    {
        match self {
            Prim::Elem(x, xs) => {
                let r = Prim::Elem(x.clone(), share(xs));
                proof {
                    assert forall|i: int| 0 <= i < self@.len() implies cloned::<T>(
                        #[trigger] self@[i],
                        r@[i],
                    ) by {
                        if i > 0 {
                            assert(self@[i] == (**xs)@[i - 1]);
                        }
                    }
                }
                r
            },
            Prim::End => Prim::End,
        }
    }
}

/// An immutable list: new lists are made by wrapping, so any number of
/// lists may share a tail. Dropping it releases long chains by a loop.
pub struct ArcList<T> {
    prim: Prim<T>,
}

impl<T> View for ArcList<T> {
    type V = Seq<T>;

    closed spec fn view(&self) -> Seq<T> {
        self.prim@
    }
}

impl<T> ArcList<T> {
    /// The empty list.
    pub fn new() -> (r: Self)
        ensures
            r@ == Seq::<T>::empty(),
    {
        ArcList { prim: Prim::End }
    }

    fn from_prim(prim: Prim<T>) -> (r: Self)
        ensures
            r@ == prim@,
    {
        ArcList { prim }
    }

    fn take_prim(&mut self) -> (r: Prim<T>)
        ensures
            r@ == old(self)@,
            final(self)@ == Seq::<T>::empty(),
        opens_invariants none
        no_unwind
    {
        let mut p = Prim::End;
        std::mem::swap(&mut self.prim, &mut p);
        p
    }

    /// Leaves this list empty and hands out what it held.
    pub fn take(&mut self) -> (r: Self)
        ensures
            r@ == old(self)@,
            final(self)@ == Seq::<T>::empty(),
    {
        ArcList::from_prim(self.take_prim())
    }

    /// The list with `t` in front of this one.
    pub fn prepend(self, t: T) -> (r: Self)
        ensures
            r@ == seq![t] + self@,
    {
        let mut slf = self;
        let p = slf.take_prim();
        ArcList::from_prim(p.prepend(t))
    }

    /// Whether the list holds no item.
    pub fn is_empty(&self) -> (r: bool)
        ensures
            r == (self@.len() == 0),
    {
        match &self.prim {
            Prim::Elem(_, _) => false,
            Prim::End => true,
        }
    }

    /// The first item, if any.
    pub fn head(&self) -> (r: Option<&T>)
        ensures
            r is Some <==> self@.len() > 0,
            r is Some ==> *r.unwrap() == self@[0],
    {
        match &self.prim {
            Prim::Elem(x, _) => Some(x),
            Prim::End => None,
        }
    }
}

impl<T: Clone> ArcList<T> {
    /// The items in the opposite order.
    pub fn reverse(self) -> (r: Self)
        ensures
            cloned_items(self@.reverse(), r@),
            clone_is_exact::<T>() ==> r@ == self@.reverse(),
    {
        ArcList::from_prim(self.prim.reverse())
    }

    /// The item pushed first and the others in the order opposite to this
    /// list, each cloned once: `reverse` followed by `split`. `None` when the
    /// list is empty; this list is left intact.
    pub fn reverse_split(&self) -> (r: Option<(T, ArcList<T>)>)
        ensures
            r is None <==> self@.len() == 0,
            r matches Some((x, rest)) ==> {
                &&& cloned::<T>(self@.reverse()[0], x)
                &&& cloned_items(self@.reverse().drop_first(), rest@)
                &&& clone_is_exact::<T>() ==> x == self@.reverse()[0] && rest@
                    == self@.reverse().drop_first()
            },
    {
        match self.prim.reverse_split() {
            Some((x, rest)) => {
                let r = ArcList::from_prim(rest);
                proof {
                    if clone_is_exact::<T>() {
                        lemma_exact_items(self@.reverse().drop_first(), r@);
                    }
                }
                Some((x, r))
            },
            None => None,
        }
    }

    /// The first item and the rest of the list, or `None` when it is empty.
    /// The rest shares its tail with this list.
    pub fn split(self) -> (r: Option<(T, ArcList<T>)>)
        ensures
            r is None <==> self@.len() == 0,
            r matches Some((x, rest)) ==> x == self@[0] && cloned_items(self@.drop_first(), rest@),
            r matches Some((x, rest)) ==> (clone_is_exact::<T>() ==> rest@ == self@.drop_first()),
    {
        let mut slf = self;
        match slf.take_prim() {
            Prim::Elem(x, xs) => {
                let rest = ArcList::from_prim((*xs).clone());
                proof {
                    assert(self@.drop_first() =~= (*xs)@);
                    if clone_is_exact::<T>() {
                        lemma_exact_items((*xs)@, rest@);
                    }
                }
                Some((x, rest))
            },
            Prim::End => None,
        }
    }
}

impl<T: Clone> Clone for ArcList<T> {
    fn clone(&self) -> (r: Self)
        ensures
            cloned_items(self@, r@),
            clone_is_exact::<T>() ==> r@ == self@,
    {
        let r = ArcList { prim: self.prim.clone() };
        proof {
            if clone_is_exact::<T>() {
                lemma_exact_items(self@, r@);
            }
        }
        r
    }
}

impl<T> Drop for ArcList<T> {
    fn drop(&mut self)
        opens_invariants none
        no_unwind
    {
        let slf = self.take_prim();
        slf.destroy();
    }
}

} // verus!
