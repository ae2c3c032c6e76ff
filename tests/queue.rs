use stm::{atomically, optionally};
use stm_datastructures::arclist::ArcList;
use stm_datastructures::queue::QueueLists;
use stm_datastructures::Queue;

#[test]
fn channel_push_pop() {
    let queue = Queue::new();
    let x = atomically(|trans| {
        queue.push(trans, 42)?;
        queue.pop(trans)
    });
    assert_eq!(42, x);
}

#[test]
fn channel_order() {
    let queue = Queue::new();
    let x = atomically(|trans| {
        queue.push(trans, 1)?;
        queue.push(trans, 2)?;
        queue.push(trans, 3)?;
        let x1 = queue.pop(trans)?;
        let x2 = queue.pop(trans)?;
        let x3 = queue.pop(trans)?;
        Ok((x1, x2, x3))
    });
    assert_eq!((1, 2, 3), x);
}

#[test]
fn channel_multi_transactions() {
    let queue = Queue::new();
    let queue2 = queue.clone();

    atomically(|trans| {
        queue2.push(trans, 1)?;
        queue2.push(trans, 2)
    });
    atomically(|trans| queue.push(trans, 3));

    let x = atomically(|trans| {
        let x1 = queue.pop(trans)?;
        let x2 = queue.pop(trans)?;
        let x3 = queue.pop(trans)?;
        Ok((x1, x2, x3))
    });
    assert_eq!((1, 2, 3), x);
}

#[test]
fn queue_fifo_one_per_transaction() {
    let queue = Queue::new();
    for i in 1..4 {
        atomically(|trans| queue.push(trans, i));
    }
    let mut out = Vec::new();
    for _ in 0..3 {
        out.push(atomically(|trans| queue.pop(trans)));
    }
    assert_eq!(vec![1, 2, 3], out);
}

#[test]
fn queue_interleaved_pushes_and_pops() {
    let queue = Queue::new();
    let x = atomically(|trans| {
        queue.push(trans, 1)?;
        queue.push(trans, 2)?;
        let a = queue.pop(trans)?;
        queue.push(trans, 3)?;
        let b = queue.pop(trans)?;
        let c = queue.pop(trans)?;
        Ok((a, b, c))
    });
    assert_eq!((1, 2, 3), x);
}

#[test]
fn queue_try_pop_on_empty_is_none() {
    let queue: Queue<u32> = Queue::new();
    assert_eq!(None, atomically(|trans| queue.try_pop(trans)));
    assert!(atomically(|trans| queue.is_empty(trans)));
}

#[test]
fn queue_pop_on_empty_blocks() {
    let queue: Queue<u32> = Queue::new();
    assert_eq!(None, atomically(|trans| optionally(trans, |t| queue.pop(t))));
    assert_eq!(None, atomically(|trans| optionally(trans, |t| queue.peek(t))));
}

#[test]
fn queue_is_empty_needs_both_lists_empty() {
    let queue = Queue::new();
    atomically(|trans| {
        queue.push(trans, 1)?;
        queue.push(trans, 2)
    });
    // the first pop moves the rest to the front list, the push goes to the back
    assert_eq!(1, atomically(|trans| queue.pop(trans)));
    atomically(|trans| queue.push(trans, 3));
    assert!(!atomically(|trans| queue.is_empty(trans)));
    assert_eq!(2, atomically(|trans| queue.pop(trans)));
    assert!(!atomically(|trans| queue.is_empty(trans)));
    assert_eq!(3, atomically(|trans| queue.pop(trans)));
    assert!(atomically(|trans| queue.is_empty(trans)));
}

#[test]
fn queue_push_front_is_next() {
    let queue = Queue::new();
    let x = atomically(|trans| {
        queue.push(trans, 1)?;
        queue.push(trans, 2)?;
        queue.push_front(trans, 9)?;
        let a = queue.pop(trans)?;
        let b = queue.pop(trans)?;
        let c = queue.pop(trans)?;
        Ok((a, b, c))
    });
    assert_eq!((9, 1, 2), x);
}

#[test]
fn queue_peek_leaves_item() {
    let queue = Queue::new();
    atomically(|trans| {
        queue.push(trans, 5)?;
        queue.push(trans, 6)
    });
    assert_eq!(5, atomically(|trans| queue.peek(trans)));
    assert_eq!(Some(5), atomically(|trans| queue.try_peek(trans)));
    assert_eq!(5, atomically(|trans| queue.pop(trans)));
    assert_eq!(Some(6), atomically(|trans| queue.try_peek(trans)));
    assert_eq!(Some(6), atomically(|trans| queue.try_pop(trans)));
    assert_eq!(None, atomically(|trans| queue.try_peek(trans)));
}

#[test]
fn queue_lists_pop_order_and_reversal() {
    let mut q = QueueLists::new();
    assert!(q.is_empty());
    q.push(1);
    q.push(2);
    q.push(3);
    assert!(q.front.is_empty());
    assert_eq!(Some(1), q.try_pop());
    // the back list was reversed into the front
    assert!(q.back.is_empty());
    assert_eq!(Some(&2), q.front.head());
    q.push(4);
    q.push_front(0);
    assert_eq!(Some(0), q.try_pop());
    assert_eq!(Some(2), q.try_pop());
    assert_eq!(Some(3), q.try_pop());
    assert_eq!(Some(4), q.try_pop());
    assert_eq!(None, q.try_pop());
    assert!(q.is_empty());
}

#[test]
fn reverse_split_takes_oldest_first() {
    let back = ArcList::new().prepend(1).prepend(2).prepend(3);
    let (x, rest) = back.reverse_split().unwrap();
    assert_eq!(1, x);
    let (y, rest) = rest.split().unwrap();
    let (z, rest) = rest.split().unwrap();
    assert_eq!((2, 3), (y, z));
    assert!(rest.is_empty());
    // the list itself is left intact
    assert_eq!(Some(&3), back.head());
    let (x, rest) = ArcList::new().prepend(5).reverse_split().unwrap();
    assert_eq!(5, x);
    assert!(rest.is_empty());
    assert!(ArcList::<u8>::new().reverse_split().is_none());
}

#[test]
fn queue_lists_pop_from_front_keeps_back() {
    let mut q = QueueLists::new();
    q.push_front(1);
    q.push(2);
    assert_eq!(Some(1), q.try_pop());
    assert!(q.front.is_empty());
    assert_eq!(Some(&2), q.back.head());
    assert_eq!(Some(2), q.try_pop());
    assert!(q.back.is_empty());
}

#[test]
fn queue_pops_all_values_pushed_in_many_transactions() {
    let queue = Queue::new();
    for i in 0..10u32 {
        let q = queue.clone();
        atomically(|trans| q.push(trans, i));
    }
    let mut v = atomically(|trans| {
        let mut v = Vec::new();
        for _ in 0..10 {
            v.push(queue.pop(trans)?);
        }
        Ok(v)
    });
    v.sort();
    for i in 0..10 {
        assert_eq!(v[i], i as u32);
    }
}
