use stm_datastructures::arclist::{ArcList, Prim};

#[test]
fn test_arclist_prepend() {
    let list = ArcList::new().prepend(1).prepend(2).prepend(3);

    assert_eq!(Some(&3), list.head());
}

/// Dropping a long chain must not overflow the stack.
#[test]
fn test_long_list() {
    let mut list = ArcList::new();
    for i in 0..100000 {
        list = list.prepend(i);
    }
    drop(list);
}

#[test]
fn test_arclist_reverse() {
    let list = ArcList::new().prepend(1).prepend(2).prepend(3).reverse();

    assert_eq!(Some(&1), list.head());
}

#[test]
fn arclist_new_is_empty() {
    let list: ArcList<u32> = ArcList::new();
    assert!(list.is_empty());
    assert_eq!(None, list.head());
    assert!(list.split().is_none());
}

#[test]
fn arclist_split_walks_in_order() {
    let list = ArcList::new().prepend(1).prepend(2).prepend(3);
    assert!(!list.is_empty());
    let (a, rest) = list.split().unwrap();
    let (b, rest) = rest.split().unwrap();
    let (c, rest) = rest.split().unwrap();
    assert_eq!((3, 2, 1), (a, b, c));
    assert!(rest.is_empty());
}

#[test]
fn arclist_reverse_keeps_all_items() {
    let list = ArcList::new().prepend(1).prepend(2).prepend(3).reverse();
    let (a, rest) = list.split().unwrap();
    let (b, rest) = rest.split().unwrap();
    let (c, rest) = rest.split().unwrap();
    assert_eq!((1, 2, 3), (a, b, c));
    assert!(rest.is_empty());
}

#[test]
fn arclist_shared_tail_survives() {
    let base = ArcList::new().prepend(1).prepend(2);
    let other = base.clone().prepend(7);
    drop(base);
    let (x, rest) = other.split().unwrap();
    assert_eq!(7, x);
    assert_eq!(Some(&2), rest.head());
}

#[test]
fn arclist_long_shared_list_dropped_once_more() {
    let mut list = ArcList::new();
    for i in 0..100000u64 {
        list = list.prepend(i);
    }
    let keep = list.clone();
    drop(list);
    assert_eq!(Some(&99999), keep.head());
}

#[test]
fn prim_prepend_reverse_destroy() {
    let p = Prim::End.prepend(1).prepend(2).prepend(3);
    let r = p.reverse();
    match &r {
        Prim::Elem(x, _) => assert_eq!(1, *x),
        Prim::End => panic!("reversed list is empty"),
    }
    p.destroy();
    r.destroy();
}
