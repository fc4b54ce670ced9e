use lists::linked_list::LinkedList;
use std::hash::{Hash, Hasher};

fn build<T: Clone>(v: &[T]) -> LinkedList<T> {
    let mut list = LinkedList::new();
    for x in v.iter() {
        list.push_back((*x).clone());
    }
    list
}

fn forward<T: Clone>(list: &LinkedList<T>) -> Vec<T> {
    let mut out = Vec::new();
    let mut it = list.iter();
    while let Some(x) = it.next() {
        out.push((*x).clone());
    }
    out
}

fn backward<T: Clone>(list: &LinkedList<T>) -> Vec<T> {
    let mut out = Vec::new();
    let mut it = list.iter();
    while let Some(x) = it.next_back() {
        out.push((*x).clone());
    }
    out
}

fn hash_of<T: Hash>(list: &LinkedList<T>) -> u64 {
    let mut hasher = std::collections::hash_map::DefaultHasher::new();
    list.hash(&mut hasher);
    hasher.finish()
}

#[test]
fn mixed_pushes_keep_insertion_order() {
    let mut list = LinkedList::new();
    list.push_back(2);
    list.push_front(1);
    list.push_back(3);
    list.push_front(0);
    assert_eq!(forward(&list), vec![0, 1, 2, 3]);
    assert_eq!(list.len(), forward(&list).len());

    assert_eq!(list.pop_front(), Some(0));
    assert_eq!(list.pop_back(), Some(3));
    assert_eq!(forward(&list), vec![1, 2]);
    assert_eq!(list.len(), 2);
}

#[test]
fn pops_on_empty_leave_empty() {
    let mut list: LinkedList<i32> = LinkedList::new();
    assert_eq!(list.pop_front(), None);
    assert_eq!(list.len(), 0);
    assert!(list.is_empty());
    assert_eq!(list.pop_back(), None);
    assert_eq!(list.len(), 0);
    assert!(list.is_empty());
    assert_eq!(list.pop_front(), None);
    assert_eq!(list.pop_back(), None);
    assert!(list.is_empty());
}

#[test]
fn iteration_directions_are_reverses() {
    let list = build(&[4, 8, 15, 16, 23, 42]);
    let fwd = forward(&list);
    let bwd = backward(&list);
    let mut bwd_rev = bwd.clone();
    bwd_rev.reverse();
    assert_eq!(fwd, bwd_rev);
    assert_eq!(fwd.len(), bwd.len());

    let empty: LinkedList<i32> = LinkedList::new();
    assert_eq!(forward(&empty), backward(&empty));
}

#[test]
fn split_then_splice_reconstructs() {
    // Split at each possible element position and put the parts back.
    for at in 0..4usize {
        let mut list = build(&[10, 20, 30, 40]);
        let mut cursor = list.cursor_mut();
        cursor.move_next();
        for _ in 0..at {
            cursor.move_next();
        }
        assert_eq!(cursor.index(), Some(at));
        let prefix = cursor.split_before();
        assert_eq!(cursor.index(), Some(0));
        cursor.splice_before(prefix);
        assert_eq!(forward(&list), vec![10, 20, 30, 40]);
    }

    // At the ghost position the split takes everything; splicing it back
    // at the ghost restores the list.
    let mut list = build(&[10, 20, 30, 40]);
    let mut cursor = list.cursor_mut();
    let all = cursor.split_before();
    assert_eq!(cursor.index(), None);
    cursor.splice_before(all);
    assert_eq!(forward(&list), vec![10, 20, 30, 40]);
}

#[test]
fn split_after_keeps_prefix() {
    let mut list = build(&[1, 2, 3, 4, 5]);
    let mut cursor = list.cursor_mut();
    cursor.move_next();
    cursor.move_next();
    assert_eq!(cursor.index(), Some(1));
    let suffix = cursor.split_after();
    assert_eq!(cursor.index(), Some(1));
    assert_eq!(forward(&suffix), vec![3, 4, 5]);
    assert_eq!(forward(&list), vec![1, 2]);
}

#[test]
fn splice_empty_is_noop() {
    let mut list = build(&[1, 2, 3]);
    let mut cursor = list.cursor_mut();
    cursor.move_next();
    cursor.move_next();
    assert_eq!(cursor.index(), Some(1));
    cursor.splice_before(LinkedList::new());
    assert_eq!(cursor.index(), Some(1));
    cursor.splice_after(LinkedList::new());
    assert_eq!(cursor.index(), Some(1));
    assert_eq!(list.len(), 3);
    assert_eq!(forward(&list), vec![1, 2, 3]);

    let mut cursor = list.cursor_mut();
    cursor.splice_before(LinkedList::new());
    cursor.splice_after(LinkedList::new());
    assert_eq!(cursor.index(), None);
    assert_eq!(forward(&list), vec![1, 2, 3]);
}

#[test]
fn cursor_split_before_and_restore_example() {
    let mut list = LinkedList::new();
    list.push_back(1);
    list.push_back(2);
    list.push_back(3);
    assert_eq!(forward(&list), vec![1, 2, 3]);

    let mut cursor = list.cursor_mut();
    cursor.move_next();
    cursor.move_next();
    assert_eq!(cursor.index(), Some(1));
    assert_eq!(cursor.current(), Some(&mut 2));

    let prefix = cursor.split_before();
    assert_eq!(forward(&prefix), vec![1]);
    assert_eq!(cursor.index(), Some(0));

    cursor.splice_before(prefix);
    assert_eq!(cursor.index(), Some(1));
    assert_eq!(forward(&list), vec![1, 2, 3]);
}

#[test]
fn splice_around_first_element_example() {
    let mut list = build(&[1, 2, 3, 4, 5, 6]);
    let mut cursor = list.cursor_mut();
    cursor.move_next();
    assert_eq!(cursor.index(), Some(0));
    cursor.splice_before(LinkedList::from_vec(vec![7]));
    cursor.splice_after(LinkedList::from_vec(vec![8]));
    assert_eq!(forward(&list), vec![7, 1, 8, 2, 3, 4, 5, 6]);
}

#[test]
fn splice_at_ghost_wraps_to_the_ends() {
    let mut list = build(&[2, 3]);
    let mut cursor = list.cursor_mut();
    // At the ghost, splicing before appends at the back, splicing after
    // prepends at the front.
    cursor.splice_before(LinkedList::from_vec(vec![4, 5]));
    cursor.splice_after(LinkedList::from_vec(vec![0, 1]));
    assert_eq!(forward(&list), vec![0, 1, 2, 3, 4, 5]);
}

#[test]
fn equal_lists_hash_identically() {
    let mut a = LinkedList::new();
    a.push_back(1);
    a.push_back(2);
    a.push_back(3);
    let mut b = LinkedList::new();
    b.push_front(3);
    b.push_front(2);
    b.push_front(1);
    assert!(a == b);
    assert_eq!(hash_of(&a), hash_of(&b));

    let mut c = b.clone();
    c.push_back(4);
    assert!(a != c);
}

#[test]
fn equality_ignores_construction_never_length() {
    let a = build(&[1, 2]);
    let b = build(&[1, 2, 3]);
    assert!(a != b);
    assert!(b != a);
    let c = build(&[1, 2]);
    assert!(a == c);
}

#[test]
fn clone_is_a_deep_independent_copy() {
    let mut original = build(&[1, 2, 3]);
    let copy = original.clone();
    original.push_back(4);
    assert_eq!(forward(&copy), vec![1, 2, 3]);
    assert_eq!(forward(&original), vec![1, 2, 3, 4]);
}

#[test]
fn clear_empties_and_allows_reuse() {
    let mut list = build(&[1, 2, 3]);
    list.clear();
    assert!(list.is_empty());
    assert_eq!(list.pop_front(), None);
    list.push_back(9);
    assert_eq!(forward(&list), vec![9]);
}

#[test]
fn consuming_iterator_pops_both_ends() {
    let list = build(&[1, 2, 3, 4]);
    let mut it = list.into_iter();
    assert_eq!(it.len(), 4);
    assert_eq!(it.size_hint(), (4, Some(4)));
    assert_eq!(it.next(), Some(1));
    assert_eq!(it.next_back(), Some(4));
    assert_eq!(it.size_hint(), (2, Some(2)));
    assert_eq!(it.next(), Some(2));
    assert_eq!(it.next_back(), Some(3));
    assert_eq!(it.next(), None);
    assert_eq!(it.next_back(), None);
    assert_eq!(it.len(), 0);
}

#[test]
fn default_is_empty() {
    let list: LinkedList<u8> = Default::default();
    assert!(list.is_empty());
    assert_eq!(list.len(), 0);
}

#[test]
fn front_and_back_views() {
    let mut list = build(&[5, 6, 7]);
    assert_eq!(list.front(), Some(&5));
    assert_eq!(list.back(), Some(&7));
    if let Some(front) = list.front_mut() {
        *front = 50;
    }
    if let Some(back) = list.back_mut() {
        *back = 70;
    }
    assert_eq!(forward(&list), vec![50, 6, 70]);

    let empty: LinkedList<i32> = LinkedList::new();
    assert_eq!(empty.front(), None);
    assert_eq!(empty.back(), None);
}
