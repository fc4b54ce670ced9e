//! A double-ended sequence container with a structural cursor.
//!
//! `LinkedList<T>` owns a sequence of elements and offers O(1)-per-step
//! access at both ends, bidirectional iteration with an exact remaining
//! count, and a `CursorMut` handle that walks the sequence and performs
//! local structural edits: splitting the list in two at the cursor and
//! splicing an entire other list in before or after it.
//!
//! Elements are held in contiguous owned storage; all contracts speak of
//! the abstract sequence `self@`, so callers never see the representation.
//! The list and its read-only iterator are covariant in the element type,
//! so shared views stay freely substitutable; the mutable iterator and the
//! cursor hold exclusive references and are therefore invariant, which
//! keeps the exclusive element references they hand out unswappable.

use core::cmp::Ordering;
use vstd::prelude::*;
use vstd::std_specs::cmp::{PartialEqSpec, PartialEqSpecImpl, PartialOrdSpec, PartialOrdSpecImpl};

verus! {

/// A double-ended list of elements, abstractly a sequence `self@`.
///
/// Equality, ordering and hashing follow the element type: two lists are
/// equal exactly when they have the same length and elementwise-equal
/// contents in forward order; ordering is lexicographic and partial
/// whenever the element order is partial; hashing covers the length and
/// then each element in forward order.
#[derive(Debug, Hash, Eq, Ord)]
pub struct LinkedList<T> {
    elems: Vec<T>,
}

impl<T> View for LinkedList<T> {
    type V = Seq<T>;

    closed spec fn view(&self) -> Seq<T> {
        self.elems@
    }
}

impl<T> LinkedList<T> {
    /// The empty list.
    pub fn new() -> (r: Self)
        ensures
            r@ == Seq::<T>::empty(),
    {
        LinkedList { elems: Vec::new() }
    }

    /// Builds a list holding exactly the given elements, in order.
    pub fn from_vec(elems: Vec<T>) -> (r: Self)
        ensures
            r@ == elems@,
    {
        LinkedList { elems }
    }

    /// The number of elements.
    pub fn len(&self) -> (r: usize)
        ensures
            r == self@.len(),
    {
        self.elems.len()
    }

    /// Whether the list holds no elements.
    pub fn is_empty(&self) -> (r: bool)
        ensures
            r <==> self@.len() == 0,
    {
        self.elems.is_empty()
    }

    /// Inserts an element at the front.
    pub fn push_front(&mut self, elem: T)
        ensures
            final(self)@ == seq![elem] + old(self)@,
    {
        self.elems.insert(0, elem);
        proof {
            assert(final(self)@ =~= seq![elem] + old(self)@);
        }
    }

    /// Inserts an element at the back.
    pub fn push_back(&mut self, elem: T)
        ensures
            final(self)@ == old(self)@.push(elem),
    {
        self.elems.push(elem);
    }

    /// Removes and returns the front element; `None` exactly when the list
    /// is empty, in which case the list is left unchanged.
    pub fn pop_front(&mut self) -> (r: Option<T>)
        ensures
            match r {
                Some(x) => old(self)@.len() > 0 && x == old(self)@[0] && final(self)@ == old(self)@.drop_first(),
                None => old(self)@.len() == 0 && final(self)@ == old(self)@,
            },
    {
        if self.elems.len() == 0 {
            None
        } else {
            Some(self.elems.remove(0))
        }
    }

    /// Removes and returns the back element; `None` exactly when the list
    /// is empty, in which case the list is left unchanged.
    pub fn pop_back(&mut self) -> (r: Option<T>)
        ensures
            match r {
                Some(x) => old(self)@.len() > 0 && x == old(self)@.last() && final(self)@ == old(self)@.drop_last(),
                None => old(self)@.len() == 0 && final(self)@ == old(self)@,
            },
    {
        self.elems.pop()
    }

    /// The front element, without removing it; `None` exactly when empty.
    pub fn front(&self) -> (r: Option<&T>)
        ensures
            match r {
                Some(x) => self@.len() > 0 && *x == self@[0],
                None => self@.len() == 0,
            },
    {
        self.elems.as_slice().first()
    }

    /// The back element, without removing it; `None` exactly when empty.
    pub fn back(&self) -> (r: Option<&T>)
        ensures
            match r {
                Some(x) => self@.len() > 0 && *x == self@.last(),
                None => self@.len() == 0,
            },
    {
        self.elems.as_slice().last()
    }

    /// Exclusive access to the front element; `None` exactly when empty.
    pub fn front_mut(&mut self) -> (r: Option<&mut T>)
        ensures
            old(self)@.len() == 0 ==> r is None && final(self)@ == old(self)@,
            old(self)@.len() > 0 ==> r is Some && *r.unwrap() == old(self)@[0] && final(self)@
                == old(self)@.update(0, *final(r.unwrap())),
    {
        self.elems.as_mut_slice().first_mut()
    }

    /// Exclusive access to the back element; `None` exactly when empty.
    pub fn back_mut(&mut self) -> (r: Option<&mut T>)
        ensures
            old(self)@.len() == 0 ==> r is None && final(self)@ == old(self)@,
            old(self)@.len() > 0 ==> r is Some && *r.unwrap() == old(self)@.last() && final(self)@ == old(self)@.update(old(self)@.len() - 1, *final(r.unwrap())),
    {
        self.elems.as_mut_slice().last_mut()
    }

    /// Removes every element, front to back.
    pub fn clear(&mut self)
        ensures
            final(self)@ == Seq::<T>::empty(),
    {
        while self.len() > 0
            decreases self@.len(),
        {
            let _ = self.pop_front();
        }
        proof {
            assert(self@ =~= Seq::<T>::empty());
        }
    }

    /// Appends every element of `elems` at the back, in order.
    pub fn extend(&mut self, elems: Vec<T>)
        ensures
            final(self)@ == old(self)@ + elems@,
    {
        let mut rest = elems;
        self.elems.append(&mut rest);
    }

    /// A cursor over this list, starting at the ghost position.
    ///
    /// The cursor borrows the list exclusively: no other access is possible
    /// while it lives, and the contracts of its operations describe both the
    /// list as the cursor sees it and the list the caller gets back once the
    /// cursor is dropped.
    pub fn cursor_mut(&mut self) -> (r: CursorMut<'_, T>)
        ensures
            r.index == None::<usize>,
            (*r.list)@ == old(self)@,
            *final(r.list) == *final(self),
    {
        CursorMut { list: self, index: None }
    }
}

/// A mutable cursor into a [`LinkedList`].
///
/// The cursor is either at the ghost position (`index` is `None`), a single
/// conceptual slot that sits both before the first and after the last
/// element, or at the element with ordinal `index`. Structural edits —
/// splitting the list in two, splicing a whole list in — happen at the
/// cursor.
pub struct CursorMut<'a, T> {
    /// The exclusively borrowed list this cursor walks.
    pub list: &'a mut LinkedList<T>,
    /// The current position: `None` at the ghost position, otherwise the
    /// ordinal of the current element.
    pub index: Option<usize>,
}

impl<'a, T> CursorMut<'a, T> {
    /// The cursor position is either the ghost or a valid element ordinal.
    pub open spec fn wf(&self) -> bool {
        match self.index {
            Some(i) => i < (*self.list)@.len(),
            None => true,
        }
    }

    /// The ordinal of the current element, or `None` at the ghost position.
    pub fn index(&self) -> (r: Option<usize>)
        ensures
            r == self.index,
    {
        self.index
    }

    /// Moves one step toward the back: from the ghost position to the first
    /// element (if any), from the last element to the ghost position.
    pub fn move_next(&mut self)
        requires
            old(self).wf(),
        ensures
            final(self).wf(),
            (*final(self).list)@ == (*old(self).list)@,
            *final(final(self).list) == *final(old(self).list),
            final(self).index == (match old(self).index {
                None => if (*old(self).list)@.len() > 0 {
                    Some(0usize)
                } else {
                    None
                },
                Some(i) => if i + 1 < (*old(self).list)@.len() {
                    Some((i + 1) as usize)
                } else {
                    None
                },
            }),
    {
        match self.index {
            None => {
                if self.list.len() > 0 {
                    self.index = Some(0);
                }
            },
            Some(i) => {
                let n = self.list.len();
                if i + 1 < n {
                    self.index = Some(i + 1);
                } else {
                    self.index = None;
                }
            },
        }
    }

    /// Moves one step toward the front: from the ghost position to the last
    /// element (if any), from the first element to the ghost position.
    pub fn move_prev(&mut self)
        requires
            old(self).wf(),
        ensures
            final(self).wf(),
            (*final(self).list)@ == (*old(self).list)@,
            *final(final(self).list) == *final(old(self).list),
            final(self).index == (match old(self).index {
                None => if (*old(self).list)@.len() > 0 {
                    Some(((*old(self).list)@.len() - 1) as usize)
                } else {
                    None
                },
                Some(i) => if i > 0 {
                    Some((i - 1) as usize)
                } else {
                    None
                },
            }),
    {
        match self.index {
            None => {
                let n = self.list.len();
                if n > 0 {
                    self.index = Some(n - 1);
                }
            },
            Some(i) => {
                if i > 0 {
                    self.index = Some(i - 1);
                } else {
                    self.index = None;
                }
            },
        }
    }

    /// Exclusive access to the current element; `None` at the ghost
    /// position.
    pub fn current(&mut self) -> (r: Option<&mut T>)
        requires
            old(self).wf(),
        ensures
            final(self).wf(),
            final(self).index == old(self).index,
            *final(final(self).list) == *final(old(self).list),
            match old(self).index {
                None => r is None && (*final(self).list)@ == (*old(self).list)@,
                Some(i) => r is Some && *r.unwrap() == (*old(self).list)@[i as int] && (*final(self).list)@ == (*old(self).list)@.update(i as int, *final(r.unwrap())),
            },
    {
        match self.index {
            Some(i) => Some(&mut self.list.elems[i]),
            None => None,
        }
    }

    /// Exclusive access to the element one step toward the back, without
    /// moving; at the ghost position this is the front element.
    pub fn peek_next(&mut self) -> (r: Option<&mut T>)
        requires
            old(self).wf(),
        ensures
            final(self).wf(),
            final(self).index == old(self).index,
            *final(final(self).list) == *final(old(self).list),
            ({
                let l = (*old(self).list)@;
                let j: int = match old(self).index {
                    Some(i) => i + 1,
                    None => 0,
                };
                if 0 <= j < l.len() {
                    r is Some && *r.unwrap() == l[j] && (*final(self).list)@ == l.update(
                        j,
                        *final(r.unwrap()),
                    )
                } else {
                    r is None && (*final(self).list)@ == l
                }
            }),
    {
        let n = self.list.elems.len();
        let j_opt: Option<usize> = match self.index {
            Some(i) => if i + 1 < n {
                Some(i + 1)
            } else {
                None
            },
            None => if n > 0 {
                Some(0)
            } else {
                None
            },
        };
        match j_opt {
            Some(j) => Some(&mut self.list.elems[j]),
            None => None,
        }
    }

    /// Exclusive access to the element one step toward the front, without
    /// moving; at the ghost position this is the back element.
    pub fn peek_prev(&mut self) -> (r: Option<&mut T>)
        requires
            old(self).wf(),
        ensures
            final(self).wf(),
            final(self).index == old(self).index,
            *final(final(self).list) == *final(old(self).list),
            ({
                let l = (*old(self).list)@;
                let j: int = match old(self).index {
                    Some(i) => i - 1,
                    None => l.len() - 1,
                };
                if 0 <= j < l.len() {
                    r is Some && *r.unwrap() == l[j] && (*final(self).list)@ == l.update(
                        j,
                        *final(r.unwrap()),
                    )
                } else {
                    r is None && (*final(self).list)@ == l
                }
            }),
    {
        let j_opt: Option<usize> = match self.index {
            Some(i) => if i > 0 {
                Some(i - 1)
            } else {
                None
            },
            None => {
                let n = self.list.elems.len();
                if n > 0 {
                    Some(n - 1)
                } else {
                    None
                }
            },
        };
        match j_opt {
            Some(j) => Some(&mut self.list.elems[j]),
            None => None,
        }
    }

    /// Detaches everything before the current element into a new list.
    ///
    /// On an element with ordinal `i`, the first `i` elements are returned
    /// and the list keeps the rest, with the cursor still on the same
    /// element, now at ordinal 0. At the ghost position the entire list is
    /// returned and the original is left empty.
    pub fn split_before(&mut self) -> (r: LinkedList<T>)
        requires
            old(self).wf(),
        ensures
            final(self).wf(),
            *final(final(self).list) == *final(old(self).list),
            ({
                let l = (*old(self).list)@;
                match old(self).index {
                    Some(i) => r@ == l.take(i as int) && (*final(self).list)@ == l.skip(i as int)
                        && final(self).index == Some(0usize),
                    None => r@ == l && (*final(self).list)@ == Seq::<T>::empty() && final(self).index == None::<usize>,
                }
            }),
    {
        match self.index {
            Some(i) => {
                let mut tail = self.list.elems.split_off(i);
                core::mem::swap(&mut self.list.elems, &mut tail);
                self.index = Some(0);
                LinkedList { elems: tail }
            },
            None => {
                let mut out = LinkedList::new();
                core::mem::swap(self.list, &mut out);
                out
            },
        }
    }

    /// Detaches everything after the current element into a new list.
    ///
    /// On an element with ordinal `i`, the elements after it are returned
    /// and the list keeps the front up to and including the current element,
    /// with the cursor unmoved. At the ghost position the entire list is
    /// returned and the original is left empty.
    pub fn split_after(&mut self) -> (r: LinkedList<T>)
        requires
            old(self).wf(),
        ensures
            final(self).wf(),
            *final(final(self).list) == *final(old(self).list),
            ({
                let l = (*old(self).list)@;
                match old(self).index {
                    Some(i) => r@ == l.skip(i + 1) && (*final(self).list)@ == l.take(i + 1)
                        && final(self).index == Some(i),
                    None => r@ == l && (*final(self).list)@ == Seq::<T>::empty() && final(self).index == None::<usize>,
                }
            }),
    {
        match self.index {
            Some(i) => {
                let n = self.list.elems.len();
                proof {
                    assert(i < n);
                }
                let tail = self.list.elems.split_off(i + 1);
                LinkedList { elems: tail }
            },
            None => {
                let mut out = LinkedList::new();
                core::mem::swap(self.list, &mut out);
                out
            },
        }
    }

    /// Grafts an entire list in just before the cursor, leaving the input
    /// empty. At the ghost position the input is appended at the back. The
    /// cursor stays on the same element; its ordinal grows by the spliced
    /// length. Splicing an empty list changes nothing.
    pub fn splice_before(&mut self, input: LinkedList<T>)
        requires
            old(self).wf(),
        ensures
            final(self).wf(),
            *final(final(self).list) == *final(old(self).list),
            ({
                let l = (*old(self).list)@;
                let m = input@;
                match old(self).index {
                    Some(i) => (*final(self).list)@ == l.take(i as int) + m + l.skip(i as int)
                        && final(self).index == Some((i + m.len()) as usize),
                    None => (*final(self).list)@ == l + m && final(self).index == None::<usize>,
                }
            }),
            input@.len() == 0 ==> (*final(self).list)@ == (*old(self).list)@ && final(self).index
                == old(self).index,
    {
        let ghost m = input@;
        let mut input = input;
        let in_len = input.elems.len();
        match self.index {
            Some(i) => {
                let mut tail = self.list.elems.split_off(i);
                self.list.elems.append(&mut input.elems);
                self.list.elems.append(&mut tail);
                let total = self.list.elems.len();
                proof {
                    assert(i + in_len <= total);
                }
                self.index = Some(i + in_len);
            },
            None => {
                self.list.elems.append(&mut input.elems);
            },
        }
        proof {
            let l = (*old(self).list)@;
            if let Some(i) = old(self).index {
                assert((*self.list)@ =~= l.take(i as int) + m + l.skip(i as int));
                if m.len() == 0 {
                    assert((*self.list)@ =~= l);
                }
            } else {
                if m.len() == 0 {
                    assert((*self.list)@ =~= l);
                }
            }
        }
    }

    /// Grafts an entire list in just after the cursor, leaving the input
    /// empty. At the ghost position the input is prepended at the front.
    /// The cursor stays on the same element at the same ordinal. Splicing
    /// an empty list changes nothing.
    pub fn splice_after(&mut self, input: LinkedList<T>)
        requires
            old(self).wf(),
        ensures
            final(self).wf(),
            *final(final(self).list) == *final(old(self).list),
            ({
                let l = (*old(self).list)@;
                let m = input@;
                match old(self).index {
                    Some(i) => (*final(self).list)@ == l.take(i + 1) + m + l.skip(i + 1) && final(self).index == Some(i),
                    None => (*final(self).list)@ == m + l && final(self).index == None::<usize>,
                }
            }),
            input@.len() == 0 ==> (*final(self).list)@ == (*old(self).list)@ && final(self).index
                == old(self).index,
    {
        let ghost m = input@;
        let mut input = input;
        match self.index {
            Some(i) => {
                let n = self.list.elems.len();
                proof {
                    assert(i < n);
                }
                let mut tail = self.list.elems.split_off(i + 1);
                self.list.elems.append(&mut input.elems);
                self.list.elems.append(&mut tail);
            },
            None => {
                core::mem::swap(&mut self.list.elems, &mut input.elems);
                self.list.elems.append(&mut input.elems);
            },
        }
        proof {
            let l = (*old(self).list)@;
            if let Some(i) = old(self).index {
                assert((*self.list)@ =~= l.take(i + 1) + m + l.skip(i + 1));
                if m.len() == 0 {
                    assert((*self.list)@ =~= l);
                }
            } else {
                if m.len() == 0 {
                    assert((*self.list)@ =~= l);
                }
            }
        }
    }
}

/// A consuming iterator over a [`LinkedList`]: each forward step pops the
/// front element, each backward step pops the back element.
pub struct IntoIter<T> {
    list: LinkedList<T>,
}

impl<T> View for IntoIter<T> {
    type V = Seq<T>;

    closed spec fn view(&self) -> Seq<T> {
        self.list@
    }
}

impl<T> LinkedList<T> {
    /// Turns the list into a consuming iterator over its elements.
    pub fn into_iter(self) -> (r: IntoIter<T>)
        ensures
            r@ == self@,
    {
        IntoIter { list: self }
    }
}

impl<T> IntoIter<T> {
    /// Removes and returns the front remaining element.
    pub fn next(&mut self) -> (r: Option<T>)
        ensures
            match r {
                Some(x) => old(self)@.len() > 0 && x == old(self)@[0] && final(self)@ == old(
                    self,
                )@.drop_first(),
                None => old(self)@.len() == 0 && final(self)@ == old(self)@,
            },
    {
        self.list.pop_front()
    }

    /// Removes and returns the back remaining element.
    pub fn next_back(&mut self) -> (r: Option<T>)
        ensures
            match r {
                Some(x) => old(self)@.len() > 0 && x == old(self)@.last() && final(self)@ == old(
                    self,
                )@.drop_last(),
                None => old(self)@.len() == 0 && final(self)@ == old(self)@,
            },
    {
        self.list.pop_back()
    }

    /// The exact number of remaining elements, as a lower and upper bound.
    pub fn size_hint(&self) -> (r: (usize, Option<usize>))
        ensures
            r.0 == self@.len(),
            r.1 == Some(r.0),
    {
        let n = self.list.len();
        (n, Some(n))
    }

    /// The exact number of remaining elements.
    pub fn len(&self) -> (r: usize)
        ensures
            r == self@.len(),
    {
        self.list.len()
    }
}

/// A read-only iterator over a [`LinkedList`], usable from both ends.
pub struct Iter<'a, T> {
    rest: &'a [T],
}

impl<'a, T> View for Iter<'a, T> {
    type V = Seq<T>;

    closed spec fn view(&self) -> Seq<T> {
        self.rest@
    }
}

impl<T> LinkedList<T> {
    /// A read-only iterator over the whole list, front to back.
    pub fn iter(&self) -> (r: Iter<'_, T>)
        ensures
            r@ == self@,
    {
        Iter { rest: self.elems.as_slice() }
    }
}

impl<'a, T> Iter<'a, T> {
    /// The front remaining element, consuming it from this iterator only.
    pub fn next(&mut self) -> (r: Option<&'a T>)
        ensures
            match r {
                Some(x) => old(self)@.len() > 0 && *x == old(self)@[0] && final(self)@ == old(
                    self,
                )@.drop_first(),
                None => old(self)@.len() == 0 && final(self)@ == old(self)@,
            },
    {
        if self.rest.len() == 0 {
            None
        } else {
            let (first, tail) = self.rest.split_at(1);
            self.rest = tail;
            Some(&first[0])
        }
    }

    /// The back remaining element, consuming it from this iterator only.
    pub fn next_back(&mut self) -> (r: Option<&'a T>)
        ensures
            match r {
                Some(x) => old(self)@.len() > 0 && *x == old(self)@.last() && final(self)@ == old(
                    self,
                )@.drop_last(),
                None => old(self)@.len() == 0 && final(self)@ == old(self)@,
            },
    {
        let n = self.rest.len();
        if n == 0 {
            None
        } else {
            let (head, last) = self.rest.split_at(n - 1);
            self.rest = head;
            Some(&last[0])
        }
    }

    /// The exact number of remaining elements, as a lower and upper bound.
    pub fn size_hint(&self) -> (r: (usize, Option<usize>))
        ensures
            r.0 == self@.len(),
            r.1 == Some(r.0),
    {
        let n = self.rest.len();
        (n, Some(n))
    }

    /// The exact number of remaining elements.
    pub fn len(&self) -> (r: usize)
        ensures
            r == self@.len(),
    {
        self.rest.len()
    }
}

/// An iterator over a [`LinkedList`] that yields exclusive references,
/// usable from both ends. Each step gives up the iterator's own access to
/// the element it yields, so no two live references alias.
pub struct IterMut<'a, T> {
    /// The stretch of the list not yet handed out, or `None` once both
    /// ends have met.
    pub rest: Option<&'a mut [T]>,
}

impl<'a, T> View for IterMut<'a, T> {
    type V = Seq<T>;

    closed spec fn view(&self) -> Seq<T> {
        match self.rest {
            Some(s) => s@,
            None => Seq::empty(),
        }
    }
}

impl<T> LinkedList<T> {
    /// An iterator over the whole list yielding exclusive references,
    /// front to back. Once the iterator and every reference it handed out
    /// are gone, the list holds the values written through them: its final
    /// contents are the final contents of the iterator's stretch.
    pub fn iter_mut(&mut self) -> (r: IterMut<'_, T>)
        ensures
            r@ == old(self)@,
            r.rest is Some,
            final(self)@ == (final(r.rest.unwrap()))@,
    {
        IterMut { rest: Some(self.elems.as_mut_slice()) }
    }
}

impl<'a, T> IterMut<'a, T> {
    /// Exclusive access to the front remaining element, consuming it from
    /// this iterator. The stretch this iterator held ends up as the value
    /// written through the yielded reference followed by the final contents
    /// of the shrunk stretch.
    pub fn next(&mut self) -> (r: Option<&'a mut T>)
        ensures
            match r {
                Some(x) => old(self)@.len() > 0 && *x == old(self)@[0] && final(self)@ == old(
                    self,
                )@.drop_first(),
                None => old(self)@.len() == 0 && final(self)@.len() == 0,
            },
            match old(self).rest {
                None => r is None && final(self).rest is None,
                Some(s) => match r {
                    None => (final(s))@ == Seq::<T>::empty() && final(self).rest is None,
                    Some(x) => final(self).rest is Some && (final(s))@ == seq![*final(x)]
                        + (final(final(self).rest.unwrap()))@,
                },
            },
    {
        match self.rest.take() {
            None => None,
            Some(s) => {
                if s.len() == 0 {
                    None
                } else {
                    let (first, tail) = s.split_at_mut(1);
                    self.rest = Some(tail);
                    first.first_mut()
                }
            },
        }
    }

    /// Exclusive access to the back remaining element, consuming it from
    /// this iterator. The stretch this iterator held ends up as the final
    /// contents of the shrunk stretch followed by the value written through
    /// the yielded reference.
    pub fn next_back(&mut self) -> (r: Option<&'a mut T>)
        ensures
            match r {
                Some(x) => old(self)@.len() > 0 && *x == old(self)@.last() && final(self)@ == old(
                    self,
                )@.drop_last(),
                None => old(self)@.len() == 0 && final(self)@.len() == 0,
            },
            match old(self).rest {
                None => r is None && final(self).rest is None,
                Some(s) => match r {
                    None => (final(s))@ == Seq::<T>::empty() && final(self).rest is None,
                    Some(x) => final(self).rest is Some && (final(s))@
                        == (final(final(self).rest.unwrap()))@ + seq![*final(x)],
                },
            },
    {
        match self.rest.take() {
            None => None,
            Some(s) => {
                let n = s.len();
                if n == 0 {
                    None
                } else {
                    let (head, last) = s.split_at_mut(n - 1);
                    self.rest = Some(head);
                    last.first_mut()
                }
            },
        }
    }

    /// The exact number of remaining elements, as a lower and upper bound.
    pub fn size_hint(&self) -> (r: (usize, Option<usize>))
        ensures
            r.0 == self@.len(),
            r.1 == Some(r.0),
    {
        let n = match &self.rest {
            Some(s) => s.len(),
            None => 0,
        };
        (n, Some(n))
    }

    /// The exact number of remaining elements.
    pub fn len(&self) -> (r: usize)
        ensures
            r == self@.len(),
    {
        match &self.rest {
            Some(s) => s.len(),
            None => 0,
        }
    }
}

impl<T: Clone> Clone for LinkedList<T> {
    /// A deep, fully independent copy: the same length, each element a
    /// clone of the source element at the same position, no storage shared
    /// with the source.
    fn clone(&self) -> (r: Self)
        ensures
            r@.len() == self@.len(),
            forall|i: int| #![all_triggers] 0 <= i < self@.len() ==> cloned::<T>(self@[i], r@[i]),
    {
        LinkedList { elems: self.elems.clone() }
    }
}

impl<T> Default for LinkedList<T> {
    /// The empty list.
    fn default() -> (r: Self)
        ensures
            r@ == Seq::<T>::empty(),
    {
        LinkedList::new()
    }
}

/// Lexicographic comparison of two sequences, following the element
/// order: the first unequal pair decides; if one sequence is a strict
/// prefix of the other, the shorter is less; an incomparable pair makes
/// the sequences incomparable.
pub open spec fn seq_partial_cmp_spec<T: PartialOrd>(a: Seq<T>, b: Seq<T>) -> Option<Ordering>
    decreases a.len(),
{
    if a.len() == 0 && b.len() == 0 {
        Some(Ordering::Equal)
    } else if a.len() == 0 {
        Some(Ordering::Less)
    } else if b.len() == 0 {
        Some(Ordering::Greater)
    } else {
        match a[0].partial_cmp_spec(&b[0]) {
            Some(Ordering::Equal) => seq_partial_cmp_spec(a.drop_first(), b.drop_first()),
            o => o,
        }
    }
}

impl<T: PartialEq> PartialEqSpecImpl for LinkedList<T> {
    open spec fn obeys_eq_spec() -> bool {
        T::obeys_eq_spec()
    }

    open spec fn eq_spec(&self, other: &LinkedList<T>) -> bool {
        self@.len() == other@.len() && (forall|k: int|
            0 <= k < self@.len() ==> self@[k].eq_spec(&other@[k]))
    }
}

impl<T: PartialEq> PartialEq for LinkedList<T> {
    /// Two lists are equal exactly when they have the same length and
    /// elementwise-equal contents in forward order.
    fn eq(&self, other: &Self) -> (r: bool)
        ensures
            self@.len() != other@.len() ==> r == false,
            self@.len() == 0 && other@.len() == 0 ==> r == true,
    {
        let n = self.elems.len();
        if n != other.elems.len() {
            return false;
        }
        let mut i: usize = 0;
        while i < n
            invariant
                n == self@.len(),
                n == other@.len(),
                0 <= i <= n,
                T::obeys_eq_spec() ==> forall|k: int| 0 <= k < i ==> self@[k].eq_spec(&other@[k]),
            decreases n - i,
        {
            if !(self.elems[i] == other.elems[i]) {
                return false;
            }
            i += 1;
        }
        true
    }

    /// The negation of equality, computed with the same short circuits.
    fn ne(&self, other: &Self) -> (r: bool)
        ensures
            self@.len() != other@.len() ==> r == true,
            self@.len() == 0 && other@.len() == 0 ==> r == false,
    {
        let n = self.elems.len();
        if n != other.elems.len() {
            return true;
        }
        let mut i: usize = 0;
        while i < n
            invariant
                n == self@.len(),
                n == other@.len(),
                0 <= i <= n,
                T::obeys_eq_spec() ==> forall|k: int| 0 <= k < i ==> self@[k].eq_spec(&other@[k]),
            decreases n - i,
        {
            if self.elems[i].ne(&other.elems[i]) {
                return true;
            }
            i += 1;
        }
        false
    }
}

impl<T: PartialOrd> PartialOrdSpecImpl for LinkedList<T> {
    open spec fn obeys_partial_cmp_spec() -> bool {
        T::obeys_partial_cmp_spec()
    }

    open spec fn partial_cmp_spec(&self, other: &LinkedList<T>) -> Option<Ordering> {
        seq_partial_cmp_spec(self@, other@)
    }
}

impl<T: PartialOrd> PartialOrd for LinkedList<T> {
    /// Lexicographic comparison in forward order; `None` exactly when a
    /// deciding pair of elements is incomparable. An empty list compares
    /// below any non-empty list, whatever the element type.
    fn partial_cmp(&self, other: &Self) -> (r: Option<Ordering>)
        ensures
            self@.len() == 0 && other@.len() == 0 ==> r == Some(Ordering::Equal),
            self@.len() == 0 && other@.len() > 0 ==> r == Some(Ordering::Less),
            self@.len() > 0 && other@.len() == 0 ==> r == Some(Ordering::Greater),
    {
        let n = self.elems.len();
        let m = other.elems.len();
        let bound: usize = if n < m {
            n
        } else {
            m
        };
        let mut i: usize = 0;
        proof {
            assert(self@.skip(0) =~= self@);
            assert(other@.skip(0) =~= other@);
        }
        while i < bound
            invariant
                n == self@.len(),
                m == other@.len(),
                bound == if n < m {
                    n
                } else {
                    m
                },
                0 <= i <= bound,
                T::obeys_partial_cmp_spec() ==> seq_partial_cmp_spec(self@, other@)
                    == seq_partial_cmp_spec(self@.skip(i as int), other@.skip(i as int)),
            decreases bound - i,
        {
            proof {
                assert(self@.skip(i as int)[0] == self@[i as int]);
                assert(other@.skip(i as int)[0] == other@[i as int]);
                assert(self@.skip(i as int).drop_first() =~= self@.skip(i + 1));
                assert(other@.skip(i as int).drop_first() =~= other@.skip(i + 1));
            }
            match self.elems[i].partial_cmp(&other.elems[i]) {
                Some(Ordering::Equal) => {
                    i += 1;
                },
                Some(Ordering::Less) => {
                    return Some(Ordering::Less);
                },
                Some(Ordering::Greater) => {
                    return Some(Ordering::Greater);
                },
                None => {
                    return None;
                },
            }
        }
        proof {
            if n <= m {
                assert(self@.skip(bound as int) =~= Seq::<T>::empty());
            }
            if m <= n {
                assert(other@.skip(bound as int) =~= Seq::<T>::empty());
            }
        }
        if n < m {
            Some(Ordering::Less)
        } else if n > m {
            Some(Ordering::Greater)
        } else {
            Some(Ordering::Equal)
        }
    }
}

/// Law: a full forward pass and a full backward pass over one list
/// collect sequences that are reverses of each other.
///
/// `Iter::next` yields the head of its remaining sequence, so consuming a
/// fresh forward iterator collects the list's sequence `fwd`; `Iter::
/// next_back` yields the last remaining element, so consuming a fresh
/// backward iterator collects the reverse of that same sequence. This law
/// states that the backward collection, reversed again, is exactly the
/// forward collection, element for element.
pub proof fn lemma_forward_backward_reverse<T>(fwd: Seq<T>, bwd: Seq<T>)
    requires
        bwd == fwd.reverse(),
    ensures
        bwd.len() == fwd.len(),
        forall|i: int| 0 <= i < fwd.len() ==> bwd[i] == fwd[fwd.len() - 1 - i],
        bwd.reverse() == fwd,
{
    assert(bwd.reverse() =~= fwd);
}

/// Law: splitting a list at a cursor and immediately splicing the two
/// parts back together reconstructs the original sequence exactly.
///
/// `CursorMut::split_before` at ordinal `i` returns the first `i` elements
/// and keeps the rest, and `CursorMut::splice_before`/`splice_after` put a
/// whole sequence back in at a boundary, so the recombined contents are
/// `elems.take(i) + elems.skip(i)`; this law states that this is the
/// original sequence. With `i` taken as the split ordinal plus one it
/// covers `split_after` the same way.
pub proof fn lemma_split_splice_round_trip<T>(elems: Seq<T>, i: int)
    requires
        0 <= i <= elems.len(),
    ensures
        elems.take(i) + elems.skip(i) == elems,
{
    assert(elems.take(i) + elems.skip(i) =~= elems);
}

/// Law: two lists are equal exactly when they have the same length and
/// elementwise-equal contents in forward order; in particular, lists of
/// different lengths are never equal.
///
/// `PartialEq::eq` on lists returns `eq_spec` whenever the element
/// equality obeys its own specification, so this law pins down what that
/// comparison means.
pub proof fn lemma_eq_iff_elementwise<T: PartialEq>(a: &LinkedList<T>, b: &LinkedList<T>)
    ensures
        PartialEqSpec::eq_spec(a, b) <==> (a@.len() == b@.len() && (forall|k: int|
            0 <= k < a@.len() ==> a@[k].eq_spec(&b@[k]))),
        a@.len() != b@.len() ==> !PartialEqSpec::eq_spec(a, b),
{
}

/// Law: pushing an element at either end puts exactly that element at that
/// end and keeps every other element in place, and popping the same end
/// undoes it.
///
/// `push_front` turns the sequence `l` into `seq![x] + l` and `push_back`
/// into `l.push(x)`; `pop_front` returns the head and keeps
/// `drop_first()`, `pop_back` returns the last element and keeps
/// `drop_last()`. This law states that each pop exactly undoes the
/// matching push, so forward iteration order always reflects front-to-back
/// insertion order, however pushes and pops are interleaved.
pub proof fn lemma_push_pop_round_trip<T>(l: Seq<T>, x: T)
    ensures
        (seq![x] + l).len() == l.len() + 1,
        (seq![x] + l)[0] == x,
        (seq![x] + l).drop_first() == l,
        l.push(x).len() == l.len() + 1,
        l.push(x).last() == x,
        l.push(x).drop_last() == l,
{
    assert((seq![x] + l).drop_first() =~= l);
    assert(l.push(x).drop_last() =~= l);
}

} // verus!


