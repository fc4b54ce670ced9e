//! A single-ended FIFO queue.
//!
//! `List<T>` enqueues at the back with [`List::push`] and dequeues at the
//! front with [`List::pop`], with peeking and forward iteration. It is the
//! simplest companion to [`crate::linked_list::LinkedList`].

use vstd::prelude::*;

verus! {

/// A first-in first-out queue of elements, abstractly a sequence `self@`
/// ordered front to back.
pub struct List<T> {
    elems: Vec<T>,
}

impl<T> View for List<T> {
    type V = Seq<T>;

    closed spec fn view(&self) -> Seq<T> {
        self.elems@
    }
}

impl<T> List<T> {
    /// The empty queue.
    pub fn new() -> (r: Self)
        ensures
            r@ == Seq::<T>::empty(),
    {
        List { elems: Vec::new() }
    }

    /// Enqueues an element at the back.
    pub fn push(&mut self, elem: T)
        ensures
            final(self)@ == old(self)@.push(elem),
    {
        self.elems.push(elem);
    }

    /// Dequeues the front element; `None` exactly when the queue is empty,
    /// in which case the queue is left unchanged.
    pub fn pop(&mut self) -> (r: Option<T>)
        ensures
            match r {
                Some(x) => old(self)@.len() > 0 && x == old(self)@[0] && final(self)@ == old(
                    self,
                )@.drop_first(),
                None => old(self)@.len() == 0 && final(self)@ == old(self)@,
            },
    {
        if self.elems.len() == 0 {
            None
        } else {
            Some(self.elems.remove(0))
        }
    }

    /// The front element, without removing it; `None` exactly when empty.
    pub fn peek(&self) -> (r: Option<&T>)
        ensures
            match r {
                Some(x) => self@.len() > 0 && *x == self@[0],
                None => self@.len() == 0,
            },
    {
        self.elems.as_slice().first()
    }

    /// Exclusive access to the front element; `None` exactly when empty.
    pub fn peek_mut(&mut self) -> (r: Option<&mut T>)
        ensures
            old(self)@.len() == 0 ==> r is None && final(self)@ == old(self)@,
            old(self)@.len() > 0 ==> r is Some && *r.unwrap() == old(self)@[0] && final(self)@
                == old(self)@.update(0, *final(r.unwrap())),
    {
        self.elems.as_mut_slice().first_mut()
    }

    /// A read-only iterator over the whole queue, front to back.
    pub fn iter(&self) -> (r: Iter<'_, T>)
        ensures
            r@ == self@,
    {
        Iter { rest: self.elems.as_slice() }
    }

    /// An iterator over the whole queue yielding exclusive references,
    /// front to back. Once the iterator and every reference it handed out
    /// are gone, the queue holds the values written through them: its final
    /// contents are the final contents of the iterator's stretch.
    pub fn iter_mut(&mut self) -> (r: IterMut<'_, T>)
        ensures
            r@ == old(self)@,
            r.rest is Some,
            final(self)@ == (final(r.rest.unwrap()))@,
    {
        IterMut { rest: Some(self.elems.as_mut_slice()) }
    }

    /// Turns the queue into a consuming iterator over its elements.
    pub fn into_iter(self) -> (r: IntoIter<T>)
        ensures
            r@ == self@,
    {
        IntoIter { list: self }
    }
}

/// A consuming iterator over a [`List`]: each step dequeues the front
/// element.
pub struct IntoIter<T> {
    list: List<T>,
}

impl<T> View for IntoIter<T> {
    type V = Seq<T>;

    closed spec fn view(&self) -> Seq<T> {
        self.list@
    }
}

impl<T> IntoIter<T> {
    /// Removes and returns the front remaining element.
    pub fn next(&mut self) -> (r: Option<T>)
        ensures
            match r {
                Some(x) => old(self)@.len() > 0 && x == old(self)@[0] && final(self)@ == old(
                    self,
                )@.drop_first(),
                None => old(self)@.len() == 0 && final(self)@ == old(self)@,
            },
    {
        self.list.pop()
    }
}

/// A read-only forward iterator over a [`List`].
pub struct Iter<'a, T> {
    rest: &'a [T],
}

impl<'a, T> View for Iter<'a, T> {
    type V = Seq<T>;

    closed spec fn view(&self) -> Seq<T> {
        self.rest@
    }
}

impl<'a, T> Iter<'a, T> {
    /// The front remaining element, consuming it from this iterator only.
    pub fn next(&mut self) -> (r: Option<&'a T>)
        ensures
            match r {
                Some(x) => old(self)@.len() > 0 && *x == old(self)@[0] && final(self)@ == old(
                    self,
                )@.drop_first(),
                None => old(self)@.len() == 0 && final(self)@ == old(self)@,
            },
    {
        if self.rest.len() == 0 {
            None
        } else {
            let (first, tail) = self.rest.split_at(1);
            self.rest = tail;
            Some(&first[0])
        }
    }
}

/// A forward iterator over a [`List`] that yields exclusive references.
/// Each step gives up the iterator's own access to the element it yields,
/// so no two live references alias.
pub struct IterMut<'a, T> {
    /// The stretch of the queue not yet handed out, or `None` once
    /// exhausted.
    pub rest: Option<&'a mut [T]>,
}

impl<'a, T> View for IterMut<'a, T> {
    type V = Seq<T>;

    closed spec fn view(&self) -> Seq<T> {
        match self.rest {
            Some(s) => s@,
            None => Seq::empty(),
        }
    }
}

impl<'a, T> IterMut<'a, T> {
    /// Exclusive access to the front remaining element, consuming it from
    /// this iterator. The stretch this iterator held ends up as the value
    /// written through the yielded reference followed by the final contents
    /// of the shrunk stretch.
    pub fn next(&mut self) -> (r: Option<&'a mut T>)
        ensures
            match r {
                Some(x) => old(self)@.len() > 0 && *x == old(self)@[0] && final(self)@ == old(
                    self,
                )@.drop_first(),
                None => old(self)@.len() == 0 && final(self)@.len() == 0,
            },
            match old(self).rest {
                None => r is None && final(self).rest is None,
                Some(s) => match r {
                    None => (final(s))@ == Seq::<T>::empty() && final(self).rest is None,
                    Some(x) => final(self).rest is Some && (final(s))@ == seq![*final(x)]
                        + (final(final(self).rest.unwrap()))@,
                },
            },
    {
        match self.rest.take() {
            None => None,
            Some(s) => {
                if s.len() == 0 {
                    None
                } else {
                    let (first, tail) = s.split_at_mut(1);
                    self.rest = Some(tail);
                    first.first_mut()
                }
            },
        }
    }
}

} // verus!
