//! A plain double-ended list without a cursor.
//!
//! `List<T>` supports insertion, removal and peeking at both ends, plus
//! forward iteration. It is a simpler companion to
//! [`crate::linked_list::LinkedList`], which adds the structural cursor.

use vstd::prelude::*;

verus! {

/// A double-ended list of elements, abstractly a sequence `self@`.
pub struct List<T> {
    elems: Vec<T>,
}

impl<T> View for List<T> {
    type V = Seq<T>;

    closed spec fn view(&self) -> Seq<T> {
        self.elems@
    }
}

impl<T> List<T> {
    /// The empty list.
    pub fn new() -> (r: Self)
        ensures
            r@ == Seq::<T>::empty(),
    {
        List { elems: Vec::new() }
    }

    /// Inserts an element at the front.
    pub fn push_front(&mut self, elem: T)
        ensures
            final(self)@ == seq![elem] + old(self)@,
    {
        self.elems.insert(0, elem);
        proof {
            assert(final(self)@ =~= seq![elem] + old(self)@);
        }
    }

    /// Removes and returns the front element; `None` exactly when the list
    /// is empty, in which case the list is left unchanged.
    pub fn pop_front(&mut self) -> (r: Option<T>)
        ensures
            match r {
                Some(x) => old(self)@.len() > 0 && x == old(self)@[0] && final(self)@ == old(
                    self,
                )@.drop_first(),
                None => old(self)@.len() == 0 && final(self)@ == old(self)@,
            },
    {
        if self.elems.len() == 0 {
            None
        } else {
            Some(self.elems.remove(0))
        }
    }

    /// The front element, without removing it; `None` exactly when empty.
    pub fn peek_front(&self) -> (r: Option<&T>)
        ensures
            match r {
                Some(x) => self@.len() > 0 && *x == self@[0],
                None => self@.len() == 0,
            },
    {
        self.elems.as_slice().first()
    }

    /// Inserts an element at the back.
    pub fn push_back(&mut self, elem: T)
        ensures
            final(self)@ == old(self)@.push(elem),
    {
        self.elems.push(elem);
    }

    /// Removes and returns the back element; `None` exactly when the list
    /// is empty, in which case the list is left unchanged.
    pub fn pop_back(&mut self) -> (r: Option<T>)
        ensures
            match r {
                Some(x) => old(self)@.len() > 0 && x == old(self)@.last() && final(self)@ == old(
                    self,
                )@.drop_last(),
                None => old(self)@.len() == 0 && final(self)@ == old(self)@,
            },
    {
        self.elems.pop()
    }

    /// The back element, without removing it; `None` exactly when empty.
    pub fn peek_back(&self) -> (r: Option<&T>)
        ensures
            match r {
                Some(x) => self@.len() > 0 && *x == self@.last(),
                None => self@.len() == 0,
            },
    {
        self.elems.as_slice().last()
    }

    /// Exclusive access to the back element; `None` exactly when empty.
    pub fn peek_back_mut(&mut self) -> (r: Option<&mut T>)
        ensures
            old(self)@.len() == 0 ==> r is None && final(self)@ == old(self)@,
            old(self)@.len() > 0 ==> r is Some && *r.unwrap() == old(self)@.last() && final(self)@
                == old(self)@.update(old(self)@.len() - 1, *final(r.unwrap())),
    {
        self.elems.as_mut_slice().last_mut()
    }

    /// Exclusive access to the front element; `None` exactly when empty.
    pub fn peek_front_mut(&mut self) -> (r: Option<&mut T>)
        ensures
            old(self)@.len() == 0 ==> r is None && final(self)@ == old(self)@,
            old(self)@.len() > 0 ==> r is Some && *r.unwrap() == old(self)@[0] && final(self)@
                == old(self)@.update(0, *final(r.unwrap())),
    {
        self.elems.as_mut_slice().first_mut()
    }

    /// A read-only iterator over the whole list, front to back.
    pub fn iter(&self) -> (r: Iter<'_, T>)
        ensures
            r@ == self@,
    {
        Iter { rest: self.elems.as_slice() }
    }

    /// Turns the list into a consuming iterator over its elements.
    pub fn into_iter(self) -> (r: IntoIter<T>)
        ensures
            r@ == self@,
    {
        IntoIter { list: self }
    }
}

/// A consuming iterator over a [`List`]: each forward step pops the front
/// element, each backward step pops the back element.
pub struct IntoIter<T> {
    list: List<T>,
}

impl<T> View for IntoIter<T> {
    type V = Seq<T>;

    closed spec fn view(&self) -> Seq<T> {
        self.list@
    }
}

impl<T> IntoIter<T> {
    /// Removes and returns the front remaining element.
    pub fn next(&mut self) -> (r: Option<T>)
        ensures
            match r {
                Some(x) => old(self)@.len() > 0 && x == old(self)@[0] && final(self)@ == old(
                    self,
                )@.drop_first(),
                None => old(self)@.len() == 0 && final(self)@ == old(self)@,
            },
    {
        self.list.pop_front()
    }

    /// Removes and returns the back remaining element.
    pub fn next_back(&mut self) -> (r: Option<T>)
        ensures
            match r {
                Some(x) => old(self)@.len() > 0 && x == old(self)@.last() && final(self)@ == old(
                    self,
                )@.drop_last(),
                None => old(self)@.len() == 0 && final(self)@ == old(self)@,
            },
    {
        self.list.pop_back()
    }
}

/// A read-only forward iterator over a [`List`].
pub struct Iter<'a, T> {
    rest: &'a [T],
}

impl<'a, T> View for Iter<'a, T> {
    type V = Seq<T>;

    closed spec fn view(&self) -> Seq<T> {
        self.rest@
    }
}

impl<'a, T> Iter<'a, T> {
    /// The front remaining element, consuming it from this iterator only.
    pub fn next(&mut self) -> (r: Option<&'a T>)
        ensures
            match r {
                Some(x) => old(self)@.len() > 0 && *x == old(self)@[0] && final(self)@ == old(
                    self,
                )@.drop_first(),
                None => old(self)@.len() == 0 && final(self)@ == old(self)@,
            },
    {
        if self.rest.len() == 0 {
            None
        } else {
            let (first, tail) = self.rest.split_at(1);
            self.rest = tail;
            Some(&first[0])
        }
    }
}

} // verus!
