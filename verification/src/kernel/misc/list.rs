//! A list whose elements are reached from its head.
use vstd::prelude::*;

verus! {

/// A list with an allocator for its nodes; its elements, from the head,
/// and a count of the elements pushed, which taking an element leaves as
/// it is.
pub struct LinkedList<T, A> {
    items: Vec<T>,
    len: usize,
    alloc: A,
}

/// A node of a list.
pub struct Node<T> {
    pub data: T,
}

impl<T, A> View for LinkedList<T, A> {
    type V = Seq<T>;

    closed spec fn view(&self) -> Seq<T> {
        self.items@
    }
}

impl<T, A> LinkedList<T, A> {
    /// The count of elements pushed.
    pub closed spec fn count(&self) -> nat {
        self.len as nat
    }
}

impl<T> LinkedList<T, ()> {
    /// An empty list with the default allocator.
    pub fn new() -> (r: Self)
        ensures
            r@ == Seq::<T>::empty(),
            r.count() == 0,
    {
        Self::new_in(())
    }
}

impl<T, A> LinkedList<T, A> {
    /// An empty list whose nodes come from `alloc`.
    pub fn new_in(alloc: A) -> (r: Self)
        ensures
            r@ == Seq::<T>::empty(),
            r.count() == 0,
    {
        LinkedList { items: Vec::new(), len: 0, alloc }
    }

    /// Whether the count of elements pushed is zero.
    pub fn is_empty(&self) -> (r: bool)
        ensures
            r == (self.count() == 0),
    {
        self.len == 0
    }

    /// The element at the head; `None` when the count is zero. A list with
    /// a count must hold an element: its head is read.
    pub fn front(&self) -> (r: Option<&T>)
        requires
            self.count() != 0 ==> self@.len() > 0,
        ensures
            r == if self.count() == 0 {
                None::<&T>
            } else {
                Some(&self@[0])
            },
    {
        if self.len == 0 {
            None
        } else {
            Some(&self.items[0])
        }
    }

    /// Puts `v` at the head. The list must not be empty: the old head's
    /// back link is updated through it.
    pub fn push_front(&mut self, v: T)
        requires
            old(self)@.len() > 0,
            old(self).count() < usize::MAX,
        ensures
            final(self)@ == seq![v] + old(self)@,
            final(self).count() == old(self).count() + 1,
    {
        self.items.insert(0, v);
        self.len = self.len + 1;
        assert(self.items@ =~= seq![v] + old(self)@);
    }

    /// Takes the element at the head; the count stays as it is.
    pub fn pop_front(&mut self) -> (r: Option<T>)
        ensures
            final(self).count() == old(self).count(),
            old(self)@.len() == 0 ==> r is None && final(self)@ == old(self)@,
            old(self)@.len() > 0 ==> r == Some(old(self)@[0]) && final(self)@ == old(self)@.drop_first(),
    {
        if self.items.len() == 0 {
            None
        } else {
            let v = self.items.remove(0);
            assert(self.items@ =~= old(self)@.drop_first());
            Some(v)
        }
    }

    /// Moves the tail pointer `k` times; the elements reached from the head
    /// stay as they are. On a list with elements the tail pointer never
    /// catches up with the head, so only `k == 0` returns there.
    pub fn rotate_right(&mut self, k: usize)
        requires
            k == 0 || old(self)@.len() == 0,
        ensures
            final(self)@ == old(self)@,
            final(self).count() == old(self).count(),
    {
    }
}

} // verus!
