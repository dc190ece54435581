//! An append-only sequence whose natural reading order is newest first.
use vstd::prelude::*;

verus! {

pub struct Chain<T> {
    items: Vec<T>,
}

impl<T> View for Chain<T> {
    type V = Seq<T>;

    /// The items oldest first: the head is the last element.
    closed spec fn view(&self) -> Seq<T> {
        self.items@
    }
}

impl<T> Chain<T> {
    pub fn new() -> (r: Chain<T>)
        ensures
            r@ == Seq::<T>::empty(),
    {
        Chain { items: Vec::new() }
    }

    pub fn len(&self) -> (r: usize)
        ensures
            r == self@.len(),
    {
        self.items.len()
    }

    /// Makes `item` the new head.
    pub fn append(&mut self, item: T)
        ensures
            final(self)@ == old(self)@.push(item),
    {
        self.items.push(item);
    }

    /// The most recently appended item.
    pub fn head(&self) -> (r: Option<&T>)
        ensures
            r is None <==> self@.len() == 0,
            r is Some ==> *r->Some_0 == self@.last(),
    {
        if self.items.len() == 0 {
            None
        } else {
            Some(&self.items[self.items.len() - 1])
        }
    }

    /// The item `i` places back from the head (the head itself at zero).
    pub fn get(&self, i: usize) -> (r: Option<&T>)
        ensures
            r is None <==> i >= self@.len(),
            r is Some ==> *r->Some_0 == self@[self@.len() - 1 - i],
    {
        if i < self.items.len() {
            Some(&self.items[self.items.len() - 1 - i])
        } else {
            None
        }
    }

    /// Mutable access to the item `i` places back from the head.
    pub fn get_mut(&mut self, i: usize) -> (r: &mut T)
        requires
            i < old(self)@.len(),
        ensures
            *r == old(self)@[old(self)@.len() - 1 - i],
            final(self)@ == old(self)@.update(old(self)@.len() - 1 - i, *final(r)),
    {
        let k = self.items.len() - 1 - i;
        &mut self.items[k]
    }
}

} // verus!
