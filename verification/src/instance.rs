//! An ordered, index-addressed collection of shape instances. Removal is by
//! position: removing index `i` shifts every later element down by one, so
//! indices must not be cached across a removal.

use vstd::prelude::*;

verus! {

/// The error `remove` reports for an index at or past the end.
#[derive(Clone, Copy, Debug, PartialEq, Eq, Structural)]
pub struct IndexOutOfRange;

/// An append-only-except-removal list of instances of one shape type.
pub struct Instances<T> {
    list: Vec<T>,
}

impl<T> Instances<T> {
    /// The sequence of instances, in insertion order.
    pub closed spec fn items(&self) -> Seq<T> {
        self.list@
    }

    /// An empty collection.
    pub fn new() -> (s: Self)
        ensures
            s.items() == Seq::<T>::empty(),
    {
        Self { list: Vec::new() }
    }

    /// Append one instance at the end.
    pub fn add(&mut self, instance: T)
        ensures
            final(self).items() == old(self).items().push(instance),
    {
        self.list.push(instance);
    }

    /// Remove the instance at `index`; every later instance moves down one
    /// position. Fails, changing nothing, exactly when `index` is at or past
    /// the current length.
    pub fn remove(&mut self, index: u32) -> (r: Result<(), IndexOutOfRange>)
        ensures
            (r is Ok) == (index < old(self).items().len()),
            r is Ok ==> final(self).items() == old(self).items().remove(index as int),
            r is Err ==> *final(self) == *old(self),
    {
        if (index as usize) < self.list.len() {
            self.list.remove(index as usize);
            Ok(())
        } else {
            Err(IndexOutOfRange)
        }
    }

    /// The instance at `index`, if any.
    pub fn get(&self, index: u32) -> (r: Option<&T>)
        ensures
            (r is Some) == (index < self.items().len()),
            r matches Some(v) ==> *v == self.items()[index as int],
    {
        if (index as usize) < self.list.len() {
            Some(&self.list[index as usize])
        } else {
            None
        }
    }

    /// The current number of instances.
    pub fn length(&self) -> (r: u32)
        requires
            self.items().len() <= u32::MAX,
        ensures
            r == self.items().len(),
    {
        self.list.len() as u32
    }
}

} // verus!
