use vstd::prelude::*;

verus! {

/// An append-only list that holds at most `SIZE` items, stored inline.
#[derive(Clone, Copy, PartialEq, Eq, Debug)]
pub struct Minivec<const SIZE: usize, T: Default + Copy> {
    length: usize,
    inner: [T; SIZE],
}

impl<const SIZE: usize, T: Default + Copy> Minivec<SIZE, T> {
    /// The items held, in the order they were pushed.
    pub closed spec fn view(&self) -> Seq<T> {
        self.inner@.subrange(0, self.length as int)
    }

    pub closed spec fn wf(&self) -> bool {
        self.length <= SIZE
    }

    pub fn new() -> (r: Self)
        ensures
            r.wf(),
            r.view() == Seq::<T>::empty(),
    {
        let r = Minivec { length: 0, inner: [T::default(); SIZE] };
        assert(r.view() =~= Seq::<T>::empty());
        r
    }

    pub fn len(&self) -> (r: usize)
        requires
            self.wf(),
        ensures
            r == self.view().len(),
            r <= SIZE,
    {
        self.length
    }

    /// Appends `item`, or hands it back when the list is already full.
    pub fn push(&mut self, item: T) -> (r: Result<(), T>)
        requires
            old(self).wf(),
        ensures
            final(self).wf(),
            old(self).view().len() < SIZE ==> r is Ok && final(self).view() == old(self).view().push(item),
            old(self).view().len() >= SIZE ==> r == Err::<(), T>(item) && *final(self) == *old(self),
    {
        if self.length >= SIZE {
            return Err(item);
        }
        let ghost before = self.view();
        self.inner[self.length] = item;
        self.length = self.length + 1;
        assert(self.view() =~= before.push(item));
        Ok(())
    }

    /// The item at position `index`.
    pub fn index(&self, index: usize) -> (r: T)
        requires
            self.wf(),
            index < self.view().len(),
        ensures
            r == self.view()[index as int],
    {
        self.inner[index]
    }

    /// A cursor that yields the items from the first one on.
    pub fn into_iter(&self) -> (r: MiniVecIterator<'_, SIZE, T>)
        requires
            self.wf(),
        ensures
            r.wf(),
            r.items() == self.view(),
            r.position() == 0,
    {
        MiniVecIterator { inner: self, position: 0 }
    }
}

/// A cursor over the items of a `Minivec`.
pub struct MiniVecIterator<'a, const SIZE: usize, T: Default + Copy> {
    inner: &'a Minivec<SIZE, T>,
    position: usize,
}

impl<'a, const SIZE: usize, T: Default + Copy> MiniVecIterator<'a, SIZE, T> {
    /// The items of the list walked over.
    pub closed spec fn items(&self) -> Seq<T> {
        self.inner.view()
    }

    /// How many items have been handed out so far.
    pub closed spec fn position(&self) -> nat {
        self.position as nat
    }

    pub closed spec fn wf(&self) -> bool {
        self.inner.wf() && self.position <= self.inner.view().len()
    }

    /// The next item, or `None` once all have been handed out.
    pub fn next(&mut self) -> (r: Option<T>)
        requires
            old(self).wf(),
        ensures
            final(self).wf(),
            final(self).items() == old(self).items(),
            old(self).position() < old(self).items().len() ==> r == Some(
                old(self).items()[old(self).position() as int],
            ) && final(self).position() == old(self).position() + 1,
            old(self).position() >= old(self).items().len() ==> r is None && final(self).position()
                == old(self).position(),
    {
        if self.position < self.inner.len() {
            let value = self.inner.index(self.position);
            self.position = self.position + 1;
            Some(value)
        } else {
            None
        }
    }
}

} // verus!
