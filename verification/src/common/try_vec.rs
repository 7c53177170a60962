use vstd::prelude::*;

verus! {

/// A growable vector whose every growth is fallible: memory is reserved
/// first, and a failed reservation leaves the vector unchanged.
pub struct TryVec<T> {
    buf: Vec<T>,
}

/// A cursor over the items of a `TryVec`, from the first to the last.
pub struct TryVecIter<'a, T> {
    idx: usize,
    try_vec: &'a TryVec<T>,
}

impl<T> View for TryVec<T> {
    type V = Seq<T>;

    closed spec fn view(&self) -> Seq<T> {
        self.buf@
    }
}

impl<T> TryVec<T> {
    pub fn new() -> (r: Self)
        ensures
            r@ == Seq::<T>::empty(),
    {
        Self { buf: Vec::new() }
    }

    pub fn len(&self) -> (r: usize)
        ensures
            r == self@.len(),
    {
        self.buf.len()
    }

    /// Appends `value`; on failure to reserve room for it, the vector is left as it was.
    pub fn try_push(&mut self, value: T) -> (r: Result<(), ()>)
        ensures
            r is Ok ==> final(self)@ == old(self)@.push(value),
            r is Err ==> final(self)@ == old(self)@,
    {
        let reserved = self.buf.try_reserve(1).is_ok();
        self.push_reserved(reserved, value)
    }

    /// Finishes a push once the reservation for it is known: pushes `value`
    /// when room was reserved, and otherwise fails without change.
    pub fn push_reserved(&mut self, reserved: bool, value: T) -> (r: Result<(), ()>)
        ensures
            r is Ok <==> reserved,
            r is Ok ==> final(self)@ == old(self)@.push(value),
            r is Err ==> final(self)@ == old(self)@,
    {
        if !reserved {
            return Err(());
        }
        self.buf.push(value);
        Ok(())
    }

    pub fn iter(&self) -> (r: TryVecIter<'_, T>)
        ensures
            r.source() == self,
            r.pos() == 0,
    {
        TryVecIter { idx: 0, try_vec: self }
    }

    /// The item at `index`, which must be below the length.
    pub fn index(&self, index: usize) -> (r: &T)
        requires
            index < self@.len(),
        ensures
            *r == self@[index as int],
    {
        &self.buf[index]
    }
}

impl<'a, T> TryVecIter<'a, T> {
    /// The index of the next item this cursor yields.
    pub closed spec fn pos(&self) -> nat {
        self.idx as nat
    }

    /// The vector this cursor walks over.
    pub closed spec fn source(&self) -> &'a TryVec<T> {
        self.try_vec
    }

    /// Yields the next item, or `None` once every item has been yielded.
    pub fn next(&mut self) -> (r: Option<&'a T>)
        ensures
            final(self).source() == old(self).source(),
            old(self).pos() < old(self).source()@.len() ==> {
                &&& r == Some(&old(self).source()@[old(self).pos() as int])
                &&& final(self).pos() == old(self).pos() + 1
            },
            old(self).pos() >= old(self).source()@.len() ==> {
                &&& r is None
                &&& final(self).pos() == old(self).pos()
            },
    {
        if self.idx < self.try_vec.len() {
            let item = self.try_vec.index(self.idx);
            self.idx = self.idx + 1;
            Some(item)
        } else {
            None
        }
    }
}

} // verus!
