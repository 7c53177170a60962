use vstd::prelude::*;

verus! {

/// A vector with a fixed capacity `N`, stored inline: it never allocates,
/// and pushing past the capacity fails instead of growing the storage.
pub struct BufVec<T: Copy, const N: usize> {
    len: usize,
    buf: [Option<T>; N],
}

/// A cursor over the items of a `BufVec`, from the first to the last.
pub struct BufVecIter<'a, T: Copy, const N: usize> {
    vec: &'a BufVec<T, N>,
    idx: usize,
}

impl<T: Copy, const N: usize> View for BufVec<T, N> {
    type V = Seq<T>;

    closed spec fn view(&self) -> Seq<T> {
        Seq::new(self.len as nat, |i: int| self.buf@[i]->0)
    }
}

impl<T: Copy, const N: usize> BufVec<T, N> {
    /// The number of items never exceeds the capacity, and every slot below
    /// the length holds an item.
    #[verifier::type_invariant]
    spec fn within_capacity(&self) -> bool {
        &&& self.len <= N
        &&& forall|i: int| 0 <= i < self.len ==> #[trigger] self.buf@[i] is Some
    }

    pub fn new() -> (r: Self)
        ensures
            r@ == Seq::<T>::empty(),
    {
        let r = BufVec { len: 0, buf: [None; N] };
        assert(r@ =~= Seq::<T>::empty());
        r
    }

    pub fn len(&self) -> (r: usize)
        ensures
            r == self@.len(),
            r <= N,
    {
        proof {
            use_type_invariant(self);
        }
        self.len
    }

    /// Use result to force user to not ignore failure
    pub fn push(&mut self, item: T) -> (r: Result<(), ()>)
        ensures
            r is Ok <==> old(self)@.len() < N,
            final(self)@.len() <= N,
            r is Ok ==> final(self)@ == old(self)@.push(item),
            r is Err ==> final(self)@ == old(self)@,
    {
        proof {
            use_type_invariant(&*self);
        }
        if self.len < N {
            let i = self.len;
            self.buf[i] = Some(item);
            self.len = i + 1;
            assert(self@ =~= old(self)@.push(item));
            Ok(())
        } else {
            Err(())
        }
    }

    /// Pushes the items in order; stops at the first one that does not fit,
    /// keeping the items pushed before it.
    pub fn extend(&mut self, items: &[T]) -> (r: Result<(), ()>)
        ensures
            r is Ok <==> old(self)@.len() + items@.len() <= N,
            r is Ok ==> final(self)@ == old(self)@ + items@,
            r is Err ==> final(self)@ == old(self)@ + items@.take(N - old(self)@.len()),
    {
        proof {
            use_type_invariant(&*self);
        }
        let mut i: usize = 0;
        while i < items.len()
            invariant
                0 <= i <= items@.len(),
                old(self)@.len() + i <= N,
                self@ == old(self)@ + items@.take(i as int),
            decreases items@.len() - i,
        {
            proof {
                use_type_invariant(&*self);
            }
            let pushed = self.push(items[i]);
            if pushed.is_err() {
                return Err(());
            }
            assert(items@.take(i + 1) == items@.take(i as int).push(items@[i as int]));
            i = i + 1;
        }
        assert(items@.take(i as int) == items@);
        Ok(())
    }

    pub fn iter(&self) -> (r: BufVecIter<'_, T, N>)
        ensures
            r.source() == self,
            r.pos() == 0,
    {
        BufVecIter { vec: self, idx: 0 }
    }

    /// The item at `index`, which must be below the length.
    pub fn index(&self, index: usize) -> (r: T)
        requires
            index < self@.len(),
        ensures
            r == self@[index as int],
    {
        proof {
            use_type_invariant(self);
            assert(self.buf@[index as int] is Some);
        }
        self.buf[index].unwrap()
    }
}

impl<'a, T: Copy, const N: usize> BufVecIter<'a, T, N> {
    /// The index of the next item this cursor yields.
    pub closed spec fn pos(&self) -> nat {
        self.idx as nat
    }

    /// The vector this cursor walks over.
    pub closed spec fn source(&self) -> &'a BufVec<T, N> {
        self.vec
    }

    /// Yields the next item, or `None` once every item has been yielded.
    pub fn next(&mut self) -> (r: Option<T>)
        ensures
            final(self).source() == old(self).source(),
            old(self).pos() < old(self).source()@.len() ==> {
                &&& r == Some(old(self).source()@[old(self).pos() as int])
                &&& final(self).pos() == old(self).pos() + 1
            },
            old(self).pos() >= old(self).source()@.len() ==> {
                &&& r is None
                &&& final(self).pos() == old(self).pos()
            },
    {
        if self.idx < self.vec.len() {
            let item = self.vec.index(self.idx);
            self.idx = self.idx + 1;
            Some(item)
        } else {
            None
        }
    }
}

} // verus!
