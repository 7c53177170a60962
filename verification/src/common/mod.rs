pub mod flags;
pub mod buf_vec;
pub mod region;
pub mod string_buf;
pub mod try_vec;

use vstd::prelude::*;

verus! {

/// A place to stop a debugger at; it does nothing.
pub fn magic_break() {
}

/// A sync ptr wraps the address of a `T`, which is Send + Sync. It is best
/// used as an "opaque ptr", which is never dereferenced.
pub struct SyncPtr<T> {
    addr: usize,
    marker: core::marker::PhantomData<T>,
}

impl<T> SyncPtr<T> {
    pub closed spec fn addr_of(&self) -> usize {
        self.addr
    }

    pub fn new(ptr: usize) -> (r: Self)
        ensures
            r.addr_of() == ptr,
    {
        Self { addr: ptr, marker: core::marker::PhantomData }
    }

    /// The address held; never dereferenced here.
    pub fn get(&self) -> (r: usize)
        ensures
            r == self.addr_of(),
    {
        self.addr
    }
}

/// The mutable counterpart of `SyncPtr`: the address of a `T` that may be
/// written through, by code that makes sure no race happens.
pub struct SyncMutPtr<T> {
    addr: usize,
    marker: core::marker::PhantomData<T>,
}

impl<T> SyncMutPtr<T> {
    pub closed spec fn addr_of(&self) -> usize {
        self.addr
    }

    pub fn new(ptr: usize) -> (r: Self)
        ensures
            r.addr_of() == ptr,
    {
        Self { addr: ptr, marker: core::marker::PhantomData }
    }

    /// The address held; never dereferenced here.
    pub fn get(&self) -> (r: usize)
        ensures
            r == self.addr_of(),
    {
        self.addr
    }
}

} // verus!
