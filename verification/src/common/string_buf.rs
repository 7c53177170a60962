use vstd::prelude::*;
use vstd::string::StringSliceAdditionalSpecFns;

verus! {

/// A growable byte string whose every growth is fallible: memory is reserved
/// first, and a failed reservation leaves the string unchanged.
pub struct StringBuf {
    buf: Vec<u8>,
}

impl View for StringBuf {
    type V = Seq<u8>;

    closed spec fn view(&self) -> Seq<u8> {
        self.buf@
    }
}

impl StringBuf {
    pub fn new() -> (r: Self)
        ensures
            r@ == Seq::<u8>::empty(),
    {
        Self { buf: Vec::new() }
    }

    pub fn clone(&self) -> (r: Self)
        ensures
            r@ == self@,
    {
        let mut buf: Vec<u8> = Vec::new();
        let mut i: usize = 0;
        while i < self.buf.len()
            invariant
                0 <= i <= self.buf@.len(),
                buf@ == self.buf@.take(i as int),
            decreases self.buf@.len() - i,
        {
            buf.push(self.buf[i]);
            assert(self.buf@.take(i + 1) == self.buf@.take(i as int).push(self.buf@[i as int]));
            i = i + 1;
        }
        assert(self.buf@.take(i as int) == self.buf@);
        Self { buf }
    }

    pub fn len(&self) -> (r: usize)
        ensures
            r == self@.len(),
    {
        self.buf.len()
    }

    /// Appends the UTF-8 bytes of `s`; on failure to reserve room for them,
    /// the string is left as it was.
    pub fn extend(&mut self, s: &str) -> (r: Result<(), ()>)
        ensures
            r is Ok ==> final(self)@ == old(self)@ + s.spec_bytes(),
            r is Err ==> final(self)@ == old(self)@,
    {
        let bytes = s.as_bytes();
        let reserved = self.buf.try_reserve(bytes.len()).is_ok();
        self.append_reserved(reserved, bytes)
    }

    /// Appends `c`; on failure to reserve room for it, the string is left as it was.
    pub fn try_push(&mut self, c: u8) -> (r: Result<(), ()>)
        ensures
            r is Ok ==> final(self)@ == old(self)@.push(c),
            r is Err ==> final(self)@ == old(self)@,
    {
        let reserved = self.buf.try_reserve(1).is_ok();
        self.push_reserved(reserved, c)
    }

    /// Appends the UTF-8 bytes of `s`, as a formatting sink does; on failure
    /// to reserve room for them, the string is left as it was.
    pub fn write_str(&mut self, s: &str) -> (r: Result<(), ()>)
        ensures
            r is Ok ==> final(self)@ == old(self)@ + s.spec_bytes(),
            r is Err ==> final(self)@ == old(self)@,
    {
        let bytes = s.as_bytes();
        let res = self.buf.try_reserve(bytes.len());
        self.append_reserved(res.is_ok(), bytes)
    }

    /// Finishes an append once the reservation for it is known: appends
    /// `bytes` when room was reserved, and otherwise fails without change.
    pub fn append_reserved(&mut self, reserved: bool, bytes: &[u8]) -> (r: Result<(), ()>)
        ensures
            r is Ok <==> reserved,
            r is Ok ==> final(self)@ == old(self)@ + bytes@,
            r is Err ==> final(self)@ == old(self)@,
    {
        if !reserved {
            return Err(());
        }
        self.append_bytes(bytes);
        Ok(())
    }

    /// Finishes a push once the reservation for it is known: pushes `c` when
    /// room was reserved, and otherwise fails without change.
    pub fn push_reserved(&mut self, reserved: bool, c: u8) -> (r: Result<(), ()>)
        ensures
            r is Ok <==> reserved,
            r is Ok ==> final(self)@ == old(self)@.push(c),
            r is Err ==> final(self)@ == old(self)@,
    {
        if !reserved {
            return Err(());
        }
        self.buf.push(c);
        Ok(())
    }

    fn append_bytes(&mut self, bytes: &[u8])
        ensures
            final(self)@ == old(self)@ + bytes@,
    {
        let mut i: usize = 0;
        while i < bytes.len()
            invariant
                0 <= i <= bytes@.len(),
                self@ == old(self)@ + bytes@.take(i as int),
            decreases bytes@.len() - i,
        {
            self.buf.push(bytes[i]);
            assert(bytes@.take(i + 1) == bytes@.take(i as int).push(bytes@[i as int]));
            i = i + 1;
        }
        assert(bytes@.take(i as int) == bytes@);
    }

    /// The bytes of the string.
    pub fn as_bytes(&self) -> (r: &[u8])
        ensures
            r@ == self@,
    {
        self.buf.as_slice()
    }

    /// Gives up the string for its bytes.
    pub fn into_bytes(self) -> (r: Vec<u8>)
        ensures
            r@ == self@,
    {
        self.buf
    }
}

} // verus!
