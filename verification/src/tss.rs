//! The task state segment, as plain values.

use vstd::prelude::*;

verus! {

/// We use `RspN` with a 64-bit addr broken into 2 32-bit fields, because using a
/// u64 requires 64-bit alignment, but the RspN's in the TSS are only 32-bit aligned.
#[derive(Clone, Copy)]
pub struct UnalignedU64 {
    pub lo: u32,
    pub hi: u32,
}

/// The I/O permission bitmap; it holds no ports yet.
pub struct IoBitmap {}

impl IoBitmap {
    pub fn new() -> (r: Self) {
        Self {}
    }
}

/// The value that the two halves of an `UnalignedU64` stand for.
pub open spec fn joined(u: UnalignedU64) -> u64 {
    (u.lo as u64) | ((u.hi as u64) << 32u64)
}

impl UnalignedU64 {
    /// Splits `val` into its low and its high 32 bits.
    pub fn from_u64(val: u64) -> (r: Self)
        ensures
            r.lo == val & 0xFFFF_FFFF,
            r.hi == val >> 32,
            joined(r) == val,
    {
        let lo = (val & 0xFFFF_FFFF) as u32;
        let hi = (val >> 32) as u32;
        proof {
            lemma_unaligned_round_trip(val);
        }
        Self { lo, hi }
    }

    pub fn to_u64(self) -> (r: u64)
        ensures
            r == joined(self),
    {
        (self.lo as u64) | ((self.hi as u64) << 32)
    }
}

/// Splitting a value into halves and joining them gives the value back.
pub proof fn lemma_unaligned_round_trip(val: u64)
    ensures
        val & 0xFFFF_FFFF <= u32::MAX,
        val >> 32 <= u32::MAX,
        ((val & 0xFFFF_FFFF) as u32 as u64) | (((val >> 32) as u32 as u64) << 32u64) == val,
{
    assert(val & 0xFFFF_FFFF <= 0xFFFF_FFFF) by (bit_vector);
    assert(val >> 32 <= 0xFFFF_FFFF) by (bit_vector);
    assert(((val & 0xFFFF_FFFF) as u32 as u64) | (((val >> 32) as u32 as u64) << 32u64) == val)
        by (bit_vector);
}

/// Where the I/O bitmap lies in the task state segment, in bytes from its start.
pub const TSS_IO_BITMAP_OFFSET: u16 = 106;

/// The 64-bit task state segment: stack pointers for privilege changes, the
/// interrupt stack table, and where the I/O bitmap begins.
pub struct Tss {
    pub reserved_0: [u8; 4],
    pub rsps: [UnalignedU64; 3],
    pub reserved_1: [u8; 8],
    pub ists: [UnalignedU64; 7],
    pub reserved_2: [u8; 12],
    pub io_bitmap_offset: u16,
    pub io_bitmap: IoBitmap,
}

impl Tss {
    /// A segment with every stack pointer zero and the I/O bitmap right after the fixed fields.
    pub fn new() -> (r: Self)
        ensures
            forall|i: int| 0 <= i < 3 ==> r.rsps@[i].lo == 0 && r.rsps@[i].hi == 0,
            forall|i: int| 0 <= i < 7 ==> r.ists@[i].lo == 0 && r.ists@[i].hi == 0,
            r.reserved_0@ == Seq::new(4, |i: int| 0u8),
            r.reserved_1@ == Seq::new(8, |i: int| 0u8),
            r.reserved_2@ == Seq::new(12, |i: int| 0u8),
            r.io_bitmap_offset == TSS_IO_BITMAP_OFFSET,
    {
        let z = UnalignedU64::from_u64(0);
        assert(0u64 & 0xFFFF_FFFF == 0 && 0u64 >> 32 == 0) by (bit_vector);
        let r = Self {
            reserved_0: [0; 4],
            rsps: [z, z, z],
            reserved_1: [0; 8],
            ists: [z, z, z, z, z, z, z],
            reserved_2: [0; 12],
            io_bitmap_offset: TSS_IO_BITMAP_OFFSET,
            io_bitmap: IoBitmap::new(),
        };
        assert(r.reserved_0@ =~= Seq::new(4, |i: int| 0u8));
        assert(r.reserved_1@ =~= Seq::new(8, |i: int| 0u8));
        assert(r.reserved_2@ =~= Seq::new(12, |i: int| 0u8));
        r
    }
}

} // verus!
