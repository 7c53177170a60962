use vstd::prelude::*;

verus! {

/// Whether bit `i` (counted from the least significant bit) of `x` is one.
pub open spec fn bit_of(x: u64, i: u64) -> bool {
    (x >> i) & 1u64 == 1u64
}

/// The value of `original` after setting (`should_set`) or clearing the bits of `bitmask`.
pub open spec fn spec_write_bitmask(original: u64, bitmask: u64, should_set: bool) -> u64 {
    if should_set {
        original | bitmask
    } else {
        original & !bitmask
    }
}

/// The lower and the upper end of an unordered pair of bit indices.
pub open spec fn range_lo(start: u8, last: u8) -> u64 {
    if start <= last { start as u64 } else { last as u64 }
}

pub open spec fn range_hi(start: u8, last: u8) -> u64 {
    if start <= last { last as u64 } else { start as u64 }
}

/// A `u64` whose ones are exactly the bits from `lo` to `hi`, both included.
pub open spec fn is_range_mask(m: u64, lo: u64, hi: u64) -> bool {
    forall|i: u64| i < 64 ==> (#[trigger] bit_of(m, i) <==> (lo <= i && i <= hi))
}

/// - `should_set`: True if the bitmask bits should be set, false if they should be cleared.
pub fn write_byte_bitmask(original: u64, bitmask: u64, should_set: bool) -> (r: u64)
    ensures
        r == spec_write_bitmask(original, bitmask, should_set),
{
    if should_set {
        original | bitmask
    } else {
        original & !bitmask
    }
}

/// - `should_set`: True if the flag bit should be set, false if it should be cleared.
pub fn write_byte_flag(original: u64, flag_idx: u8, should_set: bool) -> (r: u64)
    requires
        flag_idx < 8,
    ensures
        r == spec_write_bitmask(original, (1u8 << flag_idx) as u64, should_set),
{
    let flag: u8 = 1u8 << flag_idx;
    write_byte_bitmask(original, flag as u64, should_set)
}

/// Returns a u64 with 1s only between bits `start` and `last`.
/// 0-indexed, from LSB, `start` and `last` inclusive.
/// `start`/`last` order does not matter.
pub fn range_mask(start: u8, last: u8) -> (r: u64)
    requires
        start < 64,
        last < 64,
    ensures
        is_range_mask(r, range_lo(start, last), range_hi(start, last)),
        r == mask_from_to(range_lo(start, last), range_hi(start, last)),
{
    let lo: u64 = if start <= last { start as u64 } else { last as u64 };
    let hi: u64 = if start <= last { last as u64 } else { start as u64 };
    let width: u64 = hi - lo + 1;
    if width == 64 {
        assert(lo == 0 && hi == 63);
        assert(forall|i: u64| i < 64 ==> #[trigger] bit_of(!0u64, i)) by (bit_vector);
        !0u64
    } else {
        assert(1u64 << width >= 1u64) by (bit_vector)
            requires
                width < 64,
        ;
        let m: u64 = ((1u64 << width) - 1) << lo;
        assert(forall|i: u64|
            i < 64 ==> (#[trigger] bit_of(m, i) <==> (lo <= i && i <= hi))) by (bit_vector)
            requires
                m == (((1u64 << width) - 1u64) as u64) << lo,
                1 <= width < 64,
                hi == lo + width - 1,
                hi < 64,
        ;
        m
    }
}

/// The bits of `value` from `start` to `last` (inclusive, in either order),
/// moved down so that the lower end of the range lands on bit 0.
pub open spec fn spec_bits_in_range(value: u64, start: u8, last: u8) -> u64 {
    (value & mask_from_to(range_lo(start, last), range_hi(start, last))) >> range_lo(start, last)
}

/// The mask with ones from bit `lo` to bit `hi`, both included (`lo <= hi < 64`).
pub open spec fn mask_from_to(lo: u64, hi: u64) -> u64 {
    if hi - lo + 1 >= 64 {
        !0u64
    } else {
        (((1u64 << ((hi - lo + 1) as u64)) - 1u64) as u64) << lo
    }
}

pub fn bits_in_range(value: u64, start: u8, last: u8) -> (r: u64)
    requires
        start < 64,
        last < 64,
    ensures
        r == (value & mask_from_to(range_lo(start, last), range_hi(start, last))) >> range_lo(start, last),
{
    let m = range_mask(start, last);
    let lo: u64 = if start <= last { start as u64 } else { last as u64 };
    let hi: u64 = if start <= last { last as u64 } else { start as u64 };
    (value & m) >> lo
}

pub fn bits_in_range_2(value: u64, range: (u8, u8)) -> (r: u64)
    requires
        range.0 < 64,
        range.1 < 64,
    ensures
        r == spec_bits_in_range(value, range.0, range.1),
{
    bits_in_range(value, range.0, range.1)
}

/// The order of the two ends of a range does not matter.
pub proof fn lemma_range_mask_order(start: u8, last: u8)
    ensures
        range_lo(start, last) == range_lo(last, start),
        range_hi(start, last) == range_hi(last, start),
        mask_from_to(range_lo(start, last), range_hi(start, last)) == mask_from_to(
            range_lo(last, start),
            range_hi(last, start),
        ),
{
}

/// After setting the bits of a mask they read as set; after clearing them
/// they read as clear; the other bits keep their values.
pub proof fn lemma_write_bitmask_read(original: u64, bitmask: u64, should_set: bool)
    ensures
        spec_write_bitmask(original, bitmask, should_set) & bitmask == if should_set {
            bitmask
        } else {
            0
        },
        spec_write_bitmask(original, bitmask, should_set) & !bitmask == original & !bitmask,
{
    if should_set {
        assert((original | bitmask) & bitmask == bitmask && (original | bitmask) & !bitmask
            == original & !bitmask) by (bit_vector);
    } else {
        assert((original & !bitmask) & bitmask == 0 && (original & !bitmask) & !bitmask
            == original & !bitmask) by (bit_vector);
    }
}

} // verus!
