use kernel::common::flags::{bits_in_range, bits_in_range_2, range_mask, write_byte_bitmask, write_byte_flag};
use kernel::common::magic_break;
use kernel::common::{SyncMutPtr, SyncPtr};
use kernel::math::Alignable;

#[test]
fn bitmask_sets_and_clears() {
    assert_eq!(write_byte_bitmask(0b1010, 0b0101, true), 0b1111);
    assert_eq!(write_byte_bitmask(0b1111, 0b0101, false), 0b1010);
    assert_eq!(write_byte_bitmask(0, 0, true), 0);
    assert_eq!(write_byte_bitmask(u64::MAX, u64::MAX, false), 0);
}

#[test]
fn flag_sets_and_clears_one_bit() {
    assert_eq!(write_byte_flag(0, 3, true), 8);
    assert_eq!(write_byte_flag(0xFF, 7, false), 0x7F);
    assert_eq!(write_byte_flag(0x100, 0, true), 0x101);
}

#[test]
fn range_mask_is_inclusive() {
    assert_eq!(range_mask(12, 50), 0x0007_FFFF_FFFF_F000);
    assert_eq!(range_mask(0, 11), 0xFFF);
    assert_eq!(range_mask(0, 63), u64::MAX);
    assert_eq!(range_mask(5, 5), 0x20);
    assert_eq!(range_mask(63, 63), 1 << 63);
}

#[test]
fn range_mask_order_does_not_matter() {
    assert_eq!(range_mask(47, 39), range_mask(39, 47));
    assert_eq!(range_mask(47, 39), 0x0000_FF80_0000_0000);
    assert_eq!(range_mask(11, 0), range_mask(0, 11));
}

#[test]
fn bits_in_range_extracts_and_shifts_down() {
    assert_eq!(bits_in_range(0xABCD_1234, 16, 31), 0xABCD);
    assert_eq!(bits_in_range(0xABCD_1234, 31, 16), 0xABCD);
    assert_eq!(bits_in_range_2(0xABCD_1234, (0, 15)), 0x1234);
    assert_eq!(bits_in_range_2(u64::MAX, (32, 63)), 0xFFFF_FFFF);
    assert_eq!(bits_in_range_2(0xF0, (4, 5)), 0b11);
}

#[test]
fn align_up_rounds_to_multiples() {
    assert_eq!(13u32.align_up(8), 16);
    assert_eq!(16u32.align_up(8), 16);
    assert_eq!(0usize.align_up(4096), 0);
    assert_eq!(4097usize.align_up(4096), 8192);
    assert_eq!(250u8.align_up(5), 250);
    assert_eq!(7u16.align_up(3), 9);
}

#[test]
fn align_down_rounds_to_multiples() {
    assert_eq!(13u32.align_down(8), 8);
    assert_eq!(16u32.align_down(8), 16);
    assert_eq!(4097usize.align_down(4096), 4096);
    assert_eq!(255u8.align_down(16), 240);
    assert_eq!(7u16.align_down(3), 6);
}

#[test]
fn sync_pointers_keep_their_address() {
    let p: SyncPtr<u8> = SyncPtr::new(0xb8000);
    assert_eq!(p.get(), 0xb8000);
    let q: SyncMutPtr<u32> = SyncMutPtr::new(0x1000);
    assert_eq!(q.get(), 0x1000);
    magic_break();
}
