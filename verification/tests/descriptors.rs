use kernel::idt::{GateType, Idt, IdtEntry};
use kernel::paging::{
    linked_entry, map_page_step, map_pte, table_index, unmap_page_step, HigherPageMapEntry,
    PageMapEntry, RawEntry, UnmapStep, WalkStep, ADDR_MASK, ALL_IGNORED_MASK, PDE, PDPTE, PML4E,
    PTE,
};
use kernel::segmentation::{PrivLevel, SegSel, TableIndicator, TssDescriptor};
use kernel::tss::{Tss, UnalignedU64};

#[test]
fn trap_gate_keeps_its_type() {
    let g = IdtEntry::new_trap_gate(0x1234_5678, PrivLevel::Three, 2);
    assert!(g.get_gate_type() == GateType::Trap);
    assert_eq!(GateType::Trap.id(), 0b1111);
    assert_eq!(GateType::Interrupt.id(), 0b1110);
    assert!(GateType::from_id(0b1110) == GateType::Interrupt);
}

#[test]
fn idt_registers_handlers_in_slots() {
    let mut idt = Idt::try_create_idt().unwrap();
    assert!(idt.entry(3).is_none());
    idt.register_kernel_handler(3, 0x4000, 0);
    idt.register_user_handler(19, 0x5000, 1);
    assert!(idt.entry(3).unwrap().get_gate_type() == GateType::Trap);
    assert!(idt.entry(19).is_some());
    assert!(idt.entry(4).is_none());
}

#[test]
fn segment_selector_packs_fields() {
    assert_eq!(SegSel::new(1, PrivLevel::Three, TableIndicator::Gdt).inner, 0b111);
    assert_eq!(SegSel::new(0, PrivLevel::Zero, TableIndicator::Ldt).inner, 0b1000);
    assert_eq!(PrivLevel::Two.as_u8(), 2);
}

#[test]
fn tss_descriptor_splits_base_and_limit() {
    let d = TssDescriptor::new(0x1122_3344_5566_7788, 0xA_BCDE, PrivLevel::Zero);
    assert_eq!(d.base_addr_lo, 0x7788);
    assert_eq!(d.base_addr_mid1, 0x66);
    assert_eq!(d.base_addr_mid2, 0x55);
    assert_eq!(d.base_addr_hi, 0x1122_3344);
    assert_eq!(d.seg_limit_lo, 0xBCDE);
    assert_eq!(d.attrs_1, 0x80);
    assert_eq!(d.attrs_2, 0x8A);
    assert_eq!(d.reserved_or_zero, 0);
}

#[test]
fn unaligned_u64_splits_into_two_halves() {
    let u = UnalignedU64::from_u64(0x1122_3344_5566_7788);
    assert_eq!((u.lo, u.hi), (0x5566_7788, 0x1122_3344));
    assert_eq!(u.to_u64(), 0x1122_3344_5566_7788);
    assert_eq!(UnalignedU64::from_u64(0x1_0000_0100).to_u64(), 0x1_0000_0100);
    assert_eq!(UnalignedU64::from_u64(u64::MAX).to_u64(), u64::MAX);
    let t = Tss::new();
    assert_eq!(t.io_bitmap_offset, 106);
    assert_eq!(t.rsps[1].to_u64(), 0);
}

#[test]
fn page_table_entries_set_flags_and_address() {
    let mut e = PTE::new(true, false, 0, true);
    assert!(e.is_present());
    assert!(e.is_writable());
    assert!(!e.is_accessed());
    assert_eq!(e.bits(), 0x103);
    e.set_present(false);
    assert!(!e.is_present());
    e.set_accessed(true);
    assert!(e.is_accessed());
    e.set_writable(false);
    assert!(!e.is_writable());
    e.set_addr(0x0000_0012_3456_7000);
    assert_eq!(e.get_addr(), 0x0000_0012_3456_7000);
    assert_eq!(e.bits() & !ADDR_MASK, 0x120);
}

#[test]
fn map_pte_points_an_empty_entry_at_a_page() {
    let mut e = PTE::new_empty();
    map_pte(&mut e, 0x5000);
    assert!(e.is_present());
    assert_eq!(e.get_addr(), 0x5000);
    assert_eq!(e.bits(), 0x5001);
}

#[test]
fn higher_entries_share_the_flag_layout() {
    let a = PML4E::new(false, true, 0);
    assert_eq!(a.bits(), 0b101);
    let b = PDPTE::new(true, true, 0);
    assert_eq!(b.bits(), 0b111);
    let mut c = PDE::new(false, false, 0);
    assert_eq!(c.bits(), 0b1);
    assert_eq!(c.get_ignored_bits(), 0);
    c.set_ignored_bits(0x7FF);
    assert_eq!(c.bits(), 0x7FF0_0000_0000_0001);
    assert_eq!(c.get_ignored_bits(), 0x7FF);
    c.set_ignored_bits(5);
    assert_eq!(c.get_ignored_bits(), 5);
    assert_eq!(c.bits(), 0x0050_0000_0000_0001);
    let f = PDE::from_bits(0xFFF0_0000_0000_F003);
    assert_eq!(f.get_ignored_bits(), 0x7FF);
}

#[test]
fn page_table_ignored_bits_gather_two_ranges() {
    let e = PTE::from_bits(0x0350_0000_0000_0A00);
    assert_eq!(e.get_all_ignored_bits(), 0x35 | (0x5 << 7));
    let mut z = PTE::new_empty();
    z.set_all_ignored_bits(0);
    assert_eq!(z.bits(), 0);
}

#[test]
fn page_table_ignored_bits_hold_a_count_up_to_512() {
    let mut e = PTE::new(true, false, 0, true);
    let flags = e.bits();
    e.set_all_ignored_bits(512);
    assert_eq!(e.get_all_ignored_bits(), 512);
    assert_eq!(e.bits(), flags | 0x800);
    e.set_all_ignored_bits(128);
    assert_eq!(e.get_all_ignored_bits(), 128);
    assert_eq!(e.bits(), flags | 0x200);
    e.set_all_ignored_bits(127);
    assert_eq!(e.get_all_ignored_bits(), 127);
    assert_eq!(e.bits(), flags | 0x07F0_0000_0000_0000);
    e.set_all_ignored_bits(1023);
    assert_eq!(e.get_all_ignored_bits(), 1023);
    assert_eq!(e.bits() & !ALL_IGNORED_MASK, flags);
}

#[test]
fn table_index_masks_without_shifting() {
    let v: u64 = 0x0000_FFFF_FFFF_F000;
    assert_eq!(table_index(v, 0), 0x0000_FF80_0000_0000);
    assert_eq!(table_index(v, 1), 0x0000_007F_C000_0000);
    assert_eq!(table_index(v, 2), 0x3FE0_0000);
    assert_eq!(table_index(v, 3), 0x1F_F000);
    assert_eq!(table_index(0x1000, 3), 0x1000);
    assert_eq!(table_index(0x1000, 0), 0);
}

#[test]
fn map_walk_steps_follow_the_present_bit() {
    assert!(matches!(map_page_step(0, 0, 0x5000), WalkStep::AllocAndMap));
    assert!(matches!(map_page_step(2, 0x2000, 0x5000), WalkStep::AllocAndMap));
    match map_page_step(1, 0x8000_0000_0003_3003, 0x5000) {
        WalkStep::Descend { table } => assert_eq!(table, 0x3_3000),
        _ => panic!("a present entry leads down"),
    }
    match map_page_step(3, 0x0000_0000_0000_7106, 0x5000) {
        WalkStep::MapLeaf { bits, was_mapped } => {
            assert_eq!(bits, 0x5107);
            assert!(!was_mapped);
        }
        _ => panic!("the page table takes the page"),
    }
    match map_page_step(3, 0x0000_0000_0000_9003, 0x5000) {
        WalkStep::MapLeaf { bits, was_mapped } => {
            assert_eq!(bits, 0x5003);
            assert!(was_mapped);
        }
        _ => panic!("the page table takes the page"),
    }
}

#[test]
fn unmap_walk_steps_follow_the_present_bit() {
    assert!(matches!(unmap_page_step(0, 0x7000), UnmapStep::NotMapped));
    match unmap_page_step(2, 0x9003) {
        UnmapStep::Descend { table } => assert_eq!(table, 0x9000),
        _ => panic!("a present entry leads down"),
    }
    match unmap_page_step(3, 0x5103) {
        UnmapStep::ClearLeaf { bits } => assert_eq!(bits, 0x5102),
        _ => panic!("the page table entry is cleared"),
    }
    assert!(matches!(unmap_page_step(3, 0x5102), UnmapStep::NotMapped));
    assert!(matches!(unmap_page_step(3, 0), UnmapStep::NotMapped));
}

#[test]
fn linked_entry_points_at_the_new_table() {
    assert_eq!(linked_entry(0, 0x4000), 0x4001);
    assert_eq!(linked_entry(0x0000_0000_0000_9006, 0x4000), 0x4007);
}

#[test]
fn idt_fails_without_room_for_its_slots() {
    assert!(Idt::from_reserved(false, Vec::new()).is_err());
    let idt = Idt::from_reserved(true, Vec::new()).unwrap();
    assert!(idt.entry(0).is_none());
    assert!(idt.entry(19).is_none());
}
