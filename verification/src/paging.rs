//! Entries of the four levels of x86-64 page tables (non-HLAT 4-level paging),
//! as bit patterns: flags, the physical address field, and the bits that the
//! processor ignores.

use vstd::prelude::*;
use crate::common::flags::{mask_from_to, spec_write_bitmask, write_byte_bitmask};

verus! {

pub const PAGE_SIZE: usize = 4096;

pub const PAGE_MAP_NUM_ENTRIES: usize = 512;

pub const PRESENT: u64 = 1 << 0;

pub const RW: u64 = 1 << 1;

pub const USER_SUPER: u64 = 1 << 2;

pub const WRITE_THROUGH: u64 = 1 << 3;

pub const CACHE_DISABLE: u64 = 1 << 4;

pub const ACCESSED: u64 = 1 << 5;

/// Bits 12 to 50: the physical address an entry points at.
pub const ADDR_MASK: u64 = 0x0007_FFFF_FFFF_F000;

/// Bits 52 to 62: ignored by the processor in higher-level entries.
pub const IGNORED_MASK: u64 = 0x7FF0_0000_0000_0000;

pub const IGNORED_OFFSET: u64 = 52;

pub const ENTRY_PRESENT: bool = true;

pub const ENTRY_WRITE_THROUGH: bool = false;

pub const ENTRY_CACHE_DISABLE: bool = false;

pub const ENTRY_ACCESSED: bool = false;

pub const ENTRY_DIRTY: bool = false;

pub const DIRTY: u64 = 1 << 6;

pub const GLOBAL: u64 = 1 << 8;

/// Mask for first range of ignored bits of a page-table entry (bits 52 to 58).
pub const IGNORED_MASK_1: u64 = 0x07F0_0000_0000_0000;

/// Offset for first range of ignored bits
pub const IGNORED_OFFSET_1: u64 = 52;

/// Mask for second range of ignored bits of a page-table entry (bits 9 to 11).
pub const IGNORED_MASK_2: u64 = 0xE00;

/// Offset for second range of ignored bits, relative to offset in combined u16
pub const IGNORED_RELATIVE_OFFSET_2: u64 = 9;

/// Bits 39 to 47 of a virtual address.
pub const ADDR_PML4T_OFFSET_MASK: u64 = 0x0000_FF80_0000_0000;

/// Bits 30 to 38 of a virtual address.
pub const ADDR_PDPT_OFFSET_MASK: u64 = 0x0000_007F_C000_0000;

/// Bits 21 to 29 of a virtual address.
pub const ADDR_PD_OFFSET_MASK: u64 = 0x3FE0_0000;

/// Bits 12 to 20 of a virtual address.
pub const ADDR_PT_OFFSET_MASK: u64 = 0x1F_F000;

/// Bits 0 to 11 of a virtual address.
pub const ADDR_PAGE_OFFSET_MASK: u64 = 0xFFF;

/// Each mask constant has ones exactly over the bit range it is documented with.
pub proof fn lemma_mask_constants()
    ensures
        ADDR_MASK == mask_from_to(12, 50),
        IGNORED_MASK == mask_from_to(52, 62),
        IGNORED_MASK_1 == mask_from_to(52, 58),
        IGNORED_MASK_2 == mask_from_to(9, 11),
        ADDR_PML4T_OFFSET_MASK == mask_from_to(39, 47),
        ADDR_PDPT_OFFSET_MASK == mask_from_to(30, 38),
        ADDR_PD_OFFSET_MASK == mask_from_to(21, 29),
        ADDR_PT_OFFSET_MASK == mask_from_to(12, 20),
        ADDR_PAGE_OFFSET_MASK == mask_from_to(0, 11),
{
    assert(0x0007_FFFF_FFFF_F000u64 == (((1u64 << 39u64) - 1u64) as u64) << 12u64
        && 0x7FF0_0000_0000_0000u64 == (((1u64 << 11u64) - 1u64) as u64) << 52u64
        && 0x07F0_0000_0000_0000u64 == (((1u64 << 7u64) - 1u64) as u64) << 52u64
        && 0xE00u64 == (((1u64 << 3u64) - 1u64) as u64) << 9u64
        && 0x0000_FF80_0000_0000u64 == (((1u64 << 9u64) - 1u64) as u64) << 39u64
        && 0x0000_007F_C000_0000u64 == (((1u64 << 9u64) - 1u64) as u64) << 30u64
        && 0x3FE0_0000u64 == (((1u64 << 9u64) - 1u64) as u64) << 21u64
        && 0x1F_F000u64 == (((1u64 << 9u64) - 1u64) as u64) << 12u64
        && 0xFFFu64 == (((1u64 << 12u64) - 1u64) as u64) << 0u64) by (bit_vector);
}

/// The bits of a new present entry.
pub open spec fn entry_bits(writable: bool, user: bool, addr: u64) -> u64 {
    let e0: u64 = 0;
    let e1: u64 = if writable { e0 | RW } else { e0 };
    let e2: u64 = if user { e1 | USER_SUPER } else { e1 };
    let e3: u64 = if ENTRY_PRESENT { e2 | PRESENT } else { e2 };
    let e4: u64 = if ENTRY_WRITE_THROUGH { e3 | WRITE_THROUGH } else { e3 };
    let e5: u64 = if ENTRY_CACHE_DISABLE { e4 | CACHE_DISABLE } else { e4 };
    let e6: u64 = if ENTRY_ACCESSED { e5 | ACCESSED } else { e5 };
    e6 | addr
}

/// The bits of an entry after its address field is replaced by `addr`.
pub open spec fn with_addr(bits: u64, addr: u64) -> u64 {
    (bits & !ADDR_MASK) | addr
}

/// Reading the address field back after `set_addr` gives the address written,
/// and the bits outside the field keep their values.
pub proof fn lemma_addr_write_read(bits: u64, addr: u64)
    requires
        addr & !ADDR_MASK == 0,
    ensures
        with_addr(bits, addr) & ADDR_MASK == addr,
        with_addr(bits, addr) & !ADDR_MASK == bits & !ADDR_MASK,
{
    assert(((bits & !0x0007_FFFF_FFFF_F000u64) | addr) & 0x0007_FFFF_FFFF_F000u64 == addr
        && ((bits & !0x0007_FFFF_FFFF_F000u64) | addr) & !0x0007_FFFF_FFFF_F000u64 == bits
        & !0x0007_FFFF_FFFF_F000u64) by (bit_vector)
        requires
            addr & !0x0007_FFFF_FFFF_F000u64 == 0,
    ;
}

/// An entry as a raw 64-bit pattern.
pub trait RawEntry: Sized {
    spec fn raw(&self) -> u64;

    fn from_bits(bits: u64) -> (r: Self)
        ensures
            r.raw() == bits,
    ;

    fn bits(&self) -> (r: u64)
        ensures
            r == self.raw(),
    ;

    fn set_bits(&mut self, bits: u64)
        ensures
            final(self).raw() == bits,
    ;
}

/// What all page map entries share: flags and the address field.
pub trait PageMapEntry: RawEntry {
    fn new_empty() -> (r: Self)
        ensures
            r.raw() == 0,
    {
        Self::from_bits(0)
    }

    /// The bits of a present entry, writable and user-accessible as asked, with
    /// `addr` or-ed in. Only an `addr` with no bit inside the address field is
    /// accepted, so the entry's address field is always left empty.
    fn new_raw(writable: bool, user: bool, addr: u64) -> (r: u64)
        requires
            addr & ADDR_MASK == 0,
        ensures
            r == entry_bits(writable, user, addr),
    {
        let mut entry: u64 = 0;
        if writable {
            entry = entry | RW;
        }
        if user {
            entry = entry | USER_SUPER;
        }
        if ENTRY_PRESENT {
            entry = entry | PRESENT;
        }
        if ENTRY_WRITE_THROUGH {
            entry = entry | WRITE_THROUGH;
        }
        if ENTRY_CACHE_DISABLE {
            entry = entry | CACHE_DISABLE;
        }
        if ENTRY_ACCESSED {
            entry = entry | ACCESSED;
        }
        entry = entry | addr;
        entry
    }

    fn is_present(&self) -> (r: bool)
        ensures
            r == (self.raw() & PRESENT != 0),
    {
        (self.bits() & PRESENT) != 0
    }

    fn set_present(&mut self, present: bool)
        ensures
            final(self).raw() == spec_write_bitmask(old(self).raw(), PRESENT, present),
    {
        let b = write_byte_bitmask(self.bits(), PRESENT, present);
        self.set_bits(b);
    }

    fn is_writable(&self) -> (r: bool)
        ensures
            r == (self.raw() & RW != 0),
    {
        (self.bits() & RW) != 0
    }

    fn set_writable(&mut self, writable: bool)
        ensures
            final(self).raw() == spec_write_bitmask(old(self).raw(), RW, writable),
    {
        let b = write_byte_bitmask(self.bits(), RW, writable);
        self.set_bits(b);
    }

    fn is_accessed(&self) -> (r: bool)
        ensures
            r == (self.raw() & ACCESSED != 0),
    {
        (self.bits() & ACCESSED) != 0
    }

    fn set_accessed(&mut self, accessed: bool)
        ensures
            final(self).raw() == spec_write_bitmask(old(self).raw(), ACCESSED, accessed),
    {
        let b = write_byte_bitmask(self.bits(), ACCESSED, accessed);
        self.set_bits(b);
    }

    /// The address field of the entry.
    fn get_addr(&self) -> (r: u64)
        ensures
            r == self.raw() & ADDR_MASK,
    {
        self.bits() & ADDR_MASK
    }

    /// Replaces the address field with `addr`, which must lie within the field.
    fn set_addr(&mut self, addr: u64)
        requires
            addr & !ADDR_MASK == 0,
        ensures
            final(self).raw() == with_addr(old(self).raw(), addr),
    {
        let cleared = self.bits() & !ADDR_MASK;
        self.set_bits(cleared);
        let b = self.bits() | addr;
        self.set_bits(b);
    }
}

/// For higher-level page maps (all paging structures except page-tables).
///
/// Reuse code for ignored bits, as all higher-level page maps share the same
/// ignored bit ranges.
pub trait HigherPageMapEntry: RawEntry {
    /// The ignored bits 52 to 62, moved down to bits 0 to 10.
    fn get_ignored_bits(&self) -> (r: u64)
        ensures
            r == (self.raw() & IGNORED_MASK) >> IGNORED_OFFSET,
    {
        (self.bits() & IGNORED_MASK) >> IGNORED_OFFSET
    }

    /// Stores the 11-bit value `bits` in the ignored bits 52 to 62; every other
    /// bit keeps its value, and `get_ignored_bits` then gives `bits` back.
    fn set_ignored_bits(&mut self, bits: u16)
        requires
            bits < 2048,
        ensures
            final(self).raw() == (old(self).raw() & !IGNORED_MASK) | ((bits as u64)
                << IGNORED_OFFSET),
            (final(self).raw() & IGNORED_MASK) >> IGNORED_OFFSET == bits as u64,
            final(self).raw() & !IGNORED_MASK == old(self).raw() & !IGNORED_MASK,
    {
        let positioned_bits: u64 = (bits as u64) << IGNORED_OFFSET;
        let cleared = self.bits() & !IGNORED_MASK;
        self.set_bits(cleared);
        let b = self.bits() | positioned_bits;
        self.set_bits(b);
        proof {
            let old_raw = old(self).raw();
            let v = bits as u64;
            assert((((old_raw & !0x7FF0_0000_0000_0000u64) | (v << 52u64)) & 0x7FF0_0000_0000_0000u64)
                >> 52u64 == v && ((old_raw & !0x7FF0_0000_0000_0000u64) | (v << 52u64))
                & !0x7FF0_0000_0000_0000u64 == old_raw & !0x7FF0_0000_0000_0000u64)
                by (bit_vector)
                requires
                    v < 2048,
            ;
        }
    }
}

#[derive(Clone, Copy)]
pub struct PML4E(u64);

#[derive(Clone, Copy)]
pub struct PDPTE(u64);

#[derive(Clone, Copy)]
pub struct PDE(u64);

#[derive(Clone, Copy)]
pub struct PTE(u64);

impl RawEntry for PML4E {
    closed spec fn raw(&self) -> u64 {
        self.0
    }

    fn from_bits(bits: u64) -> (r: Self) {
        Self(bits)
    }

    fn bits(&self) -> (r: u64) {
        self.0
    }

    fn set_bits(&mut self, bits: u64) {
        self.0 = bits;
    }
}

impl RawEntry for PDPTE {
    closed spec fn raw(&self) -> u64 {
        self.0
    }

    fn from_bits(bits: u64) -> (r: Self) {
        Self(bits)
    }

    fn bits(&self) -> (r: u64) {
        self.0
    }

    fn set_bits(&mut self, bits: u64) {
        self.0 = bits;
    }
}

impl RawEntry for PDE {
    closed spec fn raw(&self) -> u64 {
        self.0
    }

    fn from_bits(bits: u64) -> (r: Self) {
        Self(bits)
    }

    fn bits(&self) -> (r: u64) {
        self.0
    }

    fn set_bits(&mut self, bits: u64) {
        self.0 = bits;
    }
}

impl RawEntry for PTE {
    closed spec fn raw(&self) -> u64 {
        self.0
    }

    fn from_bits(bits: u64) -> (r: Self) {
        Self(bits)
    }

    fn bits(&self) -> (r: u64) {
        self.0
    }

    fn set_bits(&mut self, bits: u64) {
        self.0 = bits;
    }
}

impl PageMapEntry for PML4E {}

impl PageMapEntry for PDPTE {}

impl PageMapEntry for PDE {}

impl PageMapEntry for PTE {}

impl HigherPageMapEntry for PML4E {}

impl HigherPageMapEntry for PDPTE {}

impl HigherPageMapEntry for PDE {}

impl PML4E {
    pub fn new(writable: bool, user: bool, addr: u64) -> (r: Self)
        requires
            addr & ADDR_MASK == 0,
        ensures
            r.raw() == entry_bits(writable, user, addr),
    {
        Self(<Self as PageMapEntry>::new_raw(writable, user, addr))
    }
}

impl PDPTE {
    pub fn new(writable: bool, user: bool, addr: u64) -> (r: Self)
        requires
            addr & ADDR_MASK == 0,
        ensures
            r.raw() == entry_bits(writable, user, addr),
    {
        Self(<Self as PageMapEntry>::new_raw(writable, user, addr))
    }
}

impl PDE {
    pub fn new(writable: bool, user: bool, addr: u64) -> (r: Self)
        requires
            addr & ADDR_MASK == 0,
        ensures
            r.raw() == entry_bits(writable, user, addr),
    {
        Self(<Self as PageMapEntry>::new_raw(writable, user, addr))
    }
}

/// The ignored bits of a page-table entry, gathered into one number: bits 52
/// to 58 give its bits 0 to 6, and bits 9 to 11 give its bits 7 to 9.
pub open spec fn all_ignored_bits(raw: u64) -> u16 {
    (((IGNORED_MASK_1 & raw) >> IGNORED_OFFSET_1) | (((IGNORED_MASK_2 & raw)
        >> IGNORED_RELATIVE_OFFSET_2) << 7u64)) as u16
}

/// Where `set_all_ignored_bits` places a 10-bit number: its bits 0 to 6 in
/// bits 52 to 58, its bits 7 to 9 in bits 9 to 11.
pub open spec fn positioned_ignored_bits(bits: u16) -> u64 {
    (((bits as u64) & 0x7Fu64) << IGNORED_OFFSET_1) | (((bits as u64) >> 7u64)
        << IGNORED_RELATIVE_OFFSET_2)
}

/// The bits of a page-table entry that hold the gathered number.
pub const ALL_IGNORED_MASK: u64 = 0x07F0_0000_0000_0E00;

impl PTE {
    pub fn new(writable: bool, user: bool, addr: u64, global: bool) -> (r: Self)
        requires
            addr & ADDR_MASK == 0,
        ensures
            r.raw() == ({
                let e = entry_bits(writable, user, addr);
                let g = if global { e | GLOBAL } else { e };
                if ENTRY_DIRTY { g | DIRTY } else { g }
            }),
    {
        let mut entry = <Self as PageMapEntry>::new_raw(writable, user, addr);
        if global {
            entry = entry | GLOBAL;
        }
        if ENTRY_DIRTY {
            entry = entry | DIRTY;
        }
        Self(entry)
    }

    /// This method is named with an 'all', because unlike the other page maps, we need to combine
    /// multiple ranges of bits in order to use 9+ ignored bits (needed to keep track of the up to
    /// 2^9=512 potential present entries in a page map). In other page maps, a single range has at
    /// least 9 bits, so we don't use the other ignored bits.
    pub fn get_all_ignored_bits(&self) -> (r: u16)
        ensures
            r == all_ignored_bits(self.raw()),
            r < 1024,
    {
        let raw = self.0;
        let bits_1 = IGNORED_MASK_1 & raw;
        let bits_2 = IGNORED_MASK_2 & raw;
        assert(((((0x07F0_0000_0000_0000u64 & raw) >> 52u64) | (((0xE00u64 & raw) >> 9u64)
            << 7u64)) as u16) < 1024) by (bit_vector);
        ((bits_1 >> IGNORED_OFFSET_1) | ((bits_2 >> IGNORED_RELATIVE_OFFSET_2) << 7)) as u16
    }

    /// Stores the 10-bit number `bits` (enough for a count up to 512) in the
    /// ignored bits; every other bit keeps its value, and
    /// `get_all_ignored_bits` then gives `bits` back.
    pub fn set_all_ignored_bits(&mut self, bits: u16)
        requires
            bits < 1024,
        ensures
            final(self).raw() == (old(self).raw() & !ALL_IGNORED_MASK) | positioned_ignored_bits(
                bits,
            ),
            all_ignored_bits(final(self).raw()) == bits,
            final(self).raw() & !ALL_IGNORED_MASK == old(self).raw() & !ALL_IGNORED_MASK,
    {
        let b: u64 = bits as u64;
        let positioned_bits = ((b & 0x7F) << IGNORED_OFFSET_1) | ((b >> 7)
            << IGNORED_RELATIVE_OFFSET_2);
        let old_raw = self.0;
        self.0 = self.0 & !(IGNORED_MASK_1 | IGNORED_MASK_2);
        self.0 = self.0 | positioned_bits;
        proof {
            assert(0x07F0_0000_0000_0000u64 | 0xE00u64 == 0x07F0_0000_0000_0E00u64) by (bit_vector);
            let n = ((old_raw & !0x07F0_0000_0000_0E00u64) | (((b & 0x7Fu64) << 52u64) | ((b
                >> 7u64) << 9u64)));
            assert(((((0x07F0_0000_0000_0000u64 & n) >> 52u64) | (((0xE00u64 & n) >> 9u64)
                << 7u64)) as u16) == b as u16 && n & !0x07F0_0000_0000_0E00u64 == old_raw
                & !0x07F0_0000_0000_0E00u64) by (bit_vector)
                requires
                    b < 1024,
                    n == ((old_raw & !0x07F0_0000_0000_0E00u64) | (((b & 0x7Fu64) << 52u64) | ((b
                        >> 7u64) << 9u64))),
            ;
        }
    }
}

/// How a page is to be mapped.
pub struct MapOptions {
    writable: bool,
    user_accessible: bool,
}

/// Points a page-table entry at the physical page `ppage` and marks it present.
pub fn map_pte(entry: &mut PTE, ppage: u64)
    requires
        ppage % (PAGE_SIZE as u64) == 0,
        old(entry).raw() & PRESENT == 0,
        ppage & !ADDR_MASK == 0,
    ensures
        final(entry).raw() == spec_write_bitmask(with_addr(old(entry).raw(), ppage), PRESENT, true),
{
    entry.set_addr(ppage);
    entry.set_present(true);
}

/// The mask that picks, from a virtual address, the index into the table of
/// level `level` (0 for the PML4T, then the PDPT, the PD, and 3 for the PT);
/// the masked bits are used as they stand, without shifting.
pub open spec fn level_mask(level: u8) -> u64 {
    if level == 0 {
        ADDR_PML4T_OFFSET_MASK
    } else if level == 1 {
        ADDR_PDPT_OFFSET_MASK
    } else if level == 2 {
        ADDR_PD_OFFSET_MASK
    } else {
        ADDR_PT_OFFSET_MASK
    }
}

/// The index into the table of `level` that a walk for `vpage` reads: the
/// bits of `vpage` under that level's mask, unshifted.
pub fn table_index(vpage: u64, level: u8) -> (r: u64)
    requires
        level < 4,
    ensures
        r == vpage & level_mask(level),
{
    if level == 0 {
        vpage & ADDR_PML4T_OFFSET_MASK
    } else if level == 1 {
        vpage & ADDR_PDPT_OFFSET_MASK
    } else if level == 2 {
        vpage & ADDR_PD_OFFSET_MASK
    } else {
        vpage & ADDR_PT_OFFSET_MASK
    }
}

/// What a mapping walk does at one entry.
#[derive(Clone, Copy)]
pub enum WalkStep {
    /// The entry is not present: new tables are made below it, down to the
    /// page, which was therefore not mapped before.
    AllocAndMap,
    /// The entry is present: the walk goes on in the table at `table`.
    Descend { table: u64 },
    /// The page-table entry takes `bits`; `was_mapped` tells whether the page
    /// was mapped before.
    MapLeaf { bits: u64, was_mapped: bool },
}

/// What an unmapping walk does at one entry.
#[derive(Clone, Copy)]
pub enum UnmapStep {
    /// The entry is not present: the page is not mapped.
    NotMapped,
    /// The entry is present: the walk goes on in the table at `table`.
    Descend { table: u64 },
    /// The page-table entry takes these bits.
    ClearLeaf { bits: u64 },
}

/// The step of mapping `ppage` at an entry of the table of `level`: above the
/// page table, a missing entry needs new tables and a present one leads
/// down; in the page table, the entry takes the page's address and is marked
/// present, and whether it was present before is reported.
pub fn map_page_step(level: u8, entry: u64, ppage: u64) -> (r: WalkStep)
    requires
        level < 4,
        ppage % (PAGE_SIZE as u64) == 0,
        ppage & !ADDR_MASK == 0,
    ensures
        level < 3 && entry & PRESENT == 0 ==> r == WalkStep::AllocAndMap,
        level < 3 && entry & PRESENT != 0 ==> r == (WalkStep::Descend { table: entry & ADDR_MASK }),
        level == 3 ==> r == (WalkStep::MapLeaf {
            bits: spec_write_bitmask(with_addr(entry, ppage), PRESENT, true),
            was_mapped: entry & PRESENT != 0,
        }),
{
    if level < 3 {
        if entry & PRESENT == 0 {
            WalkStep::AllocAndMap
        } else {
            WalkStep::Descend { table: entry & ADDR_MASK }
        }
    } else {
        let mut pte = PTE::from_bits(entry);
        let was_mapped = pte.is_present();
        pte.set_addr(ppage);
        pte.set_present(true);
        WalkStep::MapLeaf { bits: pte.bits(), was_mapped }
    }
}

/// The step of unmapping at an entry of the table of `level`: a missing
/// entry, at any level down to the page table, means the page is not
/// mapped; above the page table a present entry leads down, and a present
/// page-table entry loses its present bit.
pub fn unmap_page_step(level: u8, entry: u64) -> (r: UnmapStep)
    requires
        level < 4,
    ensures
        entry & PRESENT == 0 ==> r == UnmapStep::NotMapped,
        level < 3 && entry & PRESENT != 0 ==> r == (UnmapStep::Descend {
            table: entry & ADDR_MASK,
        }),
        level == 3 && entry & PRESENT != 0 ==> r == (UnmapStep::ClearLeaf {
            bits: spec_write_bitmask(entry, PRESENT, false),
        }),
{
    if entry & PRESENT == 0 {
        UnmapStep::NotMapped
    } else if level < 3 {
        UnmapStep::Descend { table: entry & ADDR_MASK }
    } else {
        let mut pte = PTE::from_bits(entry);
        pte.set_present(false);
        UnmapStep::ClearLeaf { bits: pte.bits() }
    }
}

/// The bits of an entry once it points at the new table at `table` and is
/// marked present.
pub fn linked_entry(entry: u64, table: u64) -> (r: u64)
    requires
        table & !ADDR_MASK == 0,
    ensures
        r == spec_write_bitmask(with_addr(entry, table), PRESENT, true),
{
    let mut e = PDE::from_bits(entry);
    e.set_addr(table);
    e.set_present(true);
    e.bits()
}

} // verus!
