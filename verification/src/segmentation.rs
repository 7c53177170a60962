//! Segment selectors and TSS descriptors, packed field by field into the
//! bit positions named by the offsets and ranges below.

use vstd::prelude::*;
use crate::common::flags::{bits_in_range_2, spec_bits_in_range};

verus! {

/// A privilege level, from the kernel's (zero) to user code's (three).
#[derive(Clone, Copy)]
pub enum PrivLevel {
    Zero,
    One,
    Two,
    Three,
}

pub open spec fn priv_number(p: PrivLevel) -> u8 {
    match p {
        PrivLevel::Zero => 0,
        PrivLevel::One => 1,
        PrivLevel::Two => 2,
        PrivLevel::Three => 3,
    }
}

impl PrivLevel {
    pub fn as_u8(self) -> (r: u8)
        ensures
            r == priv_number(self),
    {
        match self {
            PrivLevel::Zero => 0,
            PrivLevel::One => 1,
            PrivLevel::Two => 2,
            PrivLevel::Three => 3,
        }
    }
}

/// Which descriptor table a selector indexes.
#[derive(Clone, Copy)]
pub enum TableIndicator {
    Gdt,
    Ldt,
}

pub open spec fn table_number(t: TableIndicator) -> u16 {
    match t {
        TableIndicator::Gdt => 0,
        TableIndicator::Ldt => 1,
    }
}

impl TableIndicator {
    pub fn as_u16(self) -> (r: u16)
        ensures
            r == table_number(self),
    {
        match self {
            TableIndicator::Gdt => 0,
            TableIndicator::Ldt => 1,
        }
    }
}

pub const RPL_OFFSET: u16 = 0;

pub const IDX_OFFSET: u16 = 2;

pub const TABLE_INDICATOR_OFFSET: u16 = 3;

/// A segment selector: requested privilege level, table indicator and index.
pub struct SegSel {
    pub inner: u16,
}

impl SegSel {
    pub fn new(idx: u16, rpl: PrivLevel, table: TableIndicator) -> (r: Self)
        ensures
            r.inner == ((priv_number(rpl) as u16) << 0u16) | (idx << 2u16) | (table_number(table)
                << 3u16),
    {
        SegSel {
            inner: (rpl.as_u8() as u16) << RPL_OFFSET | idx << IDX_OFFSET | table.as_u16()
                << TABLE_INDICATOR_OFFSET,
        }
    }
}

/// A 64-bit TSS descriptor, field by field.
pub struct TssDescriptor {
    pub seg_limit_lo: u16,
    pub base_addr_lo: u16,
    pub base_addr_mid1: u8,
    pub attrs_1: u8,
    pub attrs_2: u8,
    pub base_addr_mid2: u8,
    pub base_addr_hi: u32,
    pub reserved_or_zero: u32,
}

pub const LIMIT_LO_RANGE: (u8, u8) = (0, 15);

pub const LIMIT_HI_RANGE: (u8, u8) = (16, 19);

pub const BASE_LO_RANGE: (u8, u8) = (0, 15);

pub const BASE_MID1_RANGE: (u8, u8) = (16, 23);

pub const BASE_MID2_RANGE: (u8, u8) = (24, 31);

pub const BASE_HI_RANGE: (u8, u8) = (32, 63);

/// Offsets in attrs_1
pub const TYPE_OFFSET: u8 = 0;

pub const DPL_OFFSET: u8 = 5;

pub const PRESENT_OFFSET: u8 = 7;

/// Offsets in attrs_2
pub const LIMIT_OFFSET: u8 = 0;

pub const AVL_OFFSET: u8 = 4;

pub const GRANULARITY_OFFSET: u8 = 7;

pub const TYPE_BUSY: u8 = 0b1011;

impl TssDescriptor {
    /// A present descriptor with 4 KiB granularity for the TSS at `base`
    /// with the given `limit`, usable from privilege level `dpl`.
    pub fn new(base: u64, limit: u32, dpl: PrivLevel) -> (r: Self)
        ensures
            r.base_addr_lo == spec_bits_in_range(base, 0, 15) as u16,
            r.base_addr_mid1 == spec_bits_in_range(base, 16, 23) as u8,
            r.base_addr_mid2 == spec_bits_in_range(base, 24, 31) as u8,
            r.base_addr_hi == spec_bits_in_range(base, 32, 63) as u32,
            r.seg_limit_lo == spec_bits_in_range(limit as u64, 0, 15) as u16,
            r.attrs_1 == ((TYPE_OFFSET << TYPE_OFFSET) | (priv_number(dpl) << 5u8) | (1u8 << 7u8)),
            r.attrs_2 == ((spec_bits_in_range(limit as u64, 16, 19) as u8) << 0u8) | (1u8 << 7u8),
            r.reserved_or_zero == 0,
    {
        let base_addr_lo = bits_in_range_2(base, BASE_LO_RANGE) as u16;
        let base_addr_mid1 = bits_in_range_2(base, BASE_MID1_RANGE) as u8;
        let base_addr_mid2 = bits_in_range_2(base, BASE_MID2_RANGE) as u8;
        let base_addr_hi = bits_in_range_2(base, BASE_HI_RANGE) as u32;
        let seg_limit_lo = bits_in_range_2(limit as u64, LIMIT_LO_RANGE) as u16;
        let seg_limit_hi = bits_in_range_2(limit as u64, LIMIT_HI_RANGE) as u8;
        let dpl_bits: u8 = dpl.as_u8();
        let present: u8 = 1;
        let granularity: u8 = 1;
        Self {
            base_addr_lo,
            base_addr_mid1,
            base_addr_mid2,
            base_addr_hi,
            seg_limit_lo,
            attrs_1: TYPE_OFFSET << TYPE_OFFSET | dpl_bits << DPL_OFFSET | present << PRESENT_OFFSET,
            attrs_2: seg_limit_hi << LIMIT_OFFSET | granularity << GRANULARITY_OFFSET,
            reserved_or_zero: 0,
        }
    }
}

} // verus!
