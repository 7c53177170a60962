//! Interrupt descriptor table entries (gates) and the table that holds them.

use vstd::prelude::*;
use crate::segmentation::{PrivLevel, priv_number};

verus! {

pub const IDT_NUM_ENTRIES: u16 = 20;

pub const INTERRUPT_GATE_TYPE_ID: u8 = 0b1110;

pub const TRAP_GATE_TYPE_ID: u8 = 0b1111;

/// The kind of a gate: an interrupt gate masks interrupts on entry, a trap gate does not.
#[derive(Clone, Copy, PartialEq, Eq, Structural)]
pub enum GateType {
    Interrupt,
    Trap,
}

pub open spec fn gate_type_id(g: GateType) -> u8 {
    match g {
        GateType::Interrupt => INTERRUPT_GATE_TYPE_ID,
        GateType::Trap => TRAP_GATE_TYPE_ID,
    }
}

impl GateType {
    /// The type id that the processor reads for this gate type.
    pub fn id(self) -> (r: u8)
        ensures
            r == gate_type_id(self),
    {
        match self {
            GateType::Interrupt => INTERRUPT_GATE_TYPE_ID,
            GateType::Trap => TRAP_GATE_TYPE_ID,
        }
    }

    /// The kind of gate whose id is `value`; `value` must be one of the two ids.
    pub fn from_id(value: u8) -> (r: Self)
        requires
            value == INTERRUPT_GATE_TYPE_ID || value == TRAP_GATE_TYPE_ID,
        ensures
            gate_type_id(r) == value,
    {
        if value == INTERRUPT_GATE_TYPE_ID {
            GateType::Interrupt
        } else {
            GateType::Trap
        }
    }
}

/// Offsets/masks within the `attrs` field
pub const GATE_TYPE_OFFSET: u8 = 0;

pub const DPL_OFFSET: u8 = 5;

pub const PRESENT_OFFSET: u8 = 7;

pub const GATE_TYPE_MASK: u8 = 0xF;

/// Masks for the offset itself, not gates
pub const IDT_OFF_LO_MASK: u64 = 0x000000FF;

pub const IDT_OFF_MID_MASK: u64 = 0x0000FF00;

pub const IDT_OFF_HI_MASK: u64 = 0xFFFF0000;

pub const CODE_SEGSEL: u16 = 0;

/// The fields of a gate, in the order the processor reads them.
pub struct IdtFields {
    pub offset_lo: u16,
    pub segsel: u16,
    pub ist: u8,
    pub attrs: u8,
    pub offset_mid: u16,
    pub offset_hi: u32,
    pub reserved: u32,
}

/// A gate holds the interrupt-stack index `ist` it was asked for. Its
/// attribute byte holds the number of its kind in the low four bits and the
/// privilege level `dpl` in the two bits above bit 4, which stays clear,
/// with the top bit (present) set. Its reserved field is zero.
pub proof fn lemma_gate_keeps_its_fields(offset: u64, dpl: PrivLevel, ist: u8, gate_type: GateType)
    ensures
        gate_fields(offset, dpl, ist, gate_type).ist == ist,
        gate_fields(offset, dpl, ist, gate_type).attrs & 0xFu8 == gate_type_id(gate_type),
        (gate_fields(offset, dpl, ist, gate_type).attrs >> 5u8) & 3u8 == priv_number(dpl),
        gate_fields(offset, dpl, ist, gate_type).attrs & 0x80u8 == 0x80u8,
        gate_fields(offset, dpl, ist, gate_type).attrs & 0x10u8 == 0u8,
        gate_fields(offset, dpl, ist, gate_type).reserved == 0,
{
    let gt = gate_type_id(gate_type);
    let d = priv_number(dpl);
    let a = gate_fields(offset, dpl, ist, gate_type).attrs;
    assert(a == ((gt << 0u8) | (d << 5u8) | (1u8 << 7u8)) as u8);
    assert({
        let x = ((gt << 0u8) | (d << 5u8) | (1u8 << 7u8)) as u8;
        &&& x & 0xFu8 == gt
        &&& (x >> 5u8) & 3u8 == d
        &&& x & 0x80u8 == 0x80u8
        &&& x & 0x10u8 == 0u8
    }) by (bit_vector)
        requires
            gt == 14u8 || gt == 15u8,
            d <= 3u8,
    ;
}

/// An entry of the interrupt descriptor table.
#[derive(Clone, Copy)]
pub struct IdtEntry {
    offset_lo: u16,
    segsel: u16,
    /// 3 bits, rest are reserved.
    ist: u8,
    attrs: u8,
    offset_mid: u16,
    offset_hi: u32,
    reserved: u32,
}

/// The attribute byte of a present gate of type `gate_type` for privilege level `dpl`.
pub open spec fn gate_attrs(gate_type: GateType, dpl: PrivLevel) -> u8 {
    ((gate_type_id(gate_type) << 0u8) | (priv_number(dpl) << 5u8) | (1u8 << 7u8)) as u8
}

/// The fields of a gate for the handler at `offset`, as `new_gate` sets them.
pub open spec fn gate_fields(offset: u64, dpl: PrivLevel, ist: u8, gate_type: GateType) -> IdtFields {
    IdtFields {
        offset_lo: (offset & 0xFFu64) as u16,
        segsel: 0,
        ist,
        attrs: gate_attrs(gate_type, dpl),
        offset_mid: (offset & 0xFF00u64) as u16,
        offset_hi: (offset & 0xFFFF0000u64) as u32,
        reserved: 0,
    }
}

impl IdtEntry {
    /// Every entry has one of the two gate types.
    #[verifier::type_invariant]
    spec fn has_gate_type(&self) -> bool {
        self.attrs & GATE_TYPE_MASK == INTERRUPT_GATE_TYPE_ID || self.attrs & GATE_TYPE_MASK
            == TRAP_GATE_TYPE_ID
    }

    pub closed spec fn fields(&self) -> IdtFields {
        IdtFields {
            offset_lo: self.offset_lo,
            segsel: self.segsel,
            ist: self.ist,
            attrs: self.attrs,
            offset_mid: self.offset_mid,
            offset_hi: self.offset_hi,
            reserved: self.reserved,
        }
    }

    fn new_gate(offset: u64, dpl: PrivLevel, ist: u8, gate_type: GateType) -> (r: Self)
        ensures
            r.fields() == gate_fields(offset, dpl, ist, gate_type),
            r.fields().ist == ist,
    {
        let gt: u8 = gate_type.id();
        let d: u8 = dpl.as_u8();
        let present: u8 = 1;
        let attrs: u8 = (gt << GATE_TYPE_OFFSET) | (d << DPL_OFFSET) | (present << PRESENT_OFFSET);
        proof {
            lemma_gate_type_round_trip(offset, dpl, ist, gate_type);
        }
        IdtEntry {
            offset_lo: (offset & IDT_OFF_LO_MASK) as u16,
            segsel: CODE_SEGSEL,
            ist,
            attrs,
            offset_mid: (offset & IDT_OFF_MID_MASK) as u16,
            offset_hi: (offset & IDT_OFF_HI_MASK) as u32,
            reserved: 0,
        }
    }

    /// A present trap gate for the handler at `offset`.
    pub fn new_trap_gate(offset: u64, dpl: PrivLevel, ist: u8) -> (r: Self)
        ensures
            r.fields() == gate_fields(offset, dpl, ist, GateType::Trap),
            r.fields().ist == ist,
    {
        Self::new_gate(offset, dpl, ist, GateType::Trap)
    }

    /// The kind of gate that the attribute byte holds.
    pub fn get_gate_type(&self) -> (r: GateType)
        ensures
            gate_type_id(r) == self.fields().attrs & GATE_TYPE_MASK,
    {
        proof {
            use_type_invariant(self);
        }
        GateType::from_id(self.attrs & GATE_TYPE_MASK)
    }
}

/// Building a gate and reading its type back gives the type it was built with.
pub proof fn lemma_gate_type_round_trip(offset: u64, dpl: PrivLevel, ist: u8, gate_type: GateType)
    ensures
        gate_fields(offset, dpl, ist, gate_type).attrs & GATE_TYPE_MASK == gate_type_id(gate_type),
{
    let gt = gate_type_id(gate_type);
    let d = priv_number(dpl);
    assert(((gt << 0u8) | (d << 5u8) | (1u8 << 7u8)) & 0xFu8 == gt) by (bit_vector)
        requires
            gt == 14u8 || gt == 15u8,
            d <= 3u8,
    ;
}

/// The interrupt descriptor table: a fixed number of slots, each empty until
/// a handler is registered in it.
pub struct Idt {
    entries: Vec<Option<IdtEntry>>,
}

impl View for Idt {
    type V = Seq<Option<IdtEntry>>;

    closed spec fn view(&self) -> Seq<Option<IdtEntry>> {
        self.entries@
    }
}

impl Idt {
    /// A table with every slot empty; fails when the memory for its slots
    /// cannot be reserved.
    pub fn try_create_idt() -> (r: Result<Self, ()>)
        ensures
            r is Ok ==> r->Ok_0@ == Seq::new(IDT_NUM_ENTRIES as nat, |i: int| None::<IdtEntry>),
    {
        let mut entries: Vec<Option<IdtEntry>> = Vec::new();
        let reserved = entries.try_reserve(IDT_NUM_ENTRIES as usize).is_ok();
        Self::from_reserved(reserved, entries)
    }

    /// Finishes making a table once it is known whether room for its slots
    /// was reserved in the empty `entries`: a table with every slot empty
    /// when it was, and a failure otherwise.
    pub fn from_reserved(reserved: bool, entries: Vec<Option<IdtEntry>>) -> (r: Result<Self, ()>)
        requires
            entries@.len() == 0,
        ensures
            r is Ok <==> reserved,
            r is Ok ==> r->Ok_0@ == Seq::new(IDT_NUM_ENTRIES as nat, |i: int| None::<IdtEntry>),
    {
        if !reserved {
            return Err(());
        }
        let mut entries = entries;
        let mut i: u16 = 0;
        assert(entries@ =~= Seq::new(0, |j: int| None::<IdtEntry>));
        while i < IDT_NUM_ENTRIES
            invariant
                i <= IDT_NUM_ENTRIES,
                entries@ == Seq::new(i as nat, |j: int| None::<IdtEntry>),
            decreases IDT_NUM_ENTRIES - i,
        {
            entries.push(None);
            assert(entries@ =~= Seq::new((i + 1) as nat, |j: int| None::<IdtEntry>));
            i = i + 1;
        }
        Ok(Self { entries })
    }

    /// Register handlers that can be only be called from kernel space.
    pub fn register_kernel_handler(&mut self, irqno: u16, handler: u64, ist: u8)
        requires
            irqno < old(self)@.len(),
        ensures
            final(self)@.len() == old(self)@.len(),
            forall|i: int|
                0 <= i < old(self)@.len() && i != irqno ==> final(self)@[i] == old(self)@[i],
            final(self)@[irqno as int] matches Some(e) && e.fields() == gate_fields(
                handler,
                PrivLevel::Zero,
                ist,
                GateType::Trap,
            ),
            final(self)@[irqno as int] matches Some(e) && e.fields().ist == ist,
    {
        let gate = IdtEntry::new_trap_gate(handler, PrivLevel::Zero, ist);
        self.entries.set(irqno as usize, Some(gate));
    }

    /// Register handlers that can be called from user space using the `int`
    /// instruction (e.g. syscall handlers).
    pub fn register_user_handler(&mut self, irqno: u16, handler: u64, ist: u8)
        requires
            irqno < old(self)@.len(),
        ensures
            final(self)@.len() == old(self)@.len(),
            forall|i: int|
                0 <= i < old(self)@.len() && i != irqno ==> final(self)@[i] == old(self)@[i],
            final(self)@[irqno as int] matches Some(e) && e.fields() == gate_fields(
                handler,
                PrivLevel::Three,
                ist,
                GateType::Trap,
            ),
            final(self)@[irqno as int] matches Some(e) && e.fields().ist == ist,
    {
        let gate = IdtEntry::new_trap_gate(handler, PrivLevel::Three, ist);
        self.entries.set(irqno as usize, Some(gate));
    }

    /// The entry in slot `irqno`, if a handler was registered there.
    pub fn entry(&self, irqno: u16) -> (r: Option<IdtEntry>)
        requires
            irqno < self@.len(),
        ensures
            r == self@[irqno as int],
    {
        self.entries[irqno as usize]
    }
}

} // verus!
