//! The interrupt descriptor table: gate encoding and the table of
//! handlers the kernel registers.

use vstd::prelude::*;
use crate::bits::{field_u16, get_u16, lemma_field_zero_u16, lemma_fits_u16, set_u16};
use crate::gdt::{PrivilegeLevel, SegmentSelector};

verus! {

/// The type of a gate; four bits.
#[derive(Debug, Clone, Copy, PartialEq, Eq, Structural)]
pub enum EntryType {
    InterruptGate,
    TrapGate,
}

impl EntryType {
    /// The encoding of the type.
    pub open spec fn spec_bits(self) -> u16 {
        match self {
            EntryType::InterruptGate => 0b1110,
            EntryType::TrapGate => 0b1111,
        }
    }

    /// The encoding of the type.
    pub fn into_bits(self) -> (r: u16)
        ensures
            r == self.spec_bits(),
    {
        match self {
            EntryType::InterruptGate => 0b1110,
            EntryType::TrapGate => 0b1111,
        }
    }

    /// The type an encoding stands for; only 0b1110 and 0b1111 name one.
    pub fn from_bits(value: u16) -> (r: EntryType)
        requires
            value == 0b1110 || value == 0b1111,
        ensures
            r.spec_bits() == value,
    {
        if value == 0b1110 {
            EntryType::InterruptGate
        } else {
            EntryType::TrapGate
        }
    }
}
/// The type and attribute word of an interrupt gate.
#[derive(Debug, Clone, Copy, PartialEq, Eq, Structural)]
pub struct EntryFlags(pub u16);

impl EntryFlags {
    /// The interrupt stack table index; 0 keeps the current stack.
    pub open spec fn spec_ist(self) -> u16 {
        field_u16(self.0, 0, 3)
    }

    /// Reserved bits 3-7.
    pub open spec fn spec_reserved0(self) -> u16 {
        field_u16(self.0, 3, 5)
    }

    /// The encoded entry type.
    pub open spec fn spec_ty_bits(self) -> u16 {
        field_u16(self.0, 8, 4)
    }

    /// Reserved bit 12.
    pub open spec fn spec_reserved1(self) -> u16 {
        field_u16(self.0, 12, 1)
    }

    /// The encoded privilege level.
    pub open spec fn spec_dpl_bits(self) -> u16 {
        field_u16(self.0, 13, 2)
    }

    /// Whether the entry is present.
    pub open spec fn spec_present(self) -> bool {
        field_u16(self.0, 15, 1) == 1
    }

    /// The register with every field 0.
    pub fn new() -> (r: EntryFlags)
        ensures
            r.0 == 0,
            r.spec_ist() == 0,
            r.spec_reserved0() == 0,
            r.spec_ty_bits() == 0,
            r.spec_reserved1() == 0,
            r.spec_dpl_bits() == 0,
            r.spec_present() == false,
    {
        proof {
            lemma_field_zero_u16(0, 3);
            lemma_field_zero_u16(3, 5);
            lemma_field_zero_u16(8, 4);
            lemma_field_zero_u16(12, 1);
            lemma_field_zero_u16(13, 2);
            lemma_field_zero_u16(15, 1);
        }
        EntryFlags(0)
    }

    /// The register holding the raw bits.
    pub fn from_bits(bits: u16) -> (r: EntryFlags)
        ensures
            r.0 == bits,
    {
        EntryFlags(bits)
    }

    /// The raw bits of the register.
    pub fn into_bits(self) -> (r: u16)
        ensures
            r == self.0,
    {
        self.0
    }

    /// The interrupt stack table index; 0 keeps the current stack.
    pub fn ist(&self) -> (r: u8)
        ensures
            r == self.spec_ist(),
    {
        let v = get_u16(self.0, 0, 3);
        assert(v <= (u16::MAX >> 13u16) ==> v < 8) by (bit_vector);
        v as u8
    }

    /// The register with this field set to `value`, which must fit in 3 bits; the other fields are kept.
    pub fn with_ist(self, value: u8) -> (r: EntryFlags)
        requires
            value < 8,
        ensures
            r.spec_ist() == value,
            r.spec_reserved0() == self.spec_reserved0(),
            r.spec_ty_bits() == self.spec_ty_bits(),
            r.spec_reserved1() == self.spec_reserved1(),
            r.spec_dpl_bits() == self.spec_dpl_bits(),
            r.spec_present() == self.spec_present(),
    {
        let x = value as u16;
        proof {
            lemma_fits_u16(3, x);
        }
        EntryFlags(set_u16(self.0, 0, 3, x))
    }

    /// Whether the entry is present.
    pub fn present(&self) -> (r: bool)
        ensures
            r == self.spec_present(),
    {
        get_u16(self.0, 15, 1) == 1
    }

    /// The register with this field set to `value`; the other fields are kept.
    pub fn with_present(self, value: bool) -> (r: EntryFlags)
        ensures
            r.spec_present() == value,
            r.spec_ist() == self.spec_ist(),
            r.spec_reserved0() == self.spec_reserved0(),
            r.spec_ty_bits() == self.spec_ty_bits(),
            r.spec_reserved1() == self.spec_reserved1(),
            r.spec_dpl_bits() == self.spec_dpl_bits(),
    {
        let x: u16 = if value { 1 } else { 0 };
        proof {
            lemma_fits_u16(1, x);
        }
        EntryFlags(set_u16(self.0, 15, 1, x))
    }

}

impl EntryFlags {
    /// The entry type.
    pub fn ty(&self) -> (r: EntryType)
        requires
            self.spec_ty_bits() == 0b1110 || self.spec_ty_bits() == 0b1111,
        ensures
            r.spec_bits() == self.spec_ty_bits(),
    {
        EntryType::from_bits(get_u16(self.0, 8, 4))
    }

    /// The word with the entry type set; the other fields are kept.
    pub fn with_ty(self, value: EntryType) -> (r: EntryFlags)
        ensures
            r.spec_ty_bits() == value.spec_bits(),
            r.spec_ist() == self.spec_ist(),
            r.spec_reserved0() == self.spec_reserved0(),
            r.spec_reserved1() == self.spec_reserved1(),
            r.spec_dpl_bits() == self.spec_dpl_bits(),
            r.spec_present() == self.spec_present(),
    {
        let x = value.into_bits();
        proof {
            lemma_fits_u16(4, x);
        }
        EntryFlags(set_u16(self.0, 8, 4, x))
    }

    /// The privilege level needed to raise the interrupt by software.
    pub fn dpl(&self) -> (r: PrivilegeLevel)
        requires
            self.spec_dpl_bits() == 0 || self.spec_dpl_bits() == 3,
        ensures
            r.spec_bits() == self.spec_dpl_bits(),
    {
        if get_u16(self.0, 13, 2) == 0 {
            PrivilegeLevel::Supervisor
        } else {
            PrivilegeLevel::User
        }
    }

    /// The word with the privilege level set; the other fields are kept.
    pub fn with_dpl(self, value: PrivilegeLevel) -> (r: EntryFlags)
        ensures
            r.spec_dpl_bits() == value.spec_bits(),
            r.spec_ist() == self.spec_ist(),
            r.spec_reserved0() == self.spec_reserved0(),
            r.spec_ty_bits() == self.spec_ty_bits(),
            r.spec_reserved1() == self.spec_reserved1(),
            r.spec_present() == self.spec_present(),
    {
        let x = value.bits();
        proof {
            lemma_fits_u16(2, x);
        }
        EntryFlags(set_u16(self.0, 13, 2, x))
    }
}

/// A gate of the interrupt descriptor table.
#[derive(Debug, Clone, Copy, PartialEq, Eq, Structural)]
pub struct Entry {
    pub offset_low: u16,
    pub selector: SegmentSelector,
    pub flags: EntryFlags,
    pub offset_middle: u16,
    pub offset_high: u32,
    pub reserved: u32,
}

impl Entry {
    /// A gate to `base` through `selector`, with the given stack index,
    /// type, privilege and present bit.
    pub fn new(
        base: u64,
        selector: SegmentSelector,
        ist: u8,
        ty: EntryType,
        dpl: PrivilegeLevel,
        present: bool,
    ) -> (r: Entry)
        requires
            ist < 8,
        ensures
            r.offset_low == base % 0x10000,
            r.offset_middle == (base / 0x10000) % 0x10000,
            r.offset_high == base / 0x1_0000_0000,
            r.selector == selector,
            r.reserved == 0,
            r.flags.spec_ist() == ist,
            r.flags.spec_ty_bits() == ty.spec_bits(),
            r.flags.spec_dpl_bits() == dpl.spec_bits(),
            r.flags.spec_present() == present,
            r.flags.spec_reserved0() == 0,
            r.flags.spec_reserved1() == 0,
    {
        let (low, middle, high) = split_offset(base);
        Entry {
            offset_low: low,
            selector,
            flags: EntryFlags::new().with_ist(ist).with_ty(ty).with_dpl(dpl).with_present(present),
            offset_middle: middle,
            offset_high: high,
            reserved: 0,
        }
    }

    /// The entry with its handler address replaced.
    pub fn with_offset(self, base: u64) -> (r: Entry)
        ensures
            r.offset_low == base % 0x10000,
            r.offset_middle == (base / 0x10000) % 0x10000,
            r.offset_high == base / 0x1_0000_0000,
            r.selector == self.selector,
            r.flags == self.flags,
            r.reserved == self.reserved,
    {
        let (low, middle, high) = split_offset(base);
        Entry { offset_low: low, offset_middle: middle, offset_high: high, ..self }
    }
}

/// The three parts of a handler address as a gate stores them.
fn split_offset(base: u64) -> (r: (u16, u16, u32))
    ensures
        r.0 == base % 0x10000,
        r.1 == (base / 0x10000) % 0x10000,
        r.2 == base / 0x1_0000_0000,
{
    assert(base as u16 == base % 0x10000 && (base >> 16u64) as u16 == (base / 0x10000) % 0x10000
        && (base >> 32u64) as u32 == base / 0x1_0000_0000) by (bit_vector);
    (base as u16, (base >> 16) as u16, (base >> 32) as u32)
}

/// The handler the kernel runs for a vector: its address and how the
/// common interrupt path treats it.
#[derive(Debug, Clone, Copy, PartialEq, Eq, Structural)]
pub struct InterruptHandler {
    pub func: u64,
    pub is_irq: bool,
    pub should_iret: bool,
}

/// Number of vectors.
pub const IDT_ENTRIES: usize = 256;

/// The entry every vector starts with: present interrupt gate into the
/// kernel code segment, ring 0, no stack switch, handler address unset.
pub open spec fn initial_entry(e: Entry) -> bool {
    &&& e.offset_low == 0
    &&& e.offset_middle == 0
    &&& e.offset_high == 0
    &&& e.selector == SegmentSelector(8)
    &&& e.reserved == 0
    &&& e.flags.spec_ist() == 0
    &&& e.flags.spec_ty_bits() == 0b1110
    &&& e.flags.spec_dpl_bits() == 0
    &&& e.flags.spec_present()
    &&& e.flags.spec_reserved0() == 0
    &&& e.flags.spec_reserved1() == 0
}

/// The entrys and the handler of each vector.
pub struct Idt {
    pub entries: Vec<Entry>,
    pub handlers: Vec<InterruptHandler>,
    pub default_func: u64,
}

impl Idt {
    /// The table's shape: one gate and one handler per vector.
    pub open spec fn wf(&self) -> bool {
        &&& self.entries@.len() == IDT_ENTRIES
        &&& self.handlers@.len() == IDT_ENTRIES
    }

    /// Whether vector `v` still has the default handler.
    pub open spec fn is_free(&self, v: int) -> bool {
        self.handlers@[v].func == self.default_func
    }

    /// Every vector with the initial gate and the default handler at `default_func`.
    pub fn new(default_func: u64) -> (r: Idt)
        ensures
            r.wf(),
            r.default_func == default_func,
            forall|v: int| 0 <= v < IDT_ENTRIES ==> initial_entry(#[trigger] r.entries@[v]),
            forall|v: int|
                0 <= v < IDT_ENTRIES ==> #[trigger] r.handlers@[v] == (InterruptHandler {
                    func: default_func,
                    is_irq: false,
                    should_iret: false,
                }),
    {
        let mut entries: Vec<Entry> = Vec::new();
        let mut handlers: Vec<InterruptHandler> = Vec::new();
        let sel = SegmentSelector::new(1, PrivilegeLevel::Supervisor);
        let mut i: usize = 0;
        while i < IDT_ENTRIES
            invariant
                i <= IDT_ENTRIES,
                sel == SegmentSelector(8),
                entries@.len() == i,
                handlers@.len() == i,
                forall|v: int| 0 <= v < i ==> initial_entry(#[trigger] entries@[v]),
                forall|v: int|
                    0 <= v < i ==> #[trigger] handlers@[v] == (InterruptHandler {
                        func: default_func,
                        is_irq: false,
                        should_iret: false,
                    }),
            decreases IDT_ENTRIES - i,
        {
            entries.push(
                Entry::new(0, sel, 0, EntryType::InterruptGate, PrivilegeLevel::Supervisor, true),
            );
            handlers.push(InterruptHandler { func: default_func, is_irq: false, should_iret: false });
            i = i + 1;
        }
        Idt { entries, handlers, default_func }
    }

    /// Installs `func` for vector `isr`: the entry gets the privilege level
    /// and stack index, the handler slot the function and its flags. A
    /// vector can be claimed once.
    pub fn set_handler(
        &mut self,
        isr: u8,
        ist: u8,
        dpl: PrivilegeLevel,
        func: u64,
        is_irq: bool,
        should_iret: bool,
    )
        requires
            old(self).wf(),
            old(self).is_free(isr as int),
            ist < 8,
        ensures
            final(self).wf(),
            final(self).default_func == old(self).default_func,
            final(self).handlers@ == old(self).handlers@.update(
                isr as int,
                InterruptHandler { func, is_irq, should_iret },
            ),
            ({
                let e0 = old(self).entries@[isr as int];
                let e1 = final(self).entries@[isr as int];
                &&& e1.flags.spec_dpl_bits() == dpl.spec_bits()
                &&& e1.flags.spec_ist() == ist
                &&& e1.flags.spec_ty_bits() == e0.flags.spec_ty_bits()
                &&& e1.flags.spec_present() == e0.flags.spec_present()
                &&& e1.flags.spec_reserved0() == e0.flags.spec_reserved0()
                &&& e1.flags.spec_reserved1() == e0.flags.spec_reserved1()
                &&& e1 == Entry { flags: e1.flags, ..e0 }
            }),
            forall|v: int| 0 <= v < IDT_ENTRIES && v != isr ==> #[trigger] final(self).entries@[v] == old(self).entries@[v],
    {
        let i = isr as usize;
        let ent = self.entries[i];
        let flags = ent.flags.with_dpl(dpl).with_ist(ist);
        self.entries.set(i, Entry { flags, ..ent });
        self.handlers.set(i, InterruptHandler { func, is_irq, should_iret });
    }

    /// Points every gate at its entry stub: `stubs[v]` is the address of the stub of vector `v`.
    pub fn load_offsets(&mut self, stubs: &[u64])
        requires
            old(self).wf(),
            stubs@.len() == IDT_ENTRIES,
        ensures
            final(self).wf(),
            final(self).handlers@ == old(self).handlers@,
            final(self).default_func == old(self).default_func,
            forall|v: int|
                0 <= v < IDT_ENTRIES ==> {
                    let e0 = old(self).entries@[v];
                    let e1 = #[trigger] final(self).entries@[v];
                    &&& e1.offset_low == stubs@[v] % 0x10000
                    &&& e1.offset_middle == (stubs@[v] / 0x10000) % 0x10000
                    &&& e1.offset_high == stubs@[v] / 0x1_0000_0000
                    &&& e1.selector == e0.selector
                    &&& e1.flags == e0.flags
                    &&& e1.reserved == e0.reserved
                },
    {
        let mut i: usize = 0;
        while i < IDT_ENTRIES
            invariant
                i <= IDT_ENTRIES,
                stubs@.len() == IDT_ENTRIES,
                self.wf(),
                self.handlers@ == old(self).handlers@,
                self.default_func == old(self).default_func,
                forall|v: int|
                    i <= v < IDT_ENTRIES ==> #[trigger] self.entries@[v] == old(self).entries@[v],
                forall|v: int|
                    0 <= v < i ==> {
                        let e0 = old(self).entries@[v];
                        let e1 = #[trigger] self.entries@[v];
                        &&& e1.offset_low == stubs@[v] % 0x10000
                        &&& e1.offset_middle == (stubs@[v] / 0x10000) % 0x10000
                        &&& e1.offset_high == stubs@[v] / 0x1_0000_0000
                        &&& e1.selector == e0.selector
                        &&& e1.flags == e0.flags
                        &&& e1.reserved == e0.reserved
                    },
            decreases IDT_ENTRIES - i,
        {
            let e = self.entries[i].with_offset(stubs[i]);
            self.entries.set(i, e);
            i = i + 1;
        }
    }
}

/// Installs the handler of the spurious IRQ 7 check at vector 0x27, for
/// ring 0 on the current stack; every other gate stays as it was.
pub fn init_intr_quirks(idt: &mut Idt, irq7_quirk: u64)
    requires
        old(idt).wf(),
        old(idt).is_free(0x27),
    ensures
        final(idt).wf(),
        final(idt).handlers@ == old(idt).handlers@.update(
            0x27,
            InterruptHandler { func: irq7_quirk, is_irq: false, should_iret: true },
        ),
        final(idt).default_func == old(idt).default_func,
        final(idt).entries@[0x27].flags.spec_dpl_bits() == 0,
        final(idt).entries@[0x27].flags.spec_ist() == 0,
        final(idt).entries@[0x27] == (Entry { flags: final(idt).entries@[0x27].flags, ..old(idt).entries@[0x27] }),
        forall|v: int|
            0 <= v < IDT_ENTRIES && v != 0x27 ==> #[trigger] final(idt).entries@[v] == old(idt).entries@[v],
{
    idt.set_handler(0x27, 0, PrivilegeLevel::Supervisor, irq7_quirk, false, true);
}

/// Installs the system-call handler at vector 249, callable from user
/// space, on the first interrupt stack; every other gate stays as it was.
pub fn setup(idt: &mut Idt, syscall_handler: u64)
    requires
        old(idt).wf(),
        old(idt).is_free(249),
    ensures
        final(idt).wf(),
        final(idt).handlers@ == old(idt).handlers@.update(
            249,
            InterruptHandler { func: syscall_handler, is_irq: false, should_iret: true },
        ),
        final(idt).default_func == old(idt).default_func,
        final(idt).entries@[249].flags.spec_dpl_bits() == 3,
        final(idt).entries@[249].flags.spec_ist() == 1,
        final(idt).entries@[249] == (Entry { flags: final(idt).entries@[249].flags, ..old(idt).entries@[249] }),
        forall|v: int|
            0 <= v < IDT_ENTRIES && v != 249 ==> #[trigger] final(idt).entries@[v] == old(idt).entries@[v],
{
    idt.set_handler(249, 1, PrivilegeLevel::User, syscall_handler, false, true);
}

} // verus!
