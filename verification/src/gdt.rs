//! The global descriptor table: segment selectors and descriptors.

use vstd::prelude::*;

verus! {

/// A descriptor privilege level; two bits.
#[derive(Debug, Clone, Copy, PartialEq, Eq, Structural)]
pub enum PrivilegeLevel {
    Supervisor,
    User,
}

impl PrivilegeLevel {
    /// The ring number of the level.
    pub open spec fn spec_bits(self) -> u16 {
        match self {
            PrivilegeLevel::Supervisor => 0,
            PrivilegeLevel::User => 3,
        }
    }

    /// The ring number of the level: 0 for the kernel, 3 for user space.
    pub fn bits(self) -> (r: u16)
        ensures
            r == self.spec_bits(),
    {
        match self {
            PrivilegeLevel::Supervisor => 0,
            PrivilegeLevel::User => 3,
        }
    }
}

/// A segment selector: the descriptor index above the requested privilege level.
#[derive(Debug, Clone, Copy, PartialEq, Eq, Structural)]
pub struct SegmentSelector(pub u16);

impl SegmentSelector {
    /// The selector value for a descriptor index and privilege level.
    pub open spec fn spec_value(index: u16, dpl: PrivilegeLevel) -> u16 {
        (((index as int * 8) % 0x10000) + dpl.spec_bits()) as u16
    }

    /// `(index << 3) | dpl`; the top three bits of `index` are shifted out.
    pub fn new(index: u16, dpl: PrivilegeLevel) -> (r: SegmentSelector)
        ensures
            r.0 == Self::spec_value(index, dpl),
    {
        let d = dpl.bits();
        let v = (index << 3) | d;
        assert((index << 3) | d == ((index as int * 8) % 0x10000) + d) by (bit_vector)
            requires
                d < 4,
        ;
        SegmentSelector(v)
    }
}

/// The type field of a segment descriptor; five bits.
#[derive(Debug, Clone, Copy, PartialEq, Eq, Structural)]
pub enum DescriptorType {
    Unused,
    CodeSegment,
    CodeSegmentAccessed,
    DataSegment,
    DataSegmentAccessed,
    TaskSegment,
}

impl DescriptorType {
    /// The five-bit encoding of the type.
    pub open spec fn spec_bits(self) -> u8 {
        match self {
            DescriptorType::Unused => 0b0,
            DescriptorType::CodeSegment => 0b11010,
            DescriptorType::CodeSegmentAccessed => 0b11011,
            DescriptorType::DataSegment => 0b10010,
            DescriptorType::DataSegmentAccessed => 0b10011,
            DescriptorType::TaskSegment => 0b01001,
        }
    }

    /// The five-bit encoding of the type.
    pub fn bits(self) -> (r: u8)
        ensures
            r == self.spec_bits(),
    {
        match self {
            DescriptorType::Unused => 0b0,
            DescriptorType::CodeSegment => 0b11010,
            DescriptorType::CodeSegmentAccessed => 0b11011,
            DescriptorType::DataSegment => 0b10010,
            DescriptorType::DataSegmentAccessed => 0b10011,
            DescriptorType::TaskSegment => 0b01001,
        }
    }
}

/// The attribute word of a segment descriptor: type (bits 0-4), privilege
/// level (5-6), present (7), limit high (8-11), available (12), long mode
/// (13), default operand size (14), granularity (15).
#[derive(Debug, Clone, Copy, PartialEq, Eq, Structural)]
pub struct SegmentAttributes(pub u16);

impl SegmentAttributes {
    /// The attribute word with the given type, privilege, present and long-mode bits, the rest clear.
    pub open spec fn spec_encode(ty: DescriptorType, dpl: PrivilegeLevel, present: bool, long: bool) -> u16 {
        (ty.spec_bits() + 32 * dpl.spec_bits() + (if present { 128int } else { 0 }) + (if long {
            8192int
        } else {
            0
        })) as u16
    }

    /// Builds the word from its two bytes, low byte first.
    pub fn from_bytes(bytes: [u8; 2]) -> (r: SegmentAttributes)
        ensures
            r.0 == bytes[0] + 256 * bytes[1],
    {
        let lo = bytes[0] as u16;
        let hi = bytes[1] as u16;
        assert(lo | (hi << 8) == lo + 256 * hi) by (bit_vector)
            requires
                lo < 256,
                hi < 256,
        ;
        SegmentAttributes(lo | (hi << 8))
    }
}

/// A code or data segment descriptor.
#[derive(Debug, Clone, Copy, PartialEq, Eq, Structural)]
pub struct SegmentDescriptor {
    pub limit_low: u16,
    pub base_low: u16,
    pub base_middle: u8,
    pub attrs: SegmentAttributes,
    pub base_high: u8,
}

impl SegmentDescriptor {
    /// The descriptor in slot 0: type `None`, present, ring 0.
    pub fn null() -> (r: SegmentDescriptor)
        ensures
            r == SegmentDescriptor::spec_new(0, DescriptorType::Unused, PrivilegeLevel::Supervisor, true, false),
    {
        Self::new(0, DescriptorType::Unused, PrivilegeLevel::Supervisor, true, false)
    }

    /// The descriptor `new` builds.
    pub open spec fn spec_new(limit_low: u16, ty: DescriptorType, dpl: PrivilegeLevel, present: bool, long: bool) -> SegmentDescriptor {
        SegmentDescriptor {
            limit_low,
            base_low: 0,
            base_middle: 0,
            attrs: SegmentAttributes(SegmentAttributes::spec_encode(ty, dpl, present, long)),
            base_high: 0,
        }
    }

    /// A descriptor with base 0 and the given limit, type, privilege, present and long-mode bits.
    pub fn new(limit_low: u16, ty: DescriptorType, dpl: PrivilegeLevel, present: bool, long: bool) -> (r: SegmentDescriptor)
        ensures
            r == Self::spec_new(limit_low, ty, dpl, present, long),
    {
        let t = ty.bits();
        let d = dpl.bits() as u8;
        let p: u8 = if present { 1 } else { 0 };
        let l: u8 = if long { 1 } else { 0 };
        assert(t | (d << 5u8) | (p << 7u8) == t + 32 * d + 128 * p) by (bit_vector)
            requires
                t < 32,
                d < 4,
                p < 2,
        ;
        assert(l << 5u8 == 32 * l) by (bit_vector)
            requires
                l < 2,
        ;
        SegmentDescriptor {
            limit_low,
            base_low: 0,
            base_middle: 0,
            attrs: SegmentAttributes::from_bytes([t | (d << 5) | (p << 7), l << 5]),
            base_high: 0,
        }
    }

    /// A present descriptor of the given type and privilege; code segments are 64-bit.
    pub fn new_from_ty(ty: DescriptorType, dpl: PrivilegeLevel) -> (r: SegmentDescriptor)
        ensures
            r == Self::spec_new(0, ty, dpl, true, ty == DescriptorType::CodeSegment),
    {
        match ty {
            DescriptorType::CodeSegment => Self::new(0, ty, dpl, true, true),
            _ => Self::new(0, ty, dpl, true, false),
        }
    }
}

/// The 16-byte descriptor of the task state segment.
#[derive(Debug, Clone, Copy, PartialEq, Eq, Structural)]
pub struct TaskSegmentDescriptor {
    pub length: u16,
    pub base_low: u16,
    pub base_middle: u8,
    pub attrs: SegmentAttributes,
    pub base_high: u8,
    pub base_upper: u32,
    pub reserved: u32,
}

impl TaskSegmentDescriptor {
    /// The descriptor of a 104-byte task segment at base 0, not yet present.
    pub fn null() -> (r: TaskSegmentDescriptor)
        ensures
            r.length == 104,
            r.base_low == 0,
            r.base_middle == 0,
            r.base_high == 0,
            r.base_upper == 0,
            r.attrs.0 == DescriptorType::TaskSegment.spec_bits() + 256 * 32,
    {
        let long_bit: u8 = 1u8 << 5u8;
        assert(1u8 << 5u8 == 32) by (bit_vector);
        TaskSegmentDescriptor {
            length: 104,
            base_low: 0,
            base_middle: 0,
            attrs: SegmentAttributes::from_bytes([DescriptorType::TaskSegment.bits(), long_bit]),
            base_high: 0,
            base_upper: 0,
            reserved: 0,
        }
    }

    /// The descriptor pointing at a task segment at `tss_addr`, marked
    /// present; length and the other attribute bits are kept.
    pub fn with_base(self, tss_addr: u64) -> (r: TaskSegmentDescriptor)
        ensures
            r.length == self.length,
            r.base_low == tss_addr % 0x10000,
            r.base_middle == (tss_addr / 0x10000) % 0x100,
            r.base_high == (tss_addr / 0x100_0000) % 0x100,
            r.base_upper == tss_addr / 0x1_0000_0000,
            r.attrs.0 == self.attrs.0 | 0x80,
            r.reserved == self.reserved,
    {
        assert(tss_addr as u16 == tss_addr % 0x10000 && (tss_addr >> 16u64) as u8 == (tss_addr / 0x10000)
            % 0x100 && (tss_addr >> 24u64) as u8 == (tss_addr / 0x100_0000) % 0x100 && (tss_addr
            >> 32u64) as u32 == tss_addr / 0x1_0000_0000) by (bit_vector);
        TaskSegmentDescriptor {
            base_low: tss_addr as u16,
            base_middle: (tss_addr >> 16) as u8,
            attrs: SegmentAttributes(self.attrs.0 | 0x80),
            base_high: (tss_addr >> 24) as u8,
            base_upper: (tss_addr >> 32) as u32,
            ..self
        }
    }
}

/// The global descriptor table: null, kernel code and data, user code and
/// data, and the task segment.
#[derive(Debug, Clone, Copy)]
pub struct GDTData {
    pub null: SegmentDescriptor,
    pub code_segment: SegmentDescriptor,
    pub data_segment: SegmentDescriptor,
    pub user_code_segment: SegmentDescriptor,
    pub user_data_segment: SegmentDescriptor,
    pub task_segment: TaskSegmentDescriptor,
}

impl GDTData {
    /// The kernel's table.
    pub fn new() -> (r: GDTData)
        ensures
            r.null == SegmentDescriptor::spec_new(0, DescriptorType::Unused, PrivilegeLevel::Supervisor, true, false),
            r.code_segment == SegmentDescriptor::spec_new(0, DescriptorType::CodeSegment, PrivilegeLevel::Supervisor, true, true),
            r.data_segment == SegmentDescriptor::spec_new(0, DescriptorType::DataSegment, PrivilegeLevel::Supervisor, true, false),
            r.user_code_segment == SegmentDescriptor::spec_new(0, DescriptorType::CodeSegment, PrivilegeLevel::User, true, true),
            r.user_data_segment == SegmentDescriptor::spec_new(0, DescriptorType::DataSegment, PrivilegeLevel::User, true, false),
            r.task_segment.length == 104,
            r.task_segment.attrs.0 == DescriptorType::TaskSegment.spec_bits() + 256 * 32,
    {
        GDTData {
            null: SegmentDescriptor::null(),
            code_segment: SegmentDescriptor::new_from_ty(DescriptorType::CodeSegment, PrivilegeLevel::Supervisor),
            data_segment: SegmentDescriptor::new_from_ty(DescriptorType::DataSegment, PrivilegeLevel::Supervisor),
            user_code_segment: SegmentDescriptor::new_from_ty(DescriptorType::CodeSegment, PrivilegeLevel::User),
            user_data_segment: SegmentDescriptor::new_from_ty(DescriptorType::DataSegment, PrivilegeLevel::User),
            task_segment: TaskSegmentDescriptor::null(),
        }
    }
}

} // verus!
