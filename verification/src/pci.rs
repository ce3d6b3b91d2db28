//! PCI configuration space: addresses, the command register, register
//! offsets, the port I/O access mechanism, bus enumeration and the
//! requests drivers send to the PCI service.

use vstd::prelude::*;
use crate::bits::{field_u16, get_u16, lemma_field_zero_u16, lemma_fits_u16, set_u16};

verus! {

/// The location of a PCI function.
#[derive(Debug, Clone, Copy, PartialEq, Eq, Structural)]
pub struct PCIAddress {
    pub segment: u16,
    pub bus: u8,
    pub slot: u8,
    pub func: u8,
}

impl PCIAddress {
    /// The function `func` of device `slot` on `bus` in `segment`.
    pub fn new(segment: u16, bus: u8, slot: u8, func: u8) -> (r: PCIAddress)
        ensures
            r == (PCIAddress { segment, bus, slot, func }),
    {
        PCIAddress { segment, bus, slot, func }
    }

    /// The address the enumeration visits after this one: the next
    /// function of the device when `next_function` and one is left, else
    /// function 0 of the next device (32 per bus, 256 buses); `None` after
    /// the last.
    pub open spec fn spec_next_scan(self, next_function: bool) -> Option<PCIAddress> {
        if next_function && self.func < 7 {
            Some(PCIAddress { func: (self.func + 1) as u8, ..self })
        } else if self.slot < 31 {
            Some(PCIAddress { slot: (self.slot + 1) as u8, func: 0, ..self })
        } else if self.bus < 255 {
            Some(PCIAddress { bus: (self.bus + 1) as u8, slot: 0, func: 0, ..self })
        } else {
            None
        }
    }

    /// The next address of the enumeration.
    pub fn next_scan(&self, next_function: bool) -> (r: Option<PCIAddress>)
        ensures
            r == self.spec_next_scan(next_function),
    {
        if next_function && self.func < 7 {
            Some(PCIAddress { func: self.func + 1, ..*self })
        } else if self.slot < 31 {
            Some(PCIAddress { slot: self.slot + 1, func: 0, ..*self })
        } else if self.bus < 255 {
            Some(PCIAddress { bus: self.bus + 1, slot: 0, func: 0, ..*self })
        } else {
            None
        }
    }
}

/// The position of a function in the enumeration order of its segment.
pub open spec fn scan_index(a: PCIAddress) -> int {
    a.bus * 256 + a.slot * 8 + a.func
}

/// Enumeration moves forward: from a valid address it reaches a valid
/// address further on, and it ends only after the last device of the
/// last bus.
pub proof fn law_scan_advances(a: PCIAddress, next_function: bool)
    requires
        a.slot < 32,
        a.func < 8,
    ensures
        a.spec_next_scan(next_function) matches Some(b) ==> {
            &&& b.slot < 32
            &&& b.func < 8
            &&& b.segment == a.segment
            &&& scan_index(b) > scan_index(a)
        },
        a.spec_next_scan(next_function) is None ==> a.bus == 255 && a.slot == 31 && (!next_function
            || a.func == 7),
{
}

/// The offsets of the registers of the configuration header.
#[derive(Debug, Clone, Copy, PartialEq, Eq, Structural)]
pub enum PCICfgOffset {
    VendorID,
    DeviceID,
    Command,
    Status,
    RevisionId,
    ProgIf,
    ClassCode,
    Subclass,
    CacheLineSize,
    LatencyTimer,
    HeaderType,
    Bist,
    BaseAddr0,
    BaseAddr1,
    BaseAddr2,
    BaseAddr3,
    BaseAddr4,
    BaseAddr5,
    CardBusCisPtr,
    SubSystemVendorId,
    SubSystemId,
    ExpansionRomBase,
    CapabilitiesPtr,
    InterruptLine,
    InterruptPin,
    MinimumGrant,
    MaximumLatency,
}

impl PCICfgOffset {
    /// The register's offset in the configuration header.
    pub open spec fn spec_offset(self) -> u8 {
        match self {
            PCICfgOffset::VendorID => 0x00,
            PCICfgOffset::DeviceID => 0x02,
            PCICfgOffset::Command => 0x04,
            PCICfgOffset::Status => 0x06,
            PCICfgOffset::RevisionId => 0x08,
            PCICfgOffset::ProgIf => 0x09,
            PCICfgOffset::ClassCode => 0x0A,
            PCICfgOffset::Subclass => 0x0B,
            PCICfgOffset::CacheLineSize => 0x0C,
            PCICfgOffset::LatencyTimer => 0x0D,
            PCICfgOffset::HeaderType => 0x0E,
            PCICfgOffset::Bist => 0x0F,
            PCICfgOffset::BaseAddr0 => 0x10,
            PCICfgOffset::BaseAddr1 => 0x14,
            PCICfgOffset::BaseAddr2 => 0x18,
            PCICfgOffset::BaseAddr3 => 0x1C,
            PCICfgOffset::BaseAddr4 => 0x20,
            PCICfgOffset::BaseAddr5 => 0x24,
            PCICfgOffset::CardBusCisPtr => 0x28,
            PCICfgOffset::SubSystemVendorId => 0x2C,
            PCICfgOffset::SubSystemId => 0x2E,
            PCICfgOffset::ExpansionRomBase => 0x30,
            PCICfgOffset::CapabilitiesPtr => 0x34,
            PCICfgOffset::InterruptLine => 0x3C,
            PCICfgOffset::InterruptPin => 0x3D,
            PCICfgOffset::MinimumGrant => 0x3E,
            PCICfgOffset::MaximumLatency => 0x3F,
        }
    }

    /// The register's offset in the configuration header.
    pub fn offset(self) -> (r: u8)
        ensures
            r == self.spec_offset(),
    {
        match self {
            PCICfgOffset::VendorID => 0x00,
            PCICfgOffset::DeviceID => 0x02,
            PCICfgOffset::Command => 0x04,
            PCICfgOffset::Status => 0x06,
            PCICfgOffset::RevisionId => 0x08,
            PCICfgOffset::ProgIf => 0x09,
            PCICfgOffset::ClassCode => 0x0A,
            PCICfgOffset::Subclass => 0x0B,
            PCICfgOffset::CacheLineSize => 0x0C,
            PCICfgOffset::LatencyTimer => 0x0D,
            PCICfgOffset::HeaderType => 0x0E,
            PCICfgOffset::Bist => 0x0F,
            PCICfgOffset::BaseAddr0 => 0x10,
            PCICfgOffset::BaseAddr1 => 0x14,
            PCICfgOffset::BaseAddr2 => 0x18,
            PCICfgOffset::BaseAddr3 => 0x1C,
            PCICfgOffset::BaseAddr4 => 0x20,
            PCICfgOffset::BaseAddr5 => 0x24,
            PCICfgOffset::CardBusCisPtr => 0x28,
            PCICfgOffset::SubSystemVendorId => 0x2C,
            PCICfgOffset::SubSystemId => 0x2E,
            PCICfgOffset::ExpansionRomBase => 0x30,
            PCICfgOffset::CapabilitiesPtr => 0x34,
            PCICfgOffset::InterruptLine => 0x3C,
            PCICfgOffset::InterruptPin => 0x3D,
            PCICfgOffset::MinimumGrant => 0x3E,
            PCICfgOffset::MaximumLatency => 0x3F,
        }
    }
}
/// The command register of a PCI function.
#[derive(Debug, Clone, Copy, PartialEq, Eq, Structural)]
pub struct PCICommand(pub u16);

impl PCICommand {
    /// I/O space access.
    pub open spec fn spec_pio(self) -> bool {
        field_u16(self.0, 0, 1) == 1
    }

    /// Memory space access.
    pub open spec fn spec_mmio(self) -> bool {
        field_u16(self.0, 1, 1) == 1
    }

    /// Bus mastering.
    pub open spec fn spec_bus_master(self) -> bool {
        field_u16(self.0, 2, 1) == 1
    }

    /// Special cycles.
    pub open spec fn spec_special_cycle(self) -> bool {
        field_u16(self.0, 3, 1) == 1
    }

    /// Memory write and invalidate.
    pub open spec fn spec_mem_write_and_invl(self) -> bool {
        field_u16(self.0, 4, 1) == 1
    }

    /// VGA palette snooping.
    pub open spec fn spec_vga_palette_snoop(self) -> bool {
        field_u16(self.0, 5, 1) == 1
    }

    /// Parity error response.
    pub open spec fn spec_parity_error_resp(self) -> bool {
        field_u16(self.0, 6, 1) == 1
    }

    /// Wait cycle control.
    pub open spec fn spec_wait_cycle_ctl(self) -> bool {
        field_u16(self.0, 7, 1) == 1
    }

    /// SERR# driver.
    pub open spec fn spec_serr(self) -> bool {
        field_u16(self.0, 8, 1) == 1
    }

    /// Fast back-to-back transactions.
    pub open spec fn spec_fast_back_to_back(self) -> bool {
        field_u16(self.0, 9, 1) == 1
    }

    /// Interrupts disabled.
    pub open spec fn spec_disable_intrs(self) -> bool {
        field_u16(self.0, 10, 1) == 1
    }

    /// Reserved bits 11-15.
    pub open spec fn spec_reserved0(self) -> u16 {
        field_u16(self.0, 11, 5)
    }

    /// The register with every field 0.
    pub fn new() -> (r: PCICommand)
        ensures
            r.0 == 0,
            r.spec_pio() == false,
            r.spec_mmio() == false,
            r.spec_bus_master() == false,
            r.spec_special_cycle() == false,
            r.spec_mem_write_and_invl() == false,
            r.spec_vga_palette_snoop() == false,
            r.spec_parity_error_resp() == false,
            r.spec_wait_cycle_ctl() == false,
            r.spec_serr() == false,
            r.spec_fast_back_to_back() == false,
            r.spec_disable_intrs() == false,
            r.spec_reserved0() == 0,
    {
        proof {
            lemma_field_zero_u16(0, 1);
            lemma_field_zero_u16(1, 1);
            lemma_field_zero_u16(2, 1);
            lemma_field_zero_u16(3, 1);
            lemma_field_zero_u16(4, 1);
            lemma_field_zero_u16(5, 1);
            lemma_field_zero_u16(6, 1);
            lemma_field_zero_u16(7, 1);
            lemma_field_zero_u16(8, 1);
            lemma_field_zero_u16(9, 1);
            lemma_field_zero_u16(10, 1);
            lemma_field_zero_u16(11, 5);
        }
        PCICommand(0)
    }

    /// The register holding the raw bits.
    pub fn from_bits(bits: u16) -> (r: PCICommand)
        ensures
            r.0 == bits,
    {
        PCICommand(bits)
    }

    /// The raw bits of the register.
    pub fn into_bits(self) -> (r: u16)
        ensures
            r == self.0,
    {
        self.0
    }

    /// I/O space access.
    pub fn pio(&self) -> (r: bool)
        ensures
            r == self.spec_pio(),
    {
        get_u16(self.0, 0, 1) == 1
    }

    /// The register with this field set to `value`; the other fields are kept.
    pub fn with_pio(self, value: bool) -> (r: PCICommand)
        ensures
            r.spec_pio() == value,
            r.spec_mmio() == self.spec_mmio(),
            r.spec_bus_master() == self.spec_bus_master(),
            r.spec_special_cycle() == self.spec_special_cycle(),
            r.spec_mem_write_and_invl() == self.spec_mem_write_and_invl(),
            r.spec_vga_palette_snoop() == self.spec_vga_palette_snoop(),
            r.spec_parity_error_resp() == self.spec_parity_error_resp(),
            r.spec_wait_cycle_ctl() == self.spec_wait_cycle_ctl(),
            r.spec_serr() == self.spec_serr(),
            r.spec_fast_back_to_back() == self.spec_fast_back_to_back(),
            r.spec_disable_intrs() == self.spec_disable_intrs(),
            r.spec_reserved0() == self.spec_reserved0(),
    {
        let x: u16 = if value { 1 } else { 0 };
        proof {
            lemma_fits_u16(1, x);
        }
        PCICommand(set_u16(self.0, 0, 1, x))
    }

    /// Memory space access.
    pub fn mmio(&self) -> (r: bool)
        ensures
            r == self.spec_mmio(),
    {
        get_u16(self.0, 1, 1) == 1
    }

    /// The register with this field set to `value`; the other fields are kept.
    pub fn with_mmio(self, value: bool) -> (r: PCICommand)
        ensures
            r.spec_mmio() == value,
            r.spec_pio() == self.spec_pio(),
            r.spec_bus_master() == self.spec_bus_master(),
            r.spec_special_cycle() == self.spec_special_cycle(),
            r.spec_mem_write_and_invl() == self.spec_mem_write_and_invl(),
            r.spec_vga_palette_snoop() == self.spec_vga_palette_snoop(),
            r.spec_parity_error_resp() == self.spec_parity_error_resp(),
            r.spec_wait_cycle_ctl() == self.spec_wait_cycle_ctl(),
            r.spec_serr() == self.spec_serr(),
            r.spec_fast_back_to_back() == self.spec_fast_back_to_back(),
            r.spec_disable_intrs() == self.spec_disable_intrs(),
            r.spec_reserved0() == self.spec_reserved0(),
    {
        let x: u16 = if value { 1 } else { 0 };
        proof {
            lemma_fits_u16(1, x);
        }
        PCICommand(set_u16(self.0, 1, 1, x))
    }

    /// Bus mastering.
    pub fn bus_master(&self) -> (r: bool)
        ensures
            r == self.spec_bus_master(),
    {
        get_u16(self.0, 2, 1) == 1
    }

    /// The register with this field set to `value`; the other fields are kept.
    pub fn with_bus_master(self, value: bool) -> (r: PCICommand)
        ensures
            r.spec_bus_master() == value,
            r.spec_pio() == self.spec_pio(),
            r.spec_mmio() == self.spec_mmio(),
            r.spec_special_cycle() == self.spec_special_cycle(),
            r.spec_mem_write_and_invl() == self.spec_mem_write_and_invl(),
            r.spec_vga_palette_snoop() == self.spec_vga_palette_snoop(),
            r.spec_parity_error_resp() == self.spec_parity_error_resp(),
            r.spec_wait_cycle_ctl() == self.spec_wait_cycle_ctl(),
            r.spec_serr() == self.spec_serr(),
            r.spec_fast_back_to_back() == self.spec_fast_back_to_back(),
            r.spec_disable_intrs() == self.spec_disable_intrs(),
            r.spec_reserved0() == self.spec_reserved0(),
    {
        let x: u16 = if value { 1 } else { 0 };
        proof {
            lemma_fits_u16(1, x);
        }
        PCICommand(set_u16(self.0, 2, 1, x))
    }

    /// Special cycles.
    pub fn special_cycle(&self) -> (r: bool)
        ensures
            r == self.spec_special_cycle(),
    {
        get_u16(self.0, 3, 1) == 1
    }

    /// The register with this field set to `value`; the other fields are kept.
    pub fn with_special_cycle(self, value: bool) -> (r: PCICommand)
        ensures
            r.spec_special_cycle() == value,
            r.spec_pio() == self.spec_pio(),
            r.spec_mmio() == self.spec_mmio(),
            r.spec_bus_master() == self.spec_bus_master(),
            r.spec_mem_write_and_invl() == self.spec_mem_write_and_invl(),
            r.spec_vga_palette_snoop() == self.spec_vga_palette_snoop(),
            r.spec_parity_error_resp() == self.spec_parity_error_resp(),
            r.spec_wait_cycle_ctl() == self.spec_wait_cycle_ctl(),
            r.spec_serr() == self.spec_serr(),
            r.spec_fast_back_to_back() == self.spec_fast_back_to_back(),
            r.spec_disable_intrs() == self.spec_disable_intrs(),
            r.spec_reserved0() == self.spec_reserved0(),
    {
        let x: u16 = if value { 1 } else { 0 };
        proof {
            lemma_fits_u16(1, x);
        }
        PCICommand(set_u16(self.0, 3, 1, x))
    }

    /// Memory write and invalidate.
    pub fn mem_write_and_invl(&self) -> (r: bool)
        ensures
            r == self.spec_mem_write_and_invl(),
    {
        get_u16(self.0, 4, 1) == 1
    }

    /// The register with this field set to `value`; the other fields are kept.
    pub fn with_mem_write_and_invl(self, value: bool) -> (r: PCICommand)
        ensures
            r.spec_mem_write_and_invl() == value,
            r.spec_pio() == self.spec_pio(),
            r.spec_mmio() == self.spec_mmio(),
            r.spec_bus_master() == self.spec_bus_master(),
            r.spec_special_cycle() == self.spec_special_cycle(),
            r.spec_vga_palette_snoop() == self.spec_vga_palette_snoop(),
            r.spec_parity_error_resp() == self.spec_parity_error_resp(),
            r.spec_wait_cycle_ctl() == self.spec_wait_cycle_ctl(),
            r.spec_serr() == self.spec_serr(),
            r.spec_fast_back_to_back() == self.spec_fast_back_to_back(),
            r.spec_disable_intrs() == self.spec_disable_intrs(),
            r.spec_reserved0() == self.spec_reserved0(),
    {
        let x: u16 = if value { 1 } else { 0 };
        proof {
            lemma_fits_u16(1, x);
        }
        PCICommand(set_u16(self.0, 4, 1, x))
    }

    /// VGA palette snooping.
    pub fn vga_palette_snoop(&self) -> (r: bool)
        ensures
            r == self.spec_vga_palette_snoop(),
    {
        get_u16(self.0, 5, 1) == 1
    }

    /// The register with this field set to `value`; the other fields are kept.
    pub fn with_vga_palette_snoop(self, value: bool) -> (r: PCICommand)
        ensures
            r.spec_vga_palette_snoop() == value,
            r.spec_pio() == self.spec_pio(),
            r.spec_mmio() == self.spec_mmio(),
            r.spec_bus_master() == self.spec_bus_master(),
            r.spec_special_cycle() == self.spec_special_cycle(),
            r.spec_mem_write_and_invl() == self.spec_mem_write_and_invl(),
            r.spec_parity_error_resp() == self.spec_parity_error_resp(),
            r.spec_wait_cycle_ctl() == self.spec_wait_cycle_ctl(),
            r.spec_serr() == self.spec_serr(),
            r.spec_fast_back_to_back() == self.spec_fast_back_to_back(),
            r.spec_disable_intrs() == self.spec_disable_intrs(),
            r.spec_reserved0() == self.spec_reserved0(),
    {
        let x: u16 = if value { 1 } else { 0 };
        proof {
            lemma_fits_u16(1, x);
        }
        PCICommand(set_u16(self.0, 5, 1, x))
    }

    /// Parity error response.
    pub fn parity_error_resp(&self) -> (r: bool)
        ensures
            r == self.spec_parity_error_resp(),
    {
        get_u16(self.0, 6, 1) == 1
    }

    /// The register with this field set to `value`; the other fields are kept.
    pub fn with_parity_error_resp(self, value: bool) -> (r: PCICommand)
        ensures
            r.spec_parity_error_resp() == value,
            r.spec_pio() == self.spec_pio(),
            r.spec_mmio() == self.spec_mmio(),
            r.spec_bus_master() == self.spec_bus_master(),
            r.spec_special_cycle() == self.spec_special_cycle(),
            r.spec_mem_write_and_invl() == self.spec_mem_write_and_invl(),
            r.spec_vga_palette_snoop() == self.spec_vga_palette_snoop(),
            r.spec_wait_cycle_ctl() == self.spec_wait_cycle_ctl(),
            r.spec_serr() == self.spec_serr(),
            r.spec_fast_back_to_back() == self.spec_fast_back_to_back(),
            r.spec_disable_intrs() == self.spec_disable_intrs(),
            r.spec_reserved0() == self.spec_reserved0(),
    {
        let x: u16 = if value { 1 } else { 0 };
        proof {
            lemma_fits_u16(1, x);
        }
        PCICommand(set_u16(self.0, 6, 1, x))
    }

    /// Wait cycle control.
    pub fn wait_cycle_ctl(&self) -> (r: bool)
        ensures
            r == self.spec_wait_cycle_ctl(),
    {
        get_u16(self.0, 7, 1) == 1
    }

    /// The register with this field set to `value`; the other fields are kept.
    pub fn with_wait_cycle_ctl(self, value: bool) -> (r: PCICommand)
        ensures
            r.spec_wait_cycle_ctl() == value,
            r.spec_pio() == self.spec_pio(),
            r.spec_mmio() == self.spec_mmio(),
            r.spec_bus_master() == self.spec_bus_master(),
            r.spec_special_cycle() == self.spec_special_cycle(),
            r.spec_mem_write_and_invl() == self.spec_mem_write_and_invl(),
            r.spec_vga_palette_snoop() == self.spec_vga_palette_snoop(),
            r.spec_parity_error_resp() == self.spec_parity_error_resp(),
            r.spec_serr() == self.spec_serr(),
            r.spec_fast_back_to_back() == self.spec_fast_back_to_back(),
            r.spec_disable_intrs() == self.spec_disable_intrs(),
            r.spec_reserved0() == self.spec_reserved0(),
    {
        let x: u16 = if value { 1 } else { 0 };
        proof {
            lemma_fits_u16(1, x);
        }
        PCICommand(set_u16(self.0, 7, 1, x))
    }

    /// SERR# driver.
    pub fn serr(&self) -> (r: bool)
        ensures
            r == self.spec_serr(),
    {
        get_u16(self.0, 8, 1) == 1
    }

    /// The register with this field set to `value`; the other fields are kept.
    pub fn with_serr(self, value: bool) -> (r: PCICommand)
        ensures
            r.spec_serr() == value,
            r.spec_pio() == self.spec_pio(),
            r.spec_mmio() == self.spec_mmio(),
            r.spec_bus_master() == self.spec_bus_master(),
            r.spec_special_cycle() == self.spec_special_cycle(),
            r.spec_mem_write_and_invl() == self.spec_mem_write_and_invl(),
            r.spec_vga_palette_snoop() == self.spec_vga_palette_snoop(),
            r.spec_parity_error_resp() == self.spec_parity_error_resp(),
            r.spec_wait_cycle_ctl() == self.spec_wait_cycle_ctl(),
            r.spec_fast_back_to_back() == self.spec_fast_back_to_back(),
            r.spec_disable_intrs() == self.spec_disable_intrs(),
            r.spec_reserved0() == self.spec_reserved0(),
    {
        let x: u16 = if value { 1 } else { 0 };
        proof {
            lemma_fits_u16(1, x);
        }
        PCICommand(set_u16(self.0, 8, 1, x))
    }

    /// Fast back-to-back transactions.
    pub fn fast_back_to_back(&self) -> (r: bool)
        ensures
            r == self.spec_fast_back_to_back(),
    {
        get_u16(self.0, 9, 1) == 1
    }

    /// The register with this field set to `value`; the other fields are kept.
    pub fn with_fast_back_to_back(self, value: bool) -> (r: PCICommand)
        ensures
            r.spec_fast_back_to_back() == value,
            r.spec_pio() == self.spec_pio(),
            r.spec_mmio() == self.spec_mmio(),
            r.spec_bus_master() == self.spec_bus_master(),
            r.spec_special_cycle() == self.spec_special_cycle(),
            r.spec_mem_write_and_invl() == self.spec_mem_write_and_invl(),
            r.spec_vga_palette_snoop() == self.spec_vga_palette_snoop(),
            r.spec_parity_error_resp() == self.spec_parity_error_resp(),
            r.spec_wait_cycle_ctl() == self.spec_wait_cycle_ctl(),
            r.spec_serr() == self.spec_serr(),
            r.spec_disable_intrs() == self.spec_disable_intrs(),
            r.spec_reserved0() == self.spec_reserved0(),
    {
        let x: u16 = if value { 1 } else { 0 };
        proof {
            lemma_fits_u16(1, x);
        }
        PCICommand(set_u16(self.0, 9, 1, x))
    }

    /// Interrupts disabled.
    pub fn disable_intrs(&self) -> (r: bool)
        ensures
            r == self.spec_disable_intrs(),
    {
        get_u16(self.0, 10, 1) == 1
    }

    /// The register with this field set to `value`; the other fields are kept.
    pub fn with_disable_intrs(self, value: bool) -> (r: PCICommand)
        ensures
            r.spec_disable_intrs() == value,
            r.spec_pio() == self.spec_pio(),
            r.spec_mmio() == self.spec_mmio(),
            r.spec_bus_master() == self.spec_bus_master(),
            r.spec_special_cycle() == self.spec_special_cycle(),
            r.spec_mem_write_and_invl() == self.spec_mem_write_and_invl(),
            r.spec_vga_palette_snoop() == self.spec_vga_palette_snoop(),
            r.spec_parity_error_resp() == self.spec_parity_error_resp(),
            r.spec_wait_cycle_ctl() == self.spec_wait_cycle_ctl(),
            r.spec_serr() == self.spec_serr(),
            r.spec_fast_back_to_back() == self.spec_fast_back_to_back(),
            r.spec_reserved0() == self.spec_reserved0(),
    {
        let x: u16 = if value { 1 } else { 0 };
        proof {
            lemma_fits_u16(1, x);
        }
        PCICommand(set_u16(self.0, 10, 1, x))
    }

}

/// The value written to the address port 0xCF8 to reach register `off`
/// of a function: enable bit, bus, device, function and the dword offset.
pub open spec fn spec_config_address(addr: PCIAddress, off: u8) -> u32 {
    ((addr.bus as u32) << 16u32) | ((addr.slot as u32) << 11u32) | ((addr.func as u32) << 8u32) | (
    (off as u32) & !3u32) | 0x8000_0000u32
}

/// The address port value for register `off` of a function; the port
/// mechanism only reaches segment 0.
pub fn config_address(addr: PCIAddress, off: u8) -> (r: Option<u32>)
    ensures
        addr.segment != 0 ==> r is None,
        addr.segment == 0 ==> r == Some(spec_config_address(addr, off)),
        addr.segment == 0 && addr.slot < 32 && addr.func < 8 ==> r == Some(
            (0x8000_0000 + addr.bus * 0x10000 + addr.slot * 0x800 + addr.func * 0x100 + off - off % 4) as u32,
        ),
{
    if addr.segment != 0 {
        return None;
    }
    let b = addr.bus as u32;
    let s = addr.slot as u32;
    let f = addr.func as u32;
    let o = off as u32;
    assert(s < 32 && f < 8 ==> (b << 16u32) | (s << 11u32) | (f << 8u32) | (o & !3u32) | 0x8000_0000u32
        == 0x8000_0000 + b * 0x10000 + s * 0x800 + f * 0x100 + o - o % 4) by (bit_vector)
        requires
            b < 256,
            o < 256,
    ;
    Some((b << 16) | (s << 11) | (f << 8) | (o & !3u32) | 0x8000_0000)
}

/// The data port that reaches register `off` once its dword is selected.
pub fn data_port(off: u8) -> (r: u16)
    ensures
        r == 0xCFC + off % 4,
{
    let o = off as u16;
    assert(o & 3u16 == o % 4) by (bit_vector);
    0xCFC + (o & 3)
}

/// Whether a header-type byte marks a multi-function device.
pub fn is_multifunction_header(header_type: u8) -> (r: bool)
    ensures
        r == (header_type >= 0x80),
{
    assert(header_type & 0x80 != 0 <==> header_type >= 0x80) by (bit_vector);
    header_type & 0x80 != 0
}

/// What the enumeration does at a function after reading its header type
/// and vendor id.
#[derive(Debug, Clone, Copy, PartialEq, Eq, Structural)]
pub struct ScanStep {
    /// A function is present here.
    pub report: bool,
    /// Go on with the next function of the device, rather than the next device.
    pub next_function: bool,
}

/// Vendor ids 0xFFFF and 0 mean no function answers. An absent function
/// ends the device unless the header marks it multi-function; a present
/// one is reported and ends the device unless it is multi-function.
pub fn scan_step(header_type: u8, vendor_id: u16) -> (r: ScanStep)
    ensures
        r.report == (vendor_id != 0xFFFF && vendor_id != 0),
        r.next_function == (header_type >= 0x80),
{
    let multifunction = is_multifunction_header(header_type);
    if vendor_id == 0xFFFF || vendor_id == 0x0000 {
        return ScanStep { report: false, next_function: multifunction };
    }
    ScanStep { report: true, next_function: multifunction }
}

/// A request to the PCI service: read or write a register of a function.
#[derive(Debug, Clone, Copy, PartialEq, Eq, Structural)]
pub enum PCIRequest {
    Read8(PCIAddress, u8),
    Read16(PCIAddress, u8),
    Read32(PCIAddress, u8),
    Write8(PCIAddress, u8, u8),
    Write16(PCIAddress, u8, u16),
    Write32(PCIAddress, u8, u32),
}

impl PCIRequest {
    /// The reply the service sends to a read: the value read, little-endian,
    /// in the request's width; writes get no reply.
    pub fn reply(&self, value: u32) -> (r: Option<Vec<u8>>)
        ensures
            match *self {
                PCIRequest::Read8(_, _) => r matches Some(v) && v@ == seq![(value % 0x100) as u8],
                PCIRequest::Read16(_, _) => r matches Some(v) && v@ == seq![(value % 0x100) as u8, ((value / 0x100) % 0x100) as u8],
                PCIRequest::Read32(_, _) => r matches Some(v) && v@ == seq![
                    (value % 0x100) as u8,
                    ((value / 0x100) % 0x100) as u8,
                    ((value / 0x10000) % 0x100) as u8,
                    (value / 0x1000000) as u8,
                ],
                _ => r is None,
            },
    {
        match *self {
            PCIRequest::Read8(_, _) => {
                let mut v: Vec<u8> = Vec::new();
                v.push((value % 0x100) as u8);
                assert(v@ =~= seq![(value % 0x100) as u8]);
                Some(v)
            },
            PCIRequest::Read16(_, _) => {
                let mut v: Vec<u8> = Vec::new();
                v.push((value % 0x100) as u8);
                v.push(((value / 0x100) % 0x100) as u8);
                assert(v@ =~= seq![(value % 0x100) as u8, ((value / 0x100) % 0x100) as u8]);
                Some(v)
            },
            PCIRequest::Read32(_, _) => {
                let mut v: Vec<u8> = Vec::new();
                v.push((value % 0x100) as u8);
                v.push(((value / 0x100) % 0x100) as u8);
                v.push(((value / 0x10000) % 0x100) as u8);
                v.push((value / 0x1000000) as u8);
                assert(v@ =~= seq![
                    (value % 0x100) as u8,
                    ((value / 0x100) % 0x100) as u8,
                    ((value / 0x10000) % 0x100) as u8,
                    (value / 0x1000000) as u8,
                ]);
                Some(v)
            },
            _ => None,
        }
    }
}

/// A PCI function reached through the PCI service process `pid`.
#[derive(Debug, Clone, Copy, PartialEq, Eq, Structural)]
pub struct PCIDevice {
    pub pid: u64,
    pub addr: PCIAddress,
}

impl PCIDevice {
    /// The function at `addr`, served by process `pid`.
    pub fn new(pid: u64, addr: PCIAddress) -> (r: PCIDevice)
        ensures
            r.pid == pid,
            r.addr == addr,
    {
        PCIDevice { pid, addr }
    }

    /// The request that reads the header type.
    pub fn header_type_request(&self) -> (r: PCIRequest)
        ensures
            r == PCIRequest::Read8(self.addr, 0x0E),
    {
        PCIRequest::Read8(self.addr, PCICfgOffset::HeaderType.offset())
    }
}

/// The command register value the audio driver writes: I/O, memory and
/// bus mastering on, interrupts not disabled, other bits as read.
pub fn enable_device(cmd: PCICommand) -> (r: PCICommand)
    ensures
        r.spec_pio(),
        r.spec_mmio(),
        r.spec_bus_master(),
        !r.spec_disable_intrs(),
        r.spec_special_cycle() == cmd.spec_special_cycle(),
        r.spec_mem_write_and_invl() == cmd.spec_mem_write_and_invl(),
        r.spec_vga_palette_snoop() == cmd.spec_vga_palette_snoop(),
        r.spec_parity_error_resp() == cmd.spec_parity_error_resp(),
        r.spec_wait_cycle_ctl() == cmd.spec_wait_cycle_ctl(),
        r.spec_serr() == cmd.spec_serr(),
        r.spec_fast_back_to_back() == cmd.spec_fast_back_to_back(),
        r.spec_reserved0() == cmd.spec_reserved0(),
{
    cmd.with_pio(true).with_mmio(true).with_bus_master(true).with_disable_intrs(false)
}

} // verus!
