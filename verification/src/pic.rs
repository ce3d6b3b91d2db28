//! The legacy 8259 interrupt controller pair, which the kernel remaps and
//! masks before it uses the APICs.

use vstd::prelude::*;

verus! {

/// Initialisation command word 1: ICW4 follows.
pub const ICW1_ICW4: u8 = 0x01;

/// Initialisation command word 1: start initialisation.
pub const ICW1_INIT: u8 = 0x10;

/// Initialisation command word 4: 8086 mode.
pub const ICW4_8086: u8 = 0x01;

/// Operation command word 3: the next read of the command port gives the
/// in-service register.
pub const OCW3_READ_ISR: u8 = 0x0B;

/// The check behind the kernel's IRQ 7 handler: IRQ 7 also arrives
/// spuriously, so the handler writes `OCW3_READ_ISR` to the master's
/// command port and reads back the in-service register `isr`. Only when
/// line 7 is in service was the interrupt real, and only then is it
/// acknowledged.
pub fn irq7_quirk(isr: u8) -> (acknowledge: bool)
    ensures
        acknowledge == (isr >= 0x80),
{
    let in_service = isr & 0x80 != 0;
    assert(in_service == (isr >= 0x80)) by (bit_vector)
        requires
            in_service == (isr & 0x80 != 0),
    ;
    in_service
}

/// A byte written to an I/O port.
#[derive(Debug, Clone, Copy, PartialEq, Eq, Structural)]
pub struct PortWrite {
    pub port: u16,
    pub value: u8,
}

/// The command and data ports of the two controllers.
#[derive(Debug, Clone, Copy, PartialEq, Eq, Structural)]
pub struct ProgrammableIntrController {
    pub master_cmd: u16,
    pub master_data: u16,
    pub slave_cmd: u16,
    pub slave_data: u16,
}

impl ProgrammableIntrController {
    /// The controllers at their standard ports.
    pub fn new() -> (r: ProgrammableIntrController)
        ensures
            r == (ProgrammableIntrController {
                master_cmd: 0x20,
                master_data: 0x21,
                slave_cmd: 0xA0,
                slave_data: 0xA1,
            }),
    {
        ProgrammableIntrController { master_cmd: 0x20, master_data: 0x21, slave_cmd: 0xA0, slave_data: 0xA1 }
    }

    /// The writes, in order, that start both controllers, give the master
    /// the vector base 32 and the slave on line 2, set 8086 mode, and
    /// mask every line.
    pub open spec fn spec_remap_and_disable(self) -> Seq<PortWrite> {
        seq![
            PortWrite { port: self.master_cmd, value: 0x11 },
            PortWrite { port: self.slave_cmd, value: 0x11 },
            PortWrite { port: self.master_data, value: 32 },
            PortWrite { port: self.master_data, value: 4 },
            PortWrite { port: self.slave_data, value: 2 },
            PortWrite { port: self.master_data, value: 1 },
            PortWrite { port: self.slave_data, value: 1 },
            PortWrite { port: self.master_data, value: 0xFF },
            PortWrite { port: self.slave_data, value: 0xFF },
        ]
    }

    /// The port writes that remap the controllers and mask all their lines.
    pub fn remap_and_disable(&self) -> (r: Vec<PortWrite>)
        ensures
            r@ == self.spec_remap_and_disable(),
    {
        let mut w: Vec<PortWrite> = Vec::new();
        w.push(PortWrite { port: self.master_cmd, value: ICW1_INIT | ICW1_ICW4 });
        w.push(PortWrite { port: self.slave_cmd, value: ICW1_INIT | ICW1_ICW4 });
        w.push(PortWrite { port: self.master_data, value: 32 });
        w.push(PortWrite { port: self.master_data, value: 4 });
        w.push(PortWrite { port: self.slave_data, value: 2 });
        w.push(PortWrite { port: self.master_data, value: ICW4_8086 });
        w.push(PortWrite { port: self.slave_data, value: ICW4_8086 });
        w.push(PortWrite { port: self.master_data, value: 0xFF });
        w.push(PortWrite { port: self.slave_data, value: 0xFF });
        assert(ICW1_INIT | ICW1_ICW4 == 0x11u8) by (bit_vector);
        assert(w@ =~= self.spec_remap_and_disable());
        w
    }
}

} // verus!
