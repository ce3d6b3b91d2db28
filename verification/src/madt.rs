//! The multiple APIC description table (MADT): its interrupt-controller
//! records and what the kernel keeps of them.

use vstd::prelude::*;
use crate::acpi::{le16, le32, le64, read_u16, read_u32, read_u64};
use crate::pic::{PortWrite, ProgrammableIntrController};
use crate::pmm::PHYS_VIRT_OFFSET;

verus! {

/// The two bytes every interrupt-controller record starts with.
#[derive(Debug, Clone, Copy, PartialEq, Eq, Structural)]
pub struct ICHeader {
    pub type_: u8,
    pub length: u8,
}

impl ICHeader {
    /// The record's length in bytes.
    pub fn length(&self) -> (r: usize)
        ensures
            r == self.length,
    {
        self.length as usize
    }
}

/// A processor's local APIC (record type 0).
#[derive(Debug, Clone, Copy, PartialEq, Eq, Structural)]
pub struct ProcessorLocalAPIC {
    pub acpi_uid: u8,
    pub apic_id: u8,
    pub flags: u32,
}

/// An I/O APIC (record type 1).
#[derive(Debug, Clone, Copy, PartialEq, Eq, Structural)]
pub struct IoApic {
    pub id: u8,
    pub address: u32,
    pub gsi_base: u32,
}

/// An interrupt source override (record type 2).
#[derive(Debug, Clone, Copy, PartialEq, Eq, Structural)]
pub struct InterruptSourceOverride {
    pub bus: u8,
    pub irq: u8,
    pub gsi: u32,
    pub flags: u16,
}

/// A non-maskable interrupt source (record type 3).
#[derive(Debug, Clone, Copy, PartialEq, Eq, Structural)]
pub struct NMISource {
    pub flags: u16,
    pub gsi: u32,
}

/// The local APIC pin an NMI arrives on (record type 4).
#[derive(Debug, Clone, Copy, PartialEq, Eq, Structural)]
pub struct LocalAPICNMI {
    pub acpi_uid: u8,
    pub flags: u16,
    pub lint: u8,
}

/// The 64-bit address of the local APICs (record type 5).
#[derive(Debug, Clone, Copy, PartialEq, Eq, Structural)]
pub struct LocalAPICAddrOverride {
    pub addr: u64,
}

/// An interrupt-controller record of the MADT.
#[derive(Debug, Clone, Copy, PartialEq, Eq, Structural)]
pub enum InterruptController {
    ProcessorLocalAPIC(ProcessorLocalAPIC),
    InputOutputAPIC(IoApic),
    InterruptSourceOverride(InterruptSourceOverride),
    NmiSrc(NMISource),
    LApicNmi(LocalAPICNMI),
    LApicAddrOverride(LocalAPICAddrOverride),
    IoSapic(ICHeader),
    LocalSapic(ICHeader),
    PlatformInterruptSrcs(ICHeader),
    ProcessorLocalx2APIC(ICHeader),
    Localx2APICNmi(ICHeader),
    GicCpu(ICHeader),
    GicDist(ICHeader),
    GicMsiFrame(ICHeader),
    GicRedist(ICHeader),
    GicIts(ICHeader),
    MpWakeup(ICHeader),
    Reserved(ICHeader),
    OemReserved(ICHeader),
}

/// Where the records end: at the table's declared length, or at the end of
/// the bytes when those are fewer.
pub open spec fn records_end(b: Seq<u8>) -> int {
    if le32(b, 4) < b.len() {
        le32(b, 4)
    } else {
        b.len() as int
    }
}

/// The offsets of the records from `off` on: each record is at least two
/// bytes long and ends by `end`; the walk stops at the first that is not.
pub open spec fn record_offsets(b: Seq<u8>, off: int, end: int) -> Seq<int>
    decreases end - off,
{
    if 0 <= off && off + 2 <= end && end <= b.len() && b[off + 1] >= 2 && off + b[off + 1] <= end {
        seq![off] + record_offsets(b, off + b[off + 1], end)
    } else {
        Seq::empty()
    }
}

/// The record at `o`. A record of types 0 to 5 shorter than its layout
/// is reported by its header alone, as `Reserved`.
pub open spec fn classify(b: Seq<u8>, o: int) -> InterruptController {
    let t = b[o];
    let l = b[o + 1];
    let h = ICHeader { type_: t, length: l };
    if t == 0 && l >= 8 {
        InterruptController::ProcessorLocalAPIC(
            ProcessorLocalAPIC { acpi_uid: b[o + 2], apic_id: b[o + 3], flags: le32(b, o + 4) as u32 },
        )
    } else if t == 1 && l >= 12 {
        InterruptController::InputOutputAPIC(
            IoApic { id: b[o + 2], address: le32(b, o + 4) as u32, gsi_base: le32(b, o + 8) as u32 },
        )
    } else if t == 2 && l >= 10 {
        InterruptController::InterruptSourceOverride(
            InterruptSourceOverride {
                bus: b[o + 2],
                irq: b[o + 3],
                gsi: le32(b, o + 4) as u32,
                flags: le16(b, o + 8) as u16,
            },
        )
    } else if t == 3 && l >= 8 {
        InterruptController::NmiSrc(NMISource { flags: le16(b, o + 2) as u16, gsi: le32(b, o + 4) as u32 })
    } else if t == 4 && l >= 6 {
        InterruptController::LApicNmi(
            LocalAPICNMI { acpi_uid: b[o + 2], flags: le16(b, o + 3) as u16, lint: b[o + 5] },
        )
    } else if t == 5 && l >= 12 {
        InterruptController::LApicAddrOverride(LocalAPICAddrOverride { addr: le64(b, o + 4) as u64 })
    } else if t == 6 {
        InterruptController::IoSapic(h)
    } else if t == 7 {
        InterruptController::LocalSapic(h)
    } else if t == 8 {
        InterruptController::PlatformInterruptSrcs(h)
    } else if t == 9 {
        InterruptController::ProcessorLocalx2APIC(h)
    } else if t == 10 {
        InterruptController::Localx2APICNmi(h)
    } else if t == 11 {
        InterruptController::GicCpu(h)
    } else if t == 12 {
        InterruptController::GicDist(h)
    } else if t == 13 {
        InterruptController::GicMsiFrame(h)
    } else if t == 14 {
        InterruptController::GicRedist(h)
    } else if t == 15 {
        InterruptController::GicIts(h)
    } else if t == 16 {
        InterruptController::MpWakeup(h)
    } else if t < 0x80 {
        InterruptController::Reserved(h)
    } else {
        InterruptController::OemReserved(h)
    }
}

/// The records of a MADT, in order.
pub open spec fn spec_records(b: Seq<u8>) -> Seq<InterruptController> {
    record_offsets(b, 44, records_end(b)).map_values(|o: int| classify(b, o))
}

/// Decodes the record at `o`.
fn classify_at(b: &[u8], o: usize) -> (r: InterruptController)
    requires
        o + 2 <= b@.len(),
        o + b@[o as int + 1] <= b@.len(),
    ensures
        r == classify(b@, o as int),
{
    let t = b[o];
    let l = b[o + 1];
    let h = ICHeader { type_: t, length: l };
    if t == 0 && l >= 8 {
        InterruptController::ProcessorLocalAPIC(
            ProcessorLocalAPIC { acpi_uid: b[o + 2], apic_id: b[o + 3], flags: read_u32(b, o + 4) },
        )
    } else if t == 1 && l >= 12 {
        InterruptController::InputOutputAPIC(
            IoApic { id: b[o + 2], address: read_u32(b, o + 4), gsi_base: read_u32(b, o + 8) },
        )
    } else if t == 2 && l >= 10 {
        InterruptController::InterruptSourceOverride(
            InterruptSourceOverride {
                bus: b[o + 2],
                irq: b[o + 3],
                gsi: read_u32(b, o + 4),
                flags: read_u16(b, o + 8),
            },
        )
    } else if t == 3 && l >= 8 {
        InterruptController::NmiSrc(NMISource { flags: read_u16(b, o + 2), gsi: read_u32(b, o + 4) })
    } else if t == 4 && l >= 6 {
        InterruptController::LApicNmi(
            LocalAPICNMI { acpi_uid: b[o + 2], flags: read_u16(b, o + 3), lint: b[o + 5] },
        )
    } else if t == 5 && l >= 12 {
        InterruptController::LApicAddrOverride(LocalAPICAddrOverride { addr: read_u64(b, o + 4) })
    } else if t == 6 {
        InterruptController::IoSapic(h)
    } else if t == 7 {
        InterruptController::LocalSapic(h)
    } else if t == 8 {
        InterruptController::PlatformInterruptSrcs(h)
    } else if t == 9 {
        InterruptController::ProcessorLocalx2APIC(h)
    } else if t == 10 {
        InterruptController::Localx2APICNmi(h)
    } else if t == 11 {
        InterruptController::GicCpu(h)
    } else if t == 12 {
        InterruptController::GicDist(h)
    } else if t == 13 {
        InterruptController::GicMsiFrame(h)
    } else if t == 14 {
        InterruptController::GicRedist(h)
    } else if t == 15 {
        InterruptController::GicIts(h)
    } else if t == 16 {
        InterruptController::MpWakeup(h)
    } else if t < 0x80 {
        InterruptController::Reserved(h)
    } else {
        InterruptController::OemReserved(h)
    }
}

/// The records of a MADT whose bytes are `table`, in order; the records
/// start after the 44-byte table header.
pub fn records(table: &[u8]) -> (r: Vec<InterruptController>)
    requires
        table@.len() >= 44,
    ensures
        r@ == spec_records(table@),
{
    let len = read_u32(table, 4) as usize;
    let end = if len < table.len() { len } else { table.len() };
    let ghost all = record_offsets(table@, 44, end as int);
    let ghost mut done: Seq<int> = Seq::empty();
    let mut out: Vec<InterruptController> = Vec::new();
    let mut off: usize = 44;
    while off <= end && end - off >= 2 && table[off + 1] >= 2 && (table[off + 1] as usize) <= end - off
        invariant
            end <= table@.len(),
            end == records_end(table@),
            44 <= off,
            done + record_offsets(table@, off as int, end as int) == all,
            all == record_offsets(table@, 44, end as int),
            out@ == done.map_values(|o: int| classify(table@, o)),
        decreases end - off,
    {
        let l = table[off + 1] as usize;
        out.push(classify_at(table, off));
        proof {
            let rest = record_offsets(table@, off + l, end as int);
            assert(record_offsets(table@, off as int, end as int) == seq![off as int] + rest);
            assert(done.push(off as int) + rest =~= done + (seq![off as int] + rest));
            done = done.push(off as int);
            assert(out@ =~= done.map_values(|o: int| classify(table@, o)));
        }
        off = off + l;
    }
    proof {
        assert(record_offsets(table@, off as int, end as int) =~= Seq::<int>::empty());
        assert(done =~= all);
    }
    out
}

/// Whether the system also has dual 8259 PICs (MADT flag bit 0), which
/// the kernel must remap and mask.
pub fn pcat_compat(table: &[u8]) -> (r: bool)
    requires
        table@.len() >= 44,
    ensures
        r == (le32(table@, 40) % 2 == 1),
{
    read_u32(table, 40) % 2 == 1
}

/// The local APICs among the records.
pub open spec fn lapics_in(cs: Seq<InterruptController>) -> Seq<ProcessorLocalAPIC>
    decreases cs.len(),
{
    if cs.len() == 0 {
        Seq::empty()
    } else {
        lapics_in(cs.drop_last()) + match cs.last() {
            InterruptController::ProcessorLocalAPIC(v) => seq![v],
            _ => Seq::empty(),
        }
    }
}

/// The I/O APICs among the records.
pub open spec fn ioapics_in(cs: Seq<InterruptController>) -> Seq<IoApic>
    decreases cs.len(),
{
    if cs.len() == 0 {
        Seq::empty()
    } else {
        ioapics_in(cs.drop_last()) + match cs.last() {
            InterruptController::InputOutputAPIC(v) => seq![v],
            _ => Seq::empty(),
        }
    }
}

/// The interrupt source overrides among the records.
pub open spec fn isos_in(cs: Seq<InterruptController>) -> Seq<InterruptSourceOverride>
    decreases cs.len(),
{
    if cs.len() == 0 {
        Seq::empty()
    } else {
        isos_in(cs.drop_last()) + match cs.last() {
            InterruptController::InterruptSourceOverride(v) => seq![v],
            _ => Seq::empty(),
        }
    }
}

/// The local APIC address: that of the last override record, else `init`.
pub open spec fn lapic_addr_in(cs: Seq<InterruptController>, init: u64) -> u64
    decreases cs.len(),
{
    if cs.len() == 0 {
        init
    } else {
        match cs.last() {
            InterruptController::LApicAddrOverride(a) => a.addr,
            _ => lapic_addr_in(cs.drop_last(), init),
        }
    }
}

/// The local APIC address the table header gives; 0 there means the
/// architectural default 0xFEE0_0000.
pub open spec fn header_lapic_addr(b: Seq<u8>) -> u64 {
    if le32(b, 36) == 0 {
        0xFEE0_0000
    } else {
        le32(b, 36) as u64
    }
}

/// The port writes the MADT asks of the legacy 8259 pair before the APICs
/// are used: when the table says the PC/AT-compatible pair is present
/// (bit 0 of its flags), the pair is remapped and all its lines masked;
/// otherwise no port is written.
pub fn disable_legacy_pic(table: &[u8]) -> (r: Vec<PortWrite>)
    requires
        table@.len() >= 44,
    ensures
        r@ == if le32(table@, 40) % 2 == 1 {
            (ProgrammableIntrController {
                master_cmd: 0x20,
                master_data: 0x21,
                slave_cmd: 0xA0,
                slave_data: 0xA1,
            }).spec_remap_and_disable()
        } else {
            Seq::<PortWrite>::empty()
        },
{
    if pcat_compat(table) {
        ProgrammableIntrController::new().remap_and_disable()
    } else {
        Vec::new()
    }
}

/// What the kernel keeps of the MADT.
#[derive(Debug, Clone)]
pub struct MADTData {
    pub proc_lapics: Vec<ProcessorLocalAPIC>,
    pub ioapics: Vec<IoApic>,
    pub isos: Vec<InterruptSourceOverride>,
    pub lapic_addr: u64,
}

impl MADTData {
    /// Collects the local APICs, I/O APICs and source overrides of the
    /// table, and the local APIC address; other records are ignored.
    pub fn new(table: &[u8]) -> (r: MADTData)
        requires
            table@.len() >= 44,
        ensures
            r.proc_lapics@ == lapics_in(spec_records(table@)),
            r.ioapics@ == ioapics_in(spec_records(table@)),
            r.isos@ == isos_in(spec_records(table@)),
            r.lapic_addr == lapic_addr_in(spec_records(table@), header_lapic_addr(table@)),
    {
        let local = read_u32(table, 36) as u64;
        let init: u64 = if local == 0 { 0xFEE0_0000 } else { local };
        let cs = records(table);
        let mut proc_lapics: Vec<ProcessorLocalAPIC> = Vec::new();
        let mut ioapics: Vec<IoApic> = Vec::new();
        let mut isos: Vec<InterruptSourceOverride> = Vec::new();
        let mut lapic_addr = init;
        let mut i: usize = 0;
        while i < cs.len()
            invariant
                i <= cs@.len(),
                proc_lapics@ == lapics_in(cs@.take(i as int)),
                ioapics@ == ioapics_in(cs@.take(i as int)),
                isos@ == isos_in(cs@.take(i as int)),
                lapic_addr == lapic_addr_in(cs@.take(i as int), init),
            decreases cs@.len() - i,
        {
            proof {
                assert(cs@.take(i + 1).drop_last() =~= cs@.take(i as int));
                assert(cs@.take(i + 1).last() == cs@[i as int]);
            }
            match cs[i] {
                InterruptController::ProcessorLocalAPIC(v) => {
                    proc_lapics.push(v);
                },
                InterruptController::InputOutputAPIC(v) => {
                    ioapics.push(v);
                },
                InterruptController::InterruptSourceOverride(v) => {
                    isos.push(v);
                },
                InterruptController::LApicAddrOverride(a) => {
                    lapic_addr = a.addr;
                },
                _ => {},
            }
            proof {
                let t = cs@.take(i + 1);
                assert(proc_lapics@ =~= lapics_in(t));
                assert(ioapics@ =~= ioapics_in(t));
                assert(isos@ =~= isos_in(t));
            }
            i = i + 1;
        }
        proof {
            assert(cs@.take(cs@.len() as int) =~= cs@);
        }
        MADTData { proc_lapics, ioapics, isos, lapic_addr }
    }
}

/// A mapping of device registers into the kernel's window onto physical
/// memory: `pages` pages at `virt` onto `phys`, present and writable.
#[derive(Debug, Clone, Copy, PartialEq, Eq, Structural)]
pub struct MmioMapping {
    pub virt: u64,
    pub phys: u64,
    pub pages: u64,
}

/// The mapping of an I/O APIC's registers: its page, seen at the
/// kernel's window onto physical memory.
pub open spec fn ioapic_mapping(a: IoApic) -> MmioMapping {
    MmioMapping { virt: (a.address + PHYS_VIRT_OFFSET) as u64, phys: a.address as u64, pages: 1 }
}

/// What reading the MADT leaves for the machine, beside what it records:
/// the port writes that quiet the legacy 8259 pair, and the mappings of the
/// I/O APICs' registers, in the order the table lists the I/O APICs.
#[derive(Debug, Clone)]
pub struct MadtSetup {
    pub pic_writes: Vec<PortWrite>,
    pub mmio: Vec<MmioMapping>,
    pub data: MADTData,
}

/// Reads the MADT as the kernel does when it brings up the APICs: the
/// legacy 8259 pair is remapped and masked exactly when the table's
/// PC/AT-compatible flag is set, every I/O APIC's register page is mapped,
/// and the interrupt controllers are recorded.
pub fn madt_setup(table: &[u8]) -> (r: MadtSetup)
    requires
        table@.len() >= 44,
    ensures
        r.pic_writes@ == if le32(table@, 40) % 2 == 1 {
            (ProgrammableIntrController {
                master_cmd: 0x20,
                master_data: 0x21,
                slave_cmd: 0xA0,
                slave_data: 0xA1,
            }).spec_remap_and_disable()
        } else {
            Seq::<PortWrite>::empty()
        },
        r.mmio@ == ioapics_in(spec_records(table@)).map_values(|a: IoApic| ioapic_mapping(a)),
        r.data.proc_lapics@ == lapics_in(spec_records(table@)),
        r.data.ioapics@ == ioapics_in(spec_records(table@)),
        r.data.isos@ == isos_in(spec_records(table@)),
        r.data.lapic_addr == lapic_addr_in(spec_records(table@), header_lapic_addr(table@)),
{
    let pic_writes = disable_legacy_pic(table);
    let data = MADTData::new(table);
    let mut mmio: Vec<MmioMapping> = Vec::new();
    let mut i: usize = 0;
    while i < data.ioapics.len()
        invariant
            i <= data.ioapics@.len(),
            mmio@ == data.ioapics@.take(i as int).map_values(|a: IoApic| ioapic_mapping(a)),
        decreases data.ioapics@.len() - i,
    {
        let a = data.ioapics[i];
        mmio.push(MmioMapping { virt: a.address as u64 + PHYS_VIRT_OFFSET, phys: a.address as u64, pages: 1 });
        proof {
            assert(data.ioapics@.take(i + 1) =~= data.ioapics@.take(i as int).push(a));
            assert(mmio@ =~= data.ioapics@.take(i + 1).map_values(|a: IoApic| ioapic_mapping(a)));
        }
        i = i + 1;
    }
    proof {
        assert(data.ioapics@.take(data.ioapics@.len() as int) =~= data.ioapics@);
    }
    MadtSetup { pic_writes, mmio, data }
}

/// The 32-bit little-endian number in bytes `b[o..o + 4]`, written out.
pub open spec fn bytes_u32(b: Seq<u8>, o: int) -> int {
    b[o] + 0x100 * b[o + 1] + 0x1_0000 * b[o + 2] + 0x100_0000 * b[o + 3]
}

/// An interrupt source override record (type 2, at least 10 bytes) is read
/// as the ACPI layout places its fields: the bus at byte 2, the source IRQ
/// at byte 3, the global system interrupt in bytes 4 to 7 and the flags in
/// bytes 8 and 9, least significant byte first.
pub proof fn law_override_record_fields(b: Seq<u8>, o: int)
    requires
        0 <= o,
        o + 10 <= b.len(),
        b[o] == 2,
        b[o + 1] >= 10,
    ensures
        classify(b, o) is InterruptSourceOverride,
        classify(b, o)->InterruptSourceOverride_0.bus == b[o + 2],
        classify(b, o)->InterruptSourceOverride_0.irq == b[o + 3],
        classify(b, o)->InterruptSourceOverride_0.gsi == bytes_u32(b, o + 4),
        classify(b, o)->InterruptSourceOverride_0.flags == b[o + 8] + 0x100 * b[o + 9],
{
    assert(le32(b, o + 4) < 0x1_0000_0000);
    assert(le16(b, o + 8) < 0x1_0000);
}

/// A local APIC record (type 0, at least 8 bytes) is read as the ACPI
/// layout places its fields: the processor's UID at byte 2, its APIC id at
/// byte 3, the flags in bytes 4 to 7.
pub proof fn law_local_apic_record_fields(b: Seq<u8>, o: int)
    requires
        0 <= o,
        o + 8 <= b.len(),
        b[o] == 0,
        b[o + 1] >= 8,
    ensures
        classify(b, o) is ProcessorLocalAPIC,
        classify(b, o)->ProcessorLocalAPIC_0.acpi_uid == b[o + 2],
        classify(b, o)->ProcessorLocalAPIC_0.apic_id == b[o + 3],
        classify(b, o)->ProcessorLocalAPIC_0.flags == bytes_u32(b, o + 4),
{
    assert(le32(b, o + 4) < 0x1_0000_0000);
}

/// An I/O APIC record (type 1, at least 12 bytes) is read as the ACPI
/// layout places its fields: the id at byte 2, the register address in
/// bytes 4 to 7, the first global system interrupt in bytes 8 to 11.
pub proof fn law_ioapic_record_fields(b: Seq<u8>, o: int)
    requires
        0 <= o,
        o + 12 <= b.len(),
        b[o] == 1,
        b[o + 1] >= 12,
    ensures
        classify(b, o) is InputOutputAPIC,
        classify(b, o)->InputOutputAPIC_0.id == b[o + 2],
        classify(b, o)->InputOutputAPIC_0.address == bytes_u32(b, o + 4),
        classify(b, o)->InputOutputAPIC_0.gsi_base == bytes_u32(b, o + 8),
{
    assert(le32(b, o + 4) < 0x1_0000_0000);
    assert(le32(b, o + 8) < 0x1_0000_0000);
}

/// The overrides, local APICs and I/O APICs the kernel keeps are exactly
/// those among the records: a value is kept if and only if a record of
/// that kind holds it.
pub proof fn law_kept_controllers_are_the_records(cs: Seq<InterruptController>)
    ensures
        forall|v: InterruptSourceOverride|
            #[trigger] isos_in(cs).contains(v) <==> cs.contains(InterruptController::InterruptSourceOverride(v)),
        forall|v: ProcessorLocalAPIC|
            #[trigger] lapics_in(cs).contains(v) <==> cs.contains(InterruptController::ProcessorLocalAPIC(v)),
        forall|v: IoApic| #[trigger] ioapics_in(cs).contains(v) <==> cs.contains(InterruptController::InputOutputAPIC(v)),
    decreases cs.len(),
{
    if cs.len() > 0 {
        let rest = cs.drop_last();
        law_kept_controllers_are_the_records(rest);
        assert(cs =~= rest.push(cs.last()));
        assert forall|v: InterruptSourceOverride|
            #[trigger] isos_in(cs).contains(v) <==> cs.contains(InterruptController::InterruptSourceOverride(v)) by {
            let tail: Seq<InterruptSourceOverride> = match cs.last() {
                InterruptController::InterruptSourceOverride(w) => seq![w],
                _ => Seq::empty(),
            };
            assert(isos_in(cs) == isos_in(rest) + tail);
            if cs.contains(InterruptController::InterruptSourceOverride(v)) {
                let k = choose|k: int| 0 <= k < cs.len() && cs[k] == InterruptController::InterruptSourceOverride(v);
                if k < cs.len() - 1 {
                    assert(rest[k] == cs[k]);
                    assert(rest.contains(InterruptController::InterruptSourceOverride(v)));
                    assert(isos_in(rest).contains(v));
                    let j = choose|j: int| 0 <= j < isos_in(rest).len() && isos_in(rest)[j] == v;
                    assert((isos_in(rest) + tail)[j] == v);
                } else {
                    assert((isos_in(rest) + tail)[isos_in(rest).len() as int] == v);
                }
            }
            if isos_in(cs).contains(v) {
                let j = choose|j: int| 0 <= j < isos_in(cs).len() && isos_in(cs)[j] == v;
                if j < isos_in(rest).len() {
                    assert(isos_in(rest)[j] == v);
                    assert(isos_in(rest).contains(v));
                    assert(rest.contains(InterruptController::InterruptSourceOverride(v)));
                    let k = choose|k: int| 0 <= k < rest.len() && rest[k] == InterruptController::InterruptSourceOverride(v);
                    assert(cs[k] == rest[k]);
                } else {
                    assert(cs[cs.len() - 1] == cs.last());
                }
            }
        }
        assert forall|v: ProcessorLocalAPIC|
            #[trigger] lapics_in(cs).contains(v) <==> cs.contains(InterruptController::ProcessorLocalAPIC(v)) by {
            let tail: Seq<ProcessorLocalAPIC> = match cs.last() {
                InterruptController::ProcessorLocalAPIC(w) => seq![w],
                _ => Seq::empty(),
            };
            assert(lapics_in(cs) == lapics_in(rest) + tail);
            if cs.contains(InterruptController::ProcessorLocalAPIC(v)) {
                let k = choose|k: int| 0 <= k < cs.len() && cs[k] == InterruptController::ProcessorLocalAPIC(v);
                if k < cs.len() - 1 {
                    assert(rest[k] == cs[k]);
                    assert(rest.contains(InterruptController::ProcessorLocalAPIC(v)));
                    assert(lapics_in(rest).contains(v));
                    let j = choose|j: int| 0 <= j < lapics_in(rest).len() && lapics_in(rest)[j] == v;
                    assert((lapics_in(rest) + tail)[j] == v);
                } else {
                    assert((lapics_in(rest) + tail)[lapics_in(rest).len() as int] == v);
                }
            }
            if lapics_in(cs).contains(v) {
                let j = choose|j: int| 0 <= j < lapics_in(cs).len() && lapics_in(cs)[j] == v;
                if j < lapics_in(rest).len() {
                    assert(lapics_in(rest)[j] == v);
                    assert(lapics_in(rest).contains(v));
                    assert(rest.contains(InterruptController::ProcessorLocalAPIC(v)));
                    let k = choose|k: int| 0 <= k < rest.len() && rest[k] == InterruptController::ProcessorLocalAPIC(v);
                    assert(cs[k] == rest[k]);
                } else {
                    assert(cs[cs.len() - 1] == cs.last());
                }
            }
        }
        assert forall|v: IoApic|
            #[trigger] ioapics_in(cs).contains(v) <==> cs.contains(InterruptController::InputOutputAPIC(v)) by {
            let tail: Seq<IoApic> = match cs.last() {
                InterruptController::InputOutputAPIC(w) => seq![w],
                _ => Seq::empty(),
            };
            assert(ioapics_in(cs) == ioapics_in(rest) + tail);
            if cs.contains(InterruptController::InputOutputAPIC(v)) {
                let k = choose|k: int| 0 <= k < cs.len() && cs[k] == InterruptController::InputOutputAPIC(v);
                if k < cs.len() - 1 {
                    assert(rest[k] == cs[k]);
                    assert(rest.contains(InterruptController::InputOutputAPIC(v)));
                    assert(ioapics_in(rest).contains(v));
                    let j = choose|j: int| 0 <= j < ioapics_in(rest).len() && ioapics_in(rest)[j] == v;
                    assert((ioapics_in(rest) + tail)[j] == v);
                } else {
                    assert((ioapics_in(rest) + tail)[ioapics_in(rest).len() as int] == v);
                }
            }
            if ioapics_in(cs).contains(v) {
                let j = choose|j: int| 0 <= j < ioapics_in(cs).len() && ioapics_in(cs)[j] == v;
                if j < ioapics_in(rest).len() {
                    assert(ioapics_in(rest)[j] == v);
                    assert(ioapics_in(rest).contains(v));
                    assert(rest.contains(InterruptController::InputOutputAPIC(v)));
                    let k = choose|k: int| 0 <= k < rest.len() && rest[k] == InterruptController::InputOutputAPIC(v);
                    assert(cs[k] == rest[k]);
                } else {
                    assert(cs[cs.len() - 1] == cs.last());
                }
            }
        }
    }
}

} // verus!
