use firework::acpi::{
    checksum_ok, read_u16, read_u32, read_u64, ACPIState, RSDTType, RSDTTypeIter,
    RootSystemDescPtr, SDTHeader, Xsdt,
};
use firework::madt::{
    pcat_compat, records, ICHeader, InterruptController, IoApic, MADTData, ProcessorLocalAPIC,
};

/// A table with the given signature and body whose checksum byte makes it sum to 0.
fn table(sig: &[u8; 4], body: &[u8]) -> Vec<u8> {
    let mut t = Vec::new();
    t.extend_from_slice(sig);
    t.extend_from_slice(&((36 + body.len()) as u32).to_le_bytes());
    t.push(1);
    t.push(0);
    t.extend_from_slice(b"OEMID ");
    t.extend_from_slice(b"TABLEID ");
    t.extend_from_slice(&1u32.to_le_bytes());
    t.extend_from_slice(b"CRTR");
    t.extend_from_slice(&1u32.to_le_bytes());
    t.extend_from_slice(body);
    let sum = t.iter().fold(0u8, |a, b| a.wrapping_add(*b));
    t[9] = 0u8.wrapping_sub(sum);
    t
}

#[test]
fn little_endian_reads() {
    let b = [0x01, 0x02, 0x03, 0x04, 0x05, 0x06, 0x07, 0x08, 0x09];
    assert_eq!(read_u16(&b, 1), 0x0302);
    assert_eq!(read_u32(&b, 0), 0x0403_0201);
    assert_eq!(read_u64(&b, 1), 0x0908_0706_0504_0302);
}

#[test]
fn checksums() {
    assert!(checksum_ok(&[0x10, 0xF0], 2));
    assert!(!checksum_ok(&[0x10, 0xF1], 2));
    assert!(checksum_ok(&[0x10, 0xF0, 0x33], 2));
    assert!(checksum_ok(&[], 0));
}

#[test]
fn table_headers() {
    let t = table(b"APIC", &[1, 2, 3, 4]);
    let h = SDTHeader { addr: 0x1000, bytes: t.clone() };
    assert_eq!(h.length(), 40);
    assert!(h.has_signature(b"APIC"));
    assert!(!h.has_signature(b"HPET"));
    assert!(h.validate());
    let mut broken = t.clone();
    broken[36] ^= 0xFF;
    assert!(!SDTHeader { addr: 0, bytes: broken }.validate());
    let mut short = t;
    short.truncate(30);
    assert!(!SDTHeader { addr: 0, bytes: short }.validate());
}

fn rsdp(revision: u8) -> Vec<u8> {
    let mut b = Vec::new();
    b.extend_from_slice(b"RSD PTR ");
    b.push(0);
    b.extend_from_slice(b"OEMXYZ");
    b.push(revision);
    b.extend_from_slice(&0x000E_1000u32.to_le_bytes());
    b.extend_from_slice(&36u32.to_le_bytes());
    b.extend_from_slice(&0x7FF0_0000u64.to_le_bytes());
    b.push(0);
    b.extend_from_slice(&[0, 0, 0]);
    let sum = b[..20].iter().fold(0u8, |a, x| a.wrapping_add(*x));
    b[8] = 0u8.wrapping_sub(sum);
    let sum = b.iter().fold(0u8, |a, x| a.wrapping_add(*x));
    b[32] = 0u8.wrapping_sub(sum);
    b
}

#[test]
fn root_pointer_version_1() {
    let raw = rsdp(0);
    let p = RootSystemDescPtr::parse(&raw);
    assert_eq!(&p.signature, b"RSD PTR ");
    assert_eq!(&p.oem_id, b"OEMXYZ");
    assert_eq!(p.length(), 20);
    assert!(p.validate(&raw));
    assert_eq!(p.as_type(), RSDTType::RootSystemDescTable(0xFFFF_8000_000E_1000));
}

#[test]
fn root_pointer_version_2() {
    let raw = rsdp(2);
    let p = RootSystemDescPtr::parse(&raw);
    assert_eq!(p.length(), 36);
    assert!(p.validate(&raw));
    assert_eq!(p.as_type(), RSDTType::ExtendedSystemDescTable(0xFFFF_8000_7FF0_0000));
    let mut bad = raw.clone();
    bad[24] ^= 1;
    assert!(!RootSystemDescPtr::parse(&bad).validate(&bad));
}

#[test]
fn root_table_entries() {
    let mut body = Vec::new();
    body.extend_from_slice(&0x1000u32.to_le_bytes());
    body.extend_from_slice(&0x2000u32.to_le_bytes());
    let rsdt = table(b"RSDT", &body);
    let mut it = RSDTTypeIter::new(rsdt, false);
    assert_eq!(it.total, 2);
    assert_eq!(it.next(), Some(0xFFFF_8000_0000_1000));
    assert_eq!(it.next(), Some(0xFFFF_8000_0000_2000));
    assert_eq!(it.next(), None);
    assert_eq!(it.next(), None);

    let mut body = Vec::new();
    body.extend_from_slice(&0x1_0000_3000u64.to_le_bytes());
    let xsdt = table(b"XSDT", &body);
    let mut it = RSDTTypeIter::new(xsdt, true);
    assert_eq!(it.total, 1);
    assert_eq!(it.next(), Some(0xFFFF_8001_0000_3000));
    assert_eq!(it.next(), None);
}

#[test]
fn acpi_state_keeps_valid_tables() {
    let good = SDTHeader { addr: 1, bytes: table(b"APIC", &[0; 8]) };
    let mut bad_bytes = table(b"HPET", &[0; 8]);
    bad_bytes[40] = 1;
    let bad = SDTHeader { addr: 2, bytes: bad_bytes };
    let other = SDTHeader { addr: 3, bytes: table(b"FACP", &[]) };
    let state = ACPIState::new(2, vec![good, bad, other]);
    assert_eq!(state.version, 2);
    assert_eq!(state.tables.len(), 2);
    assert_eq!(state.find(b"APIC"), Some(0));
    assert_eq!(state.find(b"FACP"), Some(1));
    assert_eq!(state.find(b"HPET"), None);
}

fn madt() -> Vec<u8> {
    let mut body = Vec::new();
    body.extend_from_slice(&0u32.to_le_bytes());
    body.extend_from_slice(&1u32.to_le_bytes());
    body.extend_from_slice(&[0, 8, 0, 0, 1, 0, 0, 0]);
    body.extend_from_slice(&[0, 8, 1, 1, 1, 0, 0, 0]);
    body.extend_from_slice(&[1, 12, 2, 0]);
    body.extend_from_slice(&0xFEC0_0000u32.to_le_bytes());
    body.extend_from_slice(&0u32.to_le_bytes());
    body.extend_from_slice(&[2, 10, 0, 0, 2, 0, 0, 0, 0, 0]);
    body.extend_from_slice(&[4, 6, 0xFF, 5, 0, 1]);
    body.extend_from_slice(&[9, 4, 0, 0]);
    body.extend_from_slice(&[0x90, 2]);
    table(b"APIC", &body)
}

#[test]
fn madt_records() {
    let t = madt();
    let rs = records(&t);
    assert_eq!(rs.len(), 7);
    assert_eq!(rs[0], InterruptController::ProcessorLocalAPIC(ProcessorLocalAPIC { acpi_uid: 0, apic_id: 0, flags: 1 }));
    assert_eq!(rs[2], InterruptController::InputOutputAPIC(IoApic { id: 2, address: 0xFEC0_0000, gsi_base: 0 }));
    assert_eq!(rs[5], InterruptController::ProcessorLocalx2APIC(ICHeader { type_: 9, length: 4 }));
    assert_eq!(rs[6], InterruptController::OemReserved(ICHeader { type_: 0x90, length: 2 }));
    assert_eq!(ICHeader { type_: 9, length: 4 }.length(), 4);
    assert!(pcat_compat(&t));
}

#[test]
fn madt_walk_stops_at_a_broken_record() {
    let mut body = Vec::new();
    body.extend_from_slice(&0u32.to_le_bytes());
    body.extend_from_slice(&0u32.to_le_bytes());
    body.extend_from_slice(&[0, 8, 0, 0, 1, 0, 0, 0]);
    body.extend_from_slice(&[0, 1, 0, 0]);
    body.extend_from_slice(&[0, 8, 1, 1, 1, 0, 0, 0]);
    let t = table(b"APIC", &body);
    assert_eq!(records(&t).len(), 1);
    assert!(!pcat_compat(&t));
}

#[test]
fn madt_data() {
    let t = madt();
    let d = MADTData::new(&t);
    assert_eq!(d.proc_lapics.len(), 2);
    assert_eq!(d.proc_lapics[1].apic_id, 1);
    assert_eq!(d.ioapics, vec![IoApic { id: 2, address: 0xFEC0_0000, gsi_base: 0 }]);
    assert_eq!(d.isos.len(), 1);
    assert_eq!(d.isos[0].gsi, 2);
    assert_eq!(d.lapic_addr, 0xFEE0_0000);
}

#[test]
fn madt_address_override() {
    let mut body = Vec::new();
    body.extend_from_slice(&0xFEE0_0000u32.to_le_bytes());
    body.extend_from_slice(&0u32.to_le_bytes());
    body.extend_from_slice(&[5, 12, 0, 0]);
    body.extend_from_slice(&0x1_FEE0_0000u64.to_le_bytes());
    let d = MADTData::new(&table(b"APIC", &body));
    assert_eq!(d.lapic_addr, 0x1_FEE0_0000);
}

#[test]
fn oem_id_is_trimmed() {
    let mut p = RootSystemDescPtr::parse(&rsdp(0));
    assert_eq!(p.oem_id(), b"OEMXYZ");
    p.oem_id = *b" BOCHS";
    assert_eq!(p.oem_id(), b"BOCHS");
    p.oem_id = *b"AB  \t\n";
    assert_eq!(p.oem_id(), b"AB");
    p.oem_id = *b"A B   ";
    assert_eq!(p.oem_id(), b"A B");
    p.oem_id = *b"      ";
    assert_eq!(p.oem_id(), b"");
}

#[test]
fn extended_table_header() {
    let bytes = table(b"XSDT", &0x1000u64.to_le_bytes());
    let x = Xsdt(SDTHeader { addr: 0xFFFF_8000_7FF0_0000, bytes });
    assert!(x.header().has_signature(b"XSDT"));
    assert_eq!(x.header().length(), 44);
    assert!(x.header().validate());
}

#[test]
fn legacy_pic_is_disabled_only_when_present() {
    let t = madt();
    let writes = firework::madt::disable_legacy_pic(&t);
    assert_eq!(writes, firework::pic::ProgrammableIntrController::new().remap_and_disable());
    assert_eq!(writes.len(), 9);
    let mut no_pic = t.clone();
    no_pic[40] = 0;
    assert!(firework::madt::disable_legacy_pic(&no_pic).is_empty());
}

#[test]
fn madt_setup_quiets_the_pic_and_maps_the_ioapics() {
    let t = madt();
    let s = firework::madt::madt_setup(&t);
    assert_eq!(s.pic_writes, firework::pic::ProgrammableIntrController::new().remap_and_disable());
    assert_eq!(
        s.mmio,
        vec![firework::madt::MmioMapping { virt: 0xFFFF_8000_FEC0_0000, phys: 0xFEC0_0000, pages: 1 }]
    );
    assert_eq!(s.data.ioapics, vec![IoApic { id: 2, address: 0xFEC0_0000, gsi_base: 0 }]);
    assert_eq!(s.data.proc_lapics.len(), 2);
    let mut no_pic = t.clone();
    no_pic[40] = 0;
    let s = firework::madt::madt_setup(&no_pic);
    assert!(s.pic_writes.is_empty());
    assert_eq!(s.mmio.len(), 1);
}
