use firework::loader::{
    entry_point, image_size, load_executable, load_segments, relocate_executable, ElfClass,
    ElfHeader, LoadError, ProgramHeader, Rela, apply_relocations, ET_DYN, PT_LOAD,
    R_X86_64_NONE, R_X86_64_RELATIVE,
};
use firework::memmap::{MemoryData, MemoryEntry};
use firework::pmm::{BitmapAllocator, PHYS_VIRT_OFFSET};
use firework::proc::{ThreadState, STACK_SIZE};
use firework::process::PagingRequest;
use firework::regs::RegisterState;
use firework::scheduler::{Scheduler, SpawnError, Switch};
use firework::syscall::USER_PHYS_VIRT_OFFSET;

fn pmm() -> BitmapAllocator {
    BitmapAllocator::new(&[MemoryEntry::Usable(MemoryData { base: 0x20_1000, length: 0x10_0000 })])
}

struct Spec {
    e_type: u16,
    entry: u64,
    with_segments: bool,
    with_sections: bool,
    filesz: u64,
    memsz: u64,
    reloc_type: u32,
    reloc_offset: u64,
}

fn base_spec() -> Spec {
    Spec {
        e_type: 3,
        entry: 0x1000,
        with_segments: true,
        with_sections: true,
        filesz: 16,
        memsz: 0x20,
        reloc_type: 8,
        reloc_offset: 0x1008,
    }
}

fn put16(v: &mut Vec<u8>, x: u16) {
    v.extend_from_slice(&x.to_le_bytes());
}
fn put32(v: &mut Vec<u8>, x: u32) {
    v.extend_from_slice(&x.to_le_bytes());
}
fn put64(v: &mut Vec<u8>, x: u64) {
    v.extend_from_slice(&x.to_le_bytes());
}

/// A little 64-bit ELF file: one loadable segment of file bytes 0x10..0x20
/// at 0x1000, and a relocation section with a relative and a null relocation.
fn build(s: &Spec) -> Vec<u8> {
    let mut v = vec![0x7F, b'E', b'L', b'F', 2, 1, 1, 0, 0, 0, 0, 0, 0, 0, 0, 0];
    put16(&mut v, s.e_type);
    put16(&mut v, 0x3E);
    put32(&mut v, 1);
    put64(&mut v, s.entry);
    put64(&mut v, if s.with_segments { 64 } else { 0 });
    put64(&mut v, if s.with_sections { 0x180 } else { 0 });
    put32(&mut v, 0);
    put16(&mut v, 64);
    put16(&mut v, 56);
    put16(&mut v, 1);
    put16(&mut v, 64);
    put16(&mut v, 2);
    put16(&mut v, 0);
    assert_eq!(v.len(), 64);
    put32(&mut v, 1);
    put32(&mut v, 5);
    put64(&mut v, 0x100);
    put64(&mut v, 0x1000);
    put64(&mut v, 0x1000);
    put64(&mut v, s.filesz);
    put64(&mut v, s.memsz);
    put64(&mut v, 0x1000);
    v.resize(0x100, 0);
    for b in 0x10u8..0x20 {
        v.push(b);
    }
    v.resize(0x120, 0);
    put64(&mut v, s.reloc_offset);
    put64(&mut v, s.reloc_type as u64);
    put64(&mut v, 0x1010);
    put64(&mut v, 0);
    put64(&mut v, 0);
    put64(&mut v, 0);
    v.resize(0x180, 0);
    v.resize(0x1C0, 0);
    put32(&mut v, 0);
    put32(&mut v, 4);
    put64(&mut v, 2);
    put64(&mut v, 0);
    put64(&mut v, 0x120);
    put64(&mut v, 48);
    put32(&mut v, 0);
    put32(&mut v, 0);
    put64(&mut v, 8);
    put64(&mut v, 24);
    assert_eq!(v.len(), 0x200);
    v
}

#[test]
fn loads_a_position_independent_executable() {
    let file = build(&base_spec());
    let (h, image) = load_executable(&file).unwrap();
    assert_eq!(h, ElfHeader { e_type: ET_DYN, class: ElfClass::Elf64, e_entry: 0x1000 });
    assert_eq!(image.len(), 0x1020);
    assert!(image[..0x1000].iter().all(|&b| b == 0));
    let expected: Vec<u8> = (0x10u8..0x20).collect();
    assert_eq!(&image[0x1000..0x1010], &expected[..]);
    assert!(image[0x1010..].iter().all(|&b| b == 0));
}

#[test]
fn relocates_for_the_mapping_address() {
    let file = build(&base_spec());
    let (_, mut image) = load_executable(&file).unwrap();
    let before = image.clone();
    let virt = 0xC040_0000u64;
    assert_eq!(relocate_executable(&file, &mut image, virt), Ok(()));
    assert_eq!(&image[0x1008..0x1010], &(virt + 0x1010).to_le_bytes());
    assert_eq!(&image[..0x1008], &before[..0x1008]);
    assert_eq!(&image[0x1010..], &before[0x1010..]);
}

#[test]
fn refuses_garbage() {
    assert_eq!(load_executable(b"not an executable").err(), Some(LoadError::Malformed));
    assert_eq!(load_executable(&[]).err(), Some(LoadError::Malformed));
}

#[test]
fn refuses_fixed_address_executables() {
    let mut s = base_spec();
    s.e_type = 2;
    assert_eq!(load_executable(&build(&s)).err(), Some(LoadError::NotDynamic));
}

#[test]
fn refuses_32_bit_files() {
    let mut v = vec![0x7F, b'E', b'L', b'F', 1, 1, 1, 0, 0, 0, 0, 0, 0, 0, 0, 0];
    put16(&mut v, 3);
    put16(&mut v, 3);
    put32(&mut v, 1);
    put32(&mut v, 0x1000);
    put32(&mut v, 0);
    put32(&mut v, 0);
    put32(&mut v, 0);
    put16(&mut v, 52);
    put16(&mut v, 32);
    put16(&mut v, 0);
    put16(&mut v, 40);
    put16(&mut v, 0);
    put16(&mut v, 0);
    assert_eq!(load_executable(&v).err(), Some(LoadError::Not64Bit));
}

#[test]
fn refuses_a_zero_entry_point() {
    let mut s = base_spec();
    s.entry = 0;
    assert_eq!(load_executable(&build(&s)).err(), Some(LoadError::NoEntry));
}

#[test]
fn refuses_files_without_segments() {
    let mut s = base_spec();
    s.with_segments = false;
    assert_eq!(load_executable(&build(&s)).err(), Some(LoadError::NoSegments));
}

#[test]
fn refuses_segments_past_the_file() {
    let mut s = base_spec();
    s.filesz = 0x1000;
    s.memsz = 0x2000;
    assert_eq!(load_executable(&build(&s)).err(), Some(LoadError::BadLayout));
}

#[test]
fn refuses_segments_past_the_image() {
    let mut s = base_spec();
    s.filesz = 16;
    s.memsz = 8;
    assert_eq!(load_executable(&build(&s)).err(), Some(LoadError::BadLayout));
}

#[test]
fn refuses_unsupported_relocations() {
    let mut s = base_spec();
    s.reloc_type = 7;
    let file = build(&s);
    let (_, mut image) = load_executable(&file).unwrap();
    let before = image.clone();
    assert_eq!(relocate_executable(&file, &mut image, 0x4000), Err(LoadError::BadRelocation));
    assert_eq!(image, before);
}

#[test]
fn refuses_relocations_past_the_image() {
    let mut s = base_spec();
    s.reloc_offset = 0x101C;
    let file = build(&s);
    let (_, mut image) = load_executable(&file).unwrap();
    assert_eq!(relocate_executable(&file, &mut image, 0x4000), Err(LoadError::BadRelocation));
}

#[test]
fn refuses_relocations_that_overflow() {
    let file = build(&base_spec());
    let (_, mut image) = load_executable(&file).unwrap();
    assert_eq!(relocate_executable(&file, &mut image, u64::MAX - 8), Err(LoadError::BadRelocation));
}

#[test]
fn needs_a_section_table_to_relocate() {
    let mut s = base_spec();
    s.with_sections = false;
    let file = build(&s);
    let (_, mut image) = load_executable(&file).unwrap();
    assert_eq!(relocate_executable(&file, &mut image, 0x4000), Err(LoadError::NoSections));
}

#[test]
fn entry_point_is_offset_by_the_mapping() {
    let h = ElfHeader { e_type: ET_DYN, class: ElfClass::Elf64, e_entry: 0x1000 };
    assert_eq!(entry_point(&h, 0xC040_0000), Some(0xC040_1000));
    assert_eq!(entry_point(&h, u64::MAX - 0xFFF), None);
}

fn seg(p_type: u32, off: u64, vaddr: u64, filesz: u64, memsz: u64) -> ProgramHeader {
    ProgramHeader {
        p_type,
        p_offset: off,
        p_vaddr: vaddr,
        p_paddr: vaddr,
        p_filesz: filesz,
        p_memsz: memsz,
        p_flags: 4,
        p_align: 0x1000,
    }
}

#[test]
fn image_size_is_the_furthest_end() {
    let segs = vec![seg(PT_LOAD, 0, 0, 4, 0x10), seg(6, 0, 0x40, 0, 0x8), seg(PT_LOAD, 0, 0x20, 2, 2)];
    assert_eq!(image_size(&segs), 0x48);
}

#[test]
fn later_segments_overwrite_earlier_ones() {
    let exec: Vec<u8> = (0u8..16).collect();
    let segs = vec![seg(PT_LOAD, 0, 0, 4, 4), seg(PT_LOAD, 8, 2, 4, 4), seg(6, 0, 0, 4, 4)];
    let image = load_segments(&exec, &segs, 8);
    assert_eq!(image, vec![0, 1, 8, 9, 10, 11, 0, 0]);
}

#[test]
fn relocations_apply_in_order() {
    let mut image = vec![0u8; 16];
    let relas = vec![
        Rela { r_offset: 0, r_sym: 0, r_type: R_X86_64_RELATIVE, r_addend: -5 },
        Rela { r_offset: 4, r_sym: 0, r_type: R_X86_64_RELATIVE, r_addend: 0x10 },
        Rela { r_offset: 8, r_sym: 0, r_type: R_X86_64_NONE, r_addend: 1 },
    ];
    apply_relocations(&mut image, &relas, 0x100);
    let mut expected = vec![0u8; 16];
    expected[0..8].copy_from_slice(&0x105u64.to_le_bytes());
    expected[4..12].copy_from_slice(&0x110u64.to_le_bytes());
    assert_eq!(image, expected);
}

#[test]
fn least_addend_has_magnitude_two_to_the_63() {
    let mut image = vec![0u8; 8];
    let relas = vec![Rela { r_offset: 0, r_sym: 0, r_type: R_X86_64_RELATIVE, r_addend: i64::MIN }];
    apply_relocations(&mut image, &relas, 1);
    assert_eq!(image, (0x8000_0000_0000_0001u64).to_le_bytes().to_vec());
}

#[test]
fn null_relocations_change_nothing() {
    let mut image: Vec<u8> = (0u8..24).collect();
    let relas = vec![
        Rela { r_offset: 0, r_sym: 0, r_type: R_X86_64_NONE, r_addend: 5 },
        Rela { r_offset: 8, r_sym: 1, r_type: R_X86_64_NONE, r_addend: -5 },
    ];
    apply_relocations(&mut image, &relas, 0xFFFF_0000);
    assert_eq!(image, (0u8..24).collect::<Vec<u8>>());
}

#[test]
fn spawned_process_owns_its_image_stack_and_thread() {
    let exec = build(&base_spec());
    let (header, image) = load_executable(&exec).unwrap();
    let mut p = pmm();
    let phys = p.alloc_pages(2).unwrap();
    let mut s = Scheduler::new(0x1000);
    let done = s
        .spawn_image(&mut p, "/bin/app".to_string(), &exec, &header, image, phys + PHYS_VIRT_OFFSET)
        .unwrap();
    let virt = phys + USER_PHYS_VIRT_OFFSET;
    assert_eq!((done.pid, done.tid, done.image_addr), (1, 1, virt));
    assert_eq!(done.image[0x1008..0x1010], (virt + 0x1010).to_le_bytes());
    let stack = 0x20_3000 + USER_PHYS_VIRT_OFFSET;
    assert_eq!(
        done.mappings,
        vec![
            PagingRequest::MapPages { virt, phys, count: 2, writable: true },
            PagingRequest::MapPages { virt: stack, phys: 0x20_3000, count: STACK_SIZE / 0x1000, writable: true },
        ]
    );
    assert_eq!(p.free_pages, 256 - 2 - STACK_SIZE / 0x1000);
    let proc = s.process(1).unwrap();
    assert_eq!(proc.image_base, virt);
    assert_eq!(proc.path, "/bin/app");
    assert_eq!(proc.thread_ids, vec![1]);
    let t = s.thread(1).unwrap();
    assert_eq!(t.pid, 1);
    assert_eq!(t.state, ThreadState::Inactive);
    assert_eq!(t.regs.rip, virt + 0x1000);
    assert_eq!(t.regs.rsp, stack + STACK_SIZE);
    assert_eq!(t.stack_addr, stack);
    let mut regs = RegisterState::zeroed();
    assert_eq!(s.schedule(&mut regs, 0), Switch::Process { pid: 1 });
    assert_eq!(regs.rip, virt + 0x1000);
    s.process_teardown(&mut p);
    assert_eq!(p.free_pages, 256);
    assert!(s.process(1).is_none());
}

#[test]
fn spawning_takes_fresh_ids_and_reuses_freed_ones() {
    let exec = build(&base_spec());
    let mut p = pmm();
    let mut s = Scheduler::new(0x1000);
    let mut pids = Vec::new();
    for _ in 0..2 {
        let (header, image) = load_executable(&exec).unwrap();
        let phys = p.alloc_pages(2).unwrap();
        let done = s.spawn_image(&mut p, "/bin/app".to_string(), &exec, &header, image, phys + PHYS_VIRT_OFFSET).unwrap();
        pids.push((done.pid, done.tid));
    }
    assert_eq!(pids, vec![(1, 1), (2, 2)]);
    s.current_pid = Some(1);
    s.current_tid = Some(1);
    s.process_teardown(&mut p);
    let (header, image) = load_executable(&exec).unwrap();
    let phys = p.alloc_pages(2).unwrap();
    let done = s.spawn_image(&mut p, "/bin/app".to_string(), &exec, &header, image, phys + PHYS_VIRT_OFFSET).unwrap();
    assert_eq!((done.pid, done.tid), (1, 1));
}

#[test]
fn spawning_refuses_a_bad_executable_before_taking_ids() {
    let mut p = pmm();
    let mut s = Scheduler::new(0x1000);
    let r = s.spawn_proc(&mut p, "/bin/bad".to_string(), &[1, 2, 3]);
    assert_eq!(r.err(), Some(SpawnError::Load(LoadError::Malformed)));
    let mut spec = base_spec();
    spec.e_type = 2;
    let r = s.spawn_proc(&mut p, "/bin/bad".to_string(), &build(&spec));
    assert_eq!(r.err(), Some(SpawnError::Load(LoadError::NotDynamic)));
    let mut spec = base_spec();
    spec.reloc_type = 1;
    let exec = build(&spec);
    let (header, image) = load_executable(&exec).unwrap();
    let phys = p.alloc_pages(2).unwrap();
    let r = s.spawn_image(&mut p, "/bin/bad".to_string(), &exec, &header, image, phys + PHYS_VIRT_OFFSET);
    assert_eq!(r.err(), Some(SpawnError::Load(LoadError::BadRelocation)));
    assert!(s.process(1).is_none());
    assert!(s.thread(1).is_none());
    assert_eq!(p.free_pages, 254);
    let exec = build(&base_spec());
    let (header, image) = load_executable(&exec).unwrap();
    let done = s.spawn_image(&mut p, "/bin/app".to_string(), &exec, &header, image, phys + PHYS_VIRT_OFFSET).unwrap();
    assert_eq!((done.pid, done.tid), (1, 1));
}

#[test]
fn spawning_refuses_an_image_outside_pages_in_use() {
    let exec = build(&base_spec());
    let mut p = pmm();
    let mut s = Scheduler::new(0x1000);
    let (header, image) = load_executable(&exec).unwrap();
    let r = s.spawn_image(&mut p, "/bin/app".to_string(), &exec, &header, image.clone(), 0x20_1000 + PHYS_VIRT_OFFSET);
    assert_eq!(r.err(), Some(SpawnError::NotBacked));
    let r = s.spawn_image(&mut p, "/bin/app".to_string(), &exec, &header, image, 0x1000);
    assert_eq!(r.err(), Some(SpawnError::NotBacked));
    assert!(s.process(1).is_none());
    assert_eq!(p.free_pages, 256);
}
