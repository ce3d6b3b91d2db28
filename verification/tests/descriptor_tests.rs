use firework::exc::{init, ExceptionHandlers, SPURIOUS_VECTOR};
use firework::gdt::{
    DescriptorType, GDTData, PrivilegeLevel, SegmentAttributes, SegmentDescriptor,
    SegmentSelector, TaskSegmentDescriptor,
};
use firework::idt::{
    init_intr_quirks, setup, Entry, EntryFlags, EntryType, Idt, InterruptHandler, IDT_ENTRIES,
};
use firework::tss::TaskSegmentSelector;

#[test]
fn segment_selectors() {
    assert_eq!(SegmentSelector::new(1, PrivilegeLevel::Supervisor).0, 8);
    assert_eq!(SegmentSelector::new(2, PrivilegeLevel::Supervisor).0, 16);
    assert_eq!(SegmentSelector::new(3, PrivilegeLevel::User).0, 27);
    assert_eq!(SegmentSelector::new(4, PrivilegeLevel::User).0, 35);
    assert_eq!(SegmentSelector::new(5, PrivilegeLevel::Supervisor).0, 40);
}

#[test]
fn descriptor_types() {
    assert_eq!(DescriptorType::CodeSegment.bits(), 0b11010);
    assert_eq!(DescriptorType::TaskSegment.bits(), 0b01001);
    assert_eq!(PrivilegeLevel::User.bits(), 3);
    assert_eq!(SegmentAttributes::from_bytes([0x9A, 0x20]).0, 0x209A);
}

#[test]
fn kernel_descriptor_table() {
    let gdt = GDTData::new();
    assert_eq!(gdt.null.attrs.0, 0x80);
    assert_eq!(gdt.code_segment.attrs.0, 0x209A);
    assert_eq!(gdt.data_segment.attrs.0, 0x92);
    assert_eq!(gdt.user_code_segment.attrs.0, 0x20FA);
    assert_eq!(gdt.user_data_segment.attrs.0, 0xF2);
    assert_eq!(gdt.code_segment.limit_low, 0);
    assert_eq!(gdt.task_segment.length, 104);
    assert_eq!(gdt.task_segment.attrs.0, 0x2009);
    let d = SegmentDescriptor::new(0xFFFF, DescriptorType::DataSegment, PrivilegeLevel::User, false, false);
    assert_eq!(d.attrs.0, 0x72);
    assert_eq!(d.limit_low, 0xFFFF);
}

#[test]
fn task_segment_descriptor_base() {
    let d = TaskSegmentDescriptor::null().with_base(0xFFFF_8000_1234_5678);
    assert_eq!(d.base_low, 0x5678);
    assert_eq!(d.base_middle, 0x34);
    assert_eq!(d.base_high, 0x12);
    assert_eq!(d.base_upper, 0xFFFF_8000);
    assert_eq!(d.attrs.0, 0x2089);
    assert_eq!(d.length, 104);
}

#[test]
fn task_state_segment() {
    let t = TaskSegmentSelector::new(0xFFFF_8000_0010_0000);
    assert_eq!(t.privilege_stack_table, [0xFFFF_8000_0010_0000, 0, 0]);
    assert_eq!(t.interrupt_stack_table[0], 0xFFFF_8000_0010_0000);
    assert_eq!(t.interrupt_stack_table[1], 0);
    assert_eq!(t.io_bitmap_offset, 112);
    assert!(t.io_bitmap.iter().all(|&b| b == 0));
}

#[test]
fn interrupt_entries() {
    let sel = SegmentSelector::new(1, PrivilegeLevel::Supervisor);
    let e = Entry::new(0x1234_5678_9ABC_DEF0, sel, 2, EntryType::TrapGate, PrivilegeLevel::User, true);
    assert_eq!(e.offset_low, 0xDEF0);
    assert_eq!(e.offset_middle, 0x9ABC);
    assert_eq!(e.offset_high, 0x1234_5678);
    assert_eq!(e.flags.0, 0xEF02);
    assert_eq!(e.flags.ist(), 2);
    assert_eq!(e.flags.ty(), EntryType::TrapGate);
    assert_eq!(e.flags.dpl(), PrivilegeLevel::User);
    assert!(e.flags.present());
    let moved = e.with_offset(0x10);
    assert_eq!((moved.offset_low, moved.offset_middle, moved.offset_high), (0x10, 0, 0));
    assert_eq!(moved.flags, e.flags);
    assert_eq!(EntryType::from_bits(0b1110), EntryType::InterruptGate);
    assert_eq!(EntryType::InterruptGate.into_bits(), 0b1110);
    assert_eq!(EntryFlags::new().0, 0);
}

#[test]
fn new_table_has_default_handlers() {
    let idt = Idt::new(0xAAAA);
    assert_eq!(idt.entries.len(), IDT_ENTRIES);
    assert_eq!(idt.handlers.len(), IDT_ENTRIES);
    for v in 0..IDT_ENTRIES {
        assert_eq!(idt.handlers[v], InterruptHandler { func: 0xAAAA, is_irq: false, should_iret: false });
        assert_eq!(idt.entries[v].flags.0, 0x8E00);
        assert_eq!(idt.entries[v].selector.0, 8);
    }
}

#[test]
fn set_handler_claims_a_vector() {
    let mut idt = Idt::new(0xAAAA);
    idt.set_handler(0x21, 3, PrivilegeLevel::User, 0x5000, true, false);
    assert_eq!(idt.handlers[0x21], InterruptHandler { func: 0x5000, is_irq: true, should_iret: false });
    assert_eq!(idt.entries[0x21].flags.0, 0xEE03);
    assert_eq!(idt.entries[0x20].flags.0, 0x8E00);
    assert_eq!(idt.handlers[0x22].func, 0xAAAA);
}

#[test]
fn load_offsets_points_entries_at_stubs() {
    let mut idt = Idt::new(0xAAAA);
    let stubs: Vec<u64> = (0..IDT_ENTRIES as u64).map(|v| 0xFFFF_8000_0000_0000 + v * 16).collect();
    idt.load_offsets(&stubs);
    assert_eq!(idt.entries[0].offset_low, 0);
    assert_eq!(idt.entries[1].offset_low, 16);
    assert_eq!(idt.entries[255].offset_low, 255 * 16);
    assert_eq!(idt.entries[255].offset_high, 0xFFFF_8000);
    assert_eq!(idt.entries[255].flags.0, 0x8E00);
}

#[test]
fn quirks_and_system_call_vectors() {
    let mut idt = Idt::new(0xAAAA);
    init_intr_quirks(&mut idt, 0x7000);
    setup(&mut idt, 0x9000);
    assert_eq!(idt.handlers[0x27], InterruptHandler { func: 0x7000, is_irq: false, should_iret: true });
    assert_eq!(idt.handlers[249], InterruptHandler { func: 0x9000, is_irq: false, should_iret: true });
    assert_eq!(idt.entries[249].flags.0, 0xEE01);
    assert_eq!(idt.entries[0x27].flags.0, 0x8E00);
}

fn handlers() -> ExceptionHandlers {
    ExceptionHandlers {
        div0: 0x100,
        debug: 0x101,
        nmi: 0x102,
        breakpoint: 0x103,
        overflow: 0x104,
        bound_range: 0x105,
        invalid_opcode: 0x106,
        dev_unavailable: 0x107,
        double_fault: 0x108,
        coproc_segment_overrun: 0x109,
        invalid_tss: 0x10A,
        segment_not_present: 0x10B,
        stack_exc: 0x10C,
        general_prot_fault: 0x10D,
        page_fault: 0x10E,
        reserved: 0x10F,
        x87_fp: 0x110,
        align_chk: 0x111,
        machine_chk: 0x112,
        simd_fp: 0x113,
        hv_injection: 0x11C,
        vmm_com: 0x11D,
        security: 0x11E,
        spurious: 0x1FF,
    }
}

#[test]
fn exception_handlers_are_installed() {
    let mut idt = Idt::new(0xAAAA);
    let h = handlers();
    init(&mut idt, &h);
    assert_eq!(idt.handlers[0].func, 0x100);
    assert_eq!(idt.handlers[8].func, 0x108);
    assert_eq!(idt.handlers[14].func, 0x10E);
    assert_eq!(idt.handlers[15].func, 0x10F);
    for v in 20..28 {
        assert_eq!(idt.handlers[v].func, 0x10F);
    }
    assert_eq!(idt.handlers[28].func, 0x11C);
    assert_eq!(idt.handlers[30].func, 0x11E);
    assert_eq!(idt.handlers[31].func, 0x10F);
    assert_eq!(idt.handlers[32].func, 0xAAAA);
    assert_eq!(idt.handlers[SPURIOUS_VECTOR as usize], InterruptHandler { func: 0x1FF, is_irq: true, should_iret: true });
    assert_eq!(idt.handlers[3], InterruptHandler { func: 0x103, is_irq: false, should_iret: false });
    assert_eq!(idt.entries[8].flags.ist(), 1);
    assert_eq!(idt.entries[14].flags.ist(), 0);
    assert_eq!(idt.entries[255].flags.0, 0x8E00);
}

#[test]
fn exception_handler_lookup() {
    let h = handlers();
    assert_eq!(h.for_vector(13), 0x10D);
    assert_eq!(h.for_vector(29), 0x11D);
    assert_eq!(h.for_vector(21), 0x10F);
    assert_eq!(h.for_vector(255), 0x1FF);
}

use firework::exc::{fault_in_kernel, page_fault_cause, page_fault_phrases, PageFaultCause};

#[test]
fn kernel_or_user_faults() {
    assert!(fault_in_kernel(8));
    assert!(fault_in_kernel(0));
    assert!(!fault_in_kernel(27));
    assert!(!fault_in_kernel(0x2B));
}

#[test]
fn page_fault_error_codes() {
    let c = page_fault_cause(0b10_0111);
    assert_eq!(
        c,
        PageFaultCause {
            protection_violation: true,
            write: true,
            user: true,
            reserved: false,
            instruction_fetch: false,
            protection_key: true,
            sgx: false,
        }
    );
    let (kind, access, mode, notes) = page_fault_phrases(c);
    assert_eq!(kind, "a page-level protection violation");
    assert_eq!(access, "writing");
    assert_eq!(mode, "user page");
    assert_eq!(notes, vec![" Protection key violatation."]);
    let c = page_fault_cause(0x8018);
    assert!(!c.protection_violation && c.reserved && c.instruction_fetch && c.sgx);
    let (kind, access, mode, notes) = page_fault_phrases(c);
    assert_eq!((kind, access, mode), ("a non-present page access", "reading", "supervisor page"));
    assert_eq!(notes, vec![" Page was reserved.", " Failed during an instruction fetch.", " SGX violation."]);
}
