use firework::client::{received_result, ReceivedMessage, SyscallReturn};
use firework::idt::{Idt, InterruptHandler};
use firework::kernel::{utf8_valid, finish_kprint, print_status, text_status, Kernel, KernelAction};
use firework::memmap::{MemoryData, MemoryEntry};
use firework::pmm::BitmapAllocator;
use firework::regs::RegisterState;
use firework::syscall::{AccessSize, SystemCallStatus, USER_PHYS_VIRT_OFFSET};

/// 256 free pages from page 513 on; the allocator covers 769 pages.
fn small_map() -> Vec<MemoryEntry> {
    vec![MemoryEntry::Usable(MemoryData { base: 0x20_1000, length: 0x10_0000 })]
}

fn pmm() -> BitmapAllocator {
    BitmapAllocator::new(&small_map())
}

#[test]
fn allocator_starts_from_the_map() {
    let p = pmm();
    assert_eq!(p.free_pages, 256);
    assert_eq!(p.total_pages, 769);
    assert!(p.is_allocated(0, 513));
    assert!(!p.is_allocated(0x20_1000, 1));
    assert!(!p.is_allocated(0x20_1000, 256));
}

#[test]
fn allocator_reserves_low_pages() {
    let map = vec![
        MemoryEntry::Usable(MemoryData { base: 0x1000, length: 0x8_0000 }),
        MemoryEntry::Usable(MemoryData { base: 0x20_1000, length: 0x1_0000 }),
        MemoryEntry::KernelOrModule(MemoryData { base: 0x30_0000, length: 0x1000 }),
    ];
    let p = BitmapAllocator::new(&map);
    assert_eq!(p.free_pages, 16);
    assert!(p.is_allocated(0x1000, 1));
    assert!(!p.is_allocated(0x20_1000, 16));
    assert!(p.is_allocated(0x21_1000, 1));
}

#[test]
fn alloc_hands_out_free_pages() {
    let mut p = pmm();
    let a = p.alloc_pages(1).unwrap();
    assert_eq!(a, 0x20_1000);
    assert!(p.is_allocated(a, 1));
    assert_eq!(p.free_pages, 255);
    let b = p.alloc_pages(2).unwrap();
    assert_eq!(b, 0x20_2000);
    assert!(p.is_allocated(b, 2));
    assert_eq!(p.free_pages, 253);
}

#[test]
fn alloc_fails_when_nothing_fits() {
    let mut p = pmm();
    assert_eq!(p.alloc_pages(257), None);
    assert_eq!(p.free_pages, 256);
    assert!(!p.is_allocated(0x20_1000, 1));
}

#[test]
fn free_returns_pages() {
    let mut p = pmm();
    let a = p.alloc_pages(4).unwrap();
    p.free(a, 4);
    assert!(!p.is_allocated(a, 1));
    assert_eq!(p.free_pages, 256);
    let again = p.alloc_pages(4).unwrap();
    assert_eq!(again, a);
}

fn kernel_with_two_processes() -> Kernel {
    let mut k = Kernel::new(pmm());
    k.processes.push(1);
    k.processes.push(2);
    k.threads.push((10, 1));
    k.threads.push((20, 2));
    k.current_thread = Some(10);
    k
}

fn call(k: &mut Kernel, number: u64, rsi: u64, rdx: u64, rcx: u64) -> (RegisterState, KernelAction) {
    let mut idt = Idt::new(0xDEF0);
    call_in(k, &mut idt, number, rsi, rdx, rcx)
}

fn call_in(k: &mut Kernel, idt: &mut Idt, number: u64, rsi: u64, rdx: u64, rcx: u64) -> (RegisterState, KernelAction) {
    let mut regs = RegisterState::zeroed();
    regs.rdi = number;
    regs.rsi = rsi;
    regs.rdx = rdx;
    regs.rcx = rcx;
    let act = k.syscall(idt, 0xABC0, &mut regs);
    (regs, act)
}

fn send(k: &mut Kernel, target: u64, addr: u64, len: u64) -> (RegisterState, KernelAction) {
    let mut regs = RegisterState::zeroed();
    regs.rdi = 2;
    regs.rsi = target;
    regs.rcx = addr - USER_PHYS_VIRT_OFFSET;
    regs.r8 = len;
    let mut idt = Idt::new(0xDEF0);
    let act = k.syscall(&mut idt, 0xABC0, &mut regs);
    (regs, act)
}

#[test]
fn kernel_starts_empty() {
    let k = Kernel::new(pmm());
    assert_eq!(k.next_message_id, 1);
    assert!(k.processes.is_empty());
    assert!(k.threads.is_empty());
    assert_eq!(k.current_thread, None);
    assert_eq!(k.caller(), None);
}

#[test]
fn caller_is_the_running_threads_process() {
    let mut k = kernel_with_two_processes();
    assert_eq!(k.caller(), Some(1));
    k.current_thread = Some(20);
    assert_eq!(k.caller(), Some(2));
    k.current_thread = Some(30);
    assert_eq!(k.caller(), None);
}

#[test]
fn unknown_call_number() {
    let mut k = kernel_with_two_processes();
    let (regs, act) = call(&mut k, 13, 0, 0, 0);
    assert_eq!(regs.rax, SystemCallStatus::UnknownRequest.code());
    assert_eq!(act, KernelAction::Resume);
}

#[test]
fn kprint_asks_for_the_text() {
    let mut k = kernel_with_two_processes();
    let (mut regs, act) = call(&mut k, 0, 0x1234, 5, 0);
    assert_eq!(regs.rax, 0);
    assert_eq!(act, KernelAction::Print { addr: 0x1234, len: 5 });
    regs.rax = 77;
    assert!(finish_kprint(&mut regs, b"hello"));
    assert_eq!(regs.rax, SystemCallStatus::Success.code());
    assert!(!finish_kprint(&mut regs, &[0x68, 0xC3]));
    assert_eq!(regs.rax, SystemCallStatus::MalformedData.code());
    assert_eq!(regs.rsi, 0x1234);
    let (regs, act) = call(&mut k, 0, 0, 5, 0);
    assert_eq!(regs.rax, SystemCallStatus::MalformedData.code());
    assert_eq!(act, KernelAction::Resume);
}

#[test]
fn kprint_text_must_be_utf8() {
    assert_eq!(text_status(b"hello"), SystemCallStatus::Success);
    assert_eq!(text_status("grüße".as_bytes()), SystemCallStatus::Success);
    assert_eq!(text_status(&[0xFF, 0xFE]), SystemCallStatus::MalformedData);
    assert_eq!(print_status(true), SystemCallStatus::Success);
    assert_eq!(print_status(false), SystemCallStatus::MalformedData);
}

#[test]
fn send_then_receive_delivers_the_message() {
    let mut k = kernel_with_two_processes();
    let (regs, act) = send(&mut k, 2, 0xC000_5000, 64);
    assert_eq!(regs.rax, 0);
    assert_eq!(act, KernelAction::Resume);
    assert_eq!(k.next_message_id, 2);
    k.current_thread = Some(20);
    let (regs, act) = call(&mut k, 1, 0, 0, 0);
    assert_eq!(act, KernelAction::Resume);
    assert_eq!(regs.rax, 0);
    assert_eq!(regs.rdi, 1);
    assert_eq!(regs.rsi, 1);
    assert_eq!(regs.rdx, 0xC000_5000);
    assert_eq!(regs.rcx, 64);
    assert!(k.mailbox.is_empty());
}

#[test]
fn receive_takes_the_oldest_message_first() {
    let mut k = kernel_with_two_processes();
    send(&mut k, 2, 0xC000_5000, 1);
    send(&mut k, 2, 0xC000_6000, 2);
    k.current_thread = Some(20);
    let (first, _) = call(&mut k, 1, 0, 0, 0);
    let (second, _) = call(&mut k, 1, 0, 0, 0);
    let (third, _) = call(&mut k, 1, 0, 0, 0);
    assert_eq!((first.rdi, first.rdx), (1, 0xC000_5000));
    assert_eq!((second.rdi, second.rdx), (2, 0xC000_6000));
    assert_eq!((third.rax, third.rdi), (SystemCallStatus::DoNothing.code(), 1));
    assert_eq!((third.rsi, third.rdx, third.rcx), (0, 0, 0));
}

#[test]
fn send_to_unknown_process_is_malformed() {
    let mut k = kernel_with_two_processes();
    let (regs, act) = send(&mut k, 7, 0xC000_5000, 64);
    assert_eq!(regs.rax, SystemCallStatus::MalformedData.code());
    assert_eq!(act, KernelAction::Resume);
    assert!(k.mailbox.is_empty());
    assert_eq!(k.next_message_id, 1);
}

#[test]
fn register_then_lookup_provider() {
    let mut k = kernel_with_two_processes();
    let (regs, _) = call(&mut k, 5, 42, 0, 0);
    assert_eq!(regs.rax, 0);
    k.current_thread = Some(20);
    let (regs, _) = call(&mut k, 6, 42, 0, 0);
    assert_eq!(regs.rax, 0);
    assert_eq!(regs.rdi, 1);
    let (regs, _) = call(&mut k, 5, 42, 0, 0);
    assert_eq!(regs.rax, SystemCallStatus::MalformedData.code());
    let (regs, _) = call(&mut k, 6, 43, 0, 0);
    assert_eq!(regs.rax, SystemCallStatus::MalformedData.code());
}

#[test]
fn port_access_sizes() {
    let mut k = kernel_with_two_processes();
    let (regs, act) = call(&mut k, 7, 0x60, 0, 0);
    assert_eq!(regs.rax, 0);
    assert_eq!(act, KernelAction::ReadPort { port: 0x60, size: AccessSize::Byte });
    let (regs, act) = call(&mut k, 7, 0x1_0CF8, 2, 0);
    assert_eq!(regs.rax, 0);
    assert_eq!(act, KernelAction::ReadPort { port: 0x0CF8, size: AccessSize::DWord });
    let (regs, act) = call(&mut k, 7, 0x60, 3, 0);
    assert_eq!(regs.rax, SystemCallStatus::MalformedData.code());
    assert_eq!(act, KernelAction::Resume);
    let (regs, act) = call(&mut k, 8, 0x64, 0xAE, 0);
    assert_eq!(regs.rax, 0);
    assert_eq!(act, KernelAction::WritePort { port: 0x64, size: AccessSize::Byte, value: 0xAE });
    let (regs, _) = call(&mut k, 8, 0x64, 0xAE, 9);
    assert_eq!(regs.rax, SystemCallStatus::MalformedData.code());
}

#[test]
fn irq_registration() {
    let mut k = kernel_with_two_processes();
    let mut idt = Idt::new(0xDEF0);
    let (regs, act) = call_in(&mut k, &mut idt, 9, 1, 1, 0);
    assert_eq!(regs.rax, 0);
    assert_eq!(act, KernelAction::WireIrq { irq: 1 });
    assert_eq!(k.irq_handler(1), Some(1));
    assert_eq!(k.irq_handler(2), None);
    assert_eq!(idt.handlers[0x21], InterruptHandler { func: 0xABC0, is_irq: true, should_iret: true });
    assert_eq!(idt.entries[0x21].flags.0, 0x8E00);
    assert_eq!(idt.handlers[0x22].func, 0xDEF0);
    let before = idt.handlers.clone();
    let (regs, act) = call_in(&mut k, &mut idt, 9, 1, 1, 0);
    assert_eq!(regs.rax, SystemCallStatus::InvalidRequest.code());
    assert_eq!(act, KernelAction::Resume);
    assert_eq!(idt.handlers, before);
    let (regs, act) = call(&mut k, 9, 2, 0, 0);
    assert_eq!(regs.rax, SystemCallStatus::MalformedData.code());
    assert_eq!(act, KernelAction::Resume);
    assert_eq!(k.irq_handler(2), None);
    let (regs, _) = call(&mut k, 9, 0xE0, 0, 0);
    assert_eq!(regs.rax, SystemCallStatus::MalformedData.code());
    let (regs, act) = call(&mut k, 9, 0x1_01, 7, 0);
    assert_eq!(regs.rax, SystemCallStatus::InvalidRequest.code());
    assert_eq!(act, KernelAction::Resume);
}

#[test]
fn allocate_then_free() {
    let mut k = kernel_with_two_processes();
    let (regs, act) = call(&mut k, 10, 0x1800, 0, 0);
    assert_eq!(regs.rax, 0);
    let addr = regs.rdi;
    assert_eq!(addr, 0x20_1000 + USER_PHYS_VIRT_OFFSET);
    assert_eq!(
        act,
        KernelAction::MapUserPages { virt: addr, phys: 0x20_1000, count: 2, writable: true, zero: true }
    );
    assert!(k.pmm.is_allocated(0x20_1000, 2));
    assert_eq!(k.pmm.free_pages, 254);
    let (regs, act) = call(&mut k, 11, addr, 0, 0);
    assert_eq!(regs.rax, 0);
    assert_eq!(act, KernelAction::Resume);
    assert!(!k.pmm.is_allocated(0x20_1000, 1));
    assert!(!k.pmm.is_allocated(0x20_2000, 1));
    assert_eq!(k.pmm.free_pages, 256);
}

#[test]
fn ack_frees_the_message() {
    let mut k = kernel_with_two_processes();
    let (regs, _) = call(&mut k, 10, 100, 0, 0);
    let addr = regs.rdi;
    send(&mut k, 2, addr, 100);
    k.current_thread = Some(20);
    let (got, _) = call(&mut k, 1, 0, 0, 0);
    assert_eq!(got.rdi, 1);
    let (regs, act) = call(&mut k, 12, 1, 0, 0);
    assert_eq!(regs.rax, 0);
    assert_eq!(act, KernelAction::Resume);
    assert!(!k.pmm.is_allocated(0x20_1000, 1));
    let (regs, _) = call(&mut k, 12, 99, 0, 0);
    assert_eq!(regs.rax, SystemCallStatus::MalformedData.code());
    let (regs, _) = call(&mut k, 12, 0, 0, 0);
    assert_eq!(regs.rax, SystemCallStatus::MalformedData.code());
}

#[test]
fn irq_delivery_and_ack_unmask() {
    let mut k = kernel_with_two_processes();
    k.current_thread = Some(20);
    call(&mut k, 9, 4, 1, 0);
    let mut p = pmm();
    let phys = p.alloc_pages(1).unwrap();
    let _ = p;
    let kernel_ptr = phys + firework::pmm::PHYS_VIRT_OFFSET;
    let act = k.deliver_irq(4, kernel_ptr, 2);
    let virt = phys + USER_PHYS_VIRT_OFFSET;
    assert_eq!(
        act,
        KernelAction::MapUserPages { virt, phys, count: 1, writable: false, zero: false }
    );
    let (got, _) = call(&mut k, 1, 0, 0, 0);
    assert_eq!((got.rdi, got.rsi, got.rdx, got.rcx), (1, 0, virt, 2));
    let (regs, act) = call(&mut k, 12, 1, 0, 0);
    assert_eq!(regs.rax, 0);
    assert_eq!(act, KernelAction::UnmaskIrqOf { addr: virt, size: 2 });
}

#[test]
fn skip_reschedules() {
    let mut k = kernel_with_two_processes();
    let (regs, act) = call(&mut k, 4, 0, 0, 0);
    assert_eq!(act, KernelAction::Reschedule);
    assert_eq!(regs.rax, 0);
}

#[test]
fn exit_of_last_thread_frees_the_process() {
    let mut k = kernel_with_two_processes();
    let (regs, _) = call(&mut k, 10, 0x3000, 0, 0);
    assert_eq!(regs.rax, 0);
    assert!(k.pmm.is_allocated(0x20_1000, 3));
    let (_, act) = call(&mut k, 3, 0, 0, 0);
    assert_eq!(act, KernelAction::Reschedule);
    assert_eq!(k.current_thread, None);
    assert_eq!(k.threads, vec![(20, 2)]);
    assert!(!k.pmm.is_allocated(0x20_1000, 1));
    assert_eq!(k.pmm.free_pages, 256);
}

#[test]
fn exit_keeps_memory_while_threads_remain() {
    let mut k = kernel_with_two_processes();
    k.threads.push((11, 1));
    call(&mut k, 10, 0x1000, 0, 0);
    let (_, act) = call(&mut k, 3, 0, 0, 0);
    assert_eq!(act, KernelAction::Reschedule);
    assert!(k.pmm.is_allocated(0x20_1000, 1));
    assert_eq!(k.threads, vec![(20, 2), (11, 1)]);
}

#[test]
fn client_reads_what_the_kernel_hands() {
    let mut k = kernel_with_two_processes();
    k.current_thread = Some(20);
    let (regs, _) = call(&mut k, 1, 0, 0, 0);
    let ret = SyscallReturn { rax: regs.rax, rdi: regs.rdi, rsi: regs.rsi, rdx: regs.rdx, rcx: regs.rcx };
    assert_eq!(received_result(&ret), Ok(None));
    k.current_thread = Some(10);
    send(&mut k, 2, 0xC000_7000, 12);
    k.current_thread = Some(20);
    let (regs, _) = call(&mut k, 1, 0, 0, 0);
    let ret = SyscallReturn { rax: regs.rax, rdi: regs.rdi, rsi: regs.rsi, rdx: regs.rdx, rcx: regs.rcx };
    assert_eq!(
        received_result(&ret),
        Ok(Some(ReceivedMessage { id: 1, proc_id: 1, addr: 0xC000_7000, len: 12 }))
    );
}

#[test]
fn free_undoes_alloc() {
    let mut p = pmm();
    let a = p.alloc_pages(3).unwrap();
    assert_eq!(p.free_pages, 253);
    p.free(a, 3);
    assert_eq!(p.free_pages, 256);
    assert!(!p.is_allocated(a, 1));
    assert!(!p.is_allocated(a + 0x2000, 1));
}

#[test]
fn utf8_check_agrees_with_std() {
    for a in 0..=255u8 {
        assert_eq!(utf8_valid(&[a]), core::str::from_utf8(&[a]).is_ok());
        for b in 0..=255u8 {
            let two = [a, b];
            assert_eq!(utf8_valid(&two), core::str::from_utf8(&two).is_ok(), "{two:X?}");
        }
    }
    for lead in [0xE0u8, 0xE1, 0xED, 0xEE, 0xEF, 0xF0, 0xF1, 0xF4, 0xF5] {
        for b in [0x7Fu8, 0x80, 0x8F, 0x90, 0x9F, 0xA0, 0xBF, 0xC0] {
            for c in [0x7Fu8, 0x80, 0xBF, 0xC0] {
                let three = [lead, b, c];
                assert_eq!(utf8_valid(&three), core::str::from_utf8(&three).is_ok(), "{three:X?}");
                for d in [0x41u8, 0x80, 0xBF, 0xC0] {
                    let four = [lead, b, c, d];
                    assert_eq!(utf8_valid(&four), core::str::from_utf8(&four).is_ok(), "{four:X?}");
                }
            }
        }
    }
    assert!(utf8_valid("héllo, 世界 🦀".as_bytes()));
    assert!(!utf8_valid(&[0x68, 0xFF, 0x69]));
}
