use firework::memmap::{MemoryData, MemoryEntry};
use firework::pmm::BitmapAllocator;
use firework::proc::{Thread, ThreadState, STACK_SIZE};
use firework::process::{PagingRequest, Process};
use firework::regs::RegisterState;
use firework::scheduler::{pick_next, Scheduler, Switch, TerminationReason};
use std::ops::ControlFlow;
use firework::idt::Idt;
use firework::syscall::USER_PHYS_VIRT_OFFSET;

fn pmm() -> BitmapAllocator {
    BitmapAllocator::new(&[MemoryEntry::Usable(MemoryData { base: 0x20_1000, length: 0x10_0000 })])
}

#[test]
fn new_thread_registers() {
    let t = Thread::new(3, 1, 0x40_1000, 0xC010_0000);
    assert_eq!(t.state, ThreadState::Inactive);
    assert_eq!(t.regs.rip, 0x40_1000);
    assert_eq!(t.regs.cs, 27);
    assert_eq!(t.regs.ss, 35);
    assert_eq!(t.regs.rflags, 0x202);
    assert_eq!(t.regs.rsp, 0xC010_0000 + STACK_SIZE);
    assert_eq!(t.regs.rax, 0);
    assert!(ThreadState::Suspended.is_suspended());
    assert!(!ThreadState::Active.is_inactive());
}

#[test]
fn process_allocation_is_tracked_and_mapped() {
    let mut p = pmm();
    let mut proc = Process::new(1, "/bin/init".to_string(), 0xC040_0000);
    let (virt, count, req) = proc.allocate(&mut p, 0x2001);
    assert_eq!(virt, 0x20_1000 + USER_PHYS_VIRT_OFFSET);
    assert_eq!(count, 3);
    assert_eq!(req, Some(PagingRequest::MapPages { virt, phys: 0x20_1000, count: 3, writable: true }));
    assert!(p.is_allocated(0x20_1000, 3));
    assert!(!proc.is_msg(virt));
    proc.track_msg(7, virt);
    assert!(proc.is_msg(virt));
    let unmap = proc.free_msg(&mut p, 7);
    assert_eq!(unmap, Some(PagingRequest::UnmapPages { virt, count: 3 }));
    assert!(!p.is_allocated(0x20_1000, 1));
    assert_eq!(p.free_pages, 256);
}

#[test]
fn read_only_and_unmapped_allocations() {
    let mut p = pmm();
    let phys = p.alloc_pages(1).unwrap();
    let mut proc = Process::new(2, "/bin/sh".to_string(), 0);
    let virt = phys + USER_PHYS_VIRT_OFFSET;
    assert_eq!(proc.track_alloc(&p, virt, 100, None), None);
    assert_eq!(proc.free_alloc(&mut p, virt), None);
    let phys = p.alloc_pages(1).unwrap();
    let (user, req) = proc.track_kernelside_alloc(&p, phys + firework::pmm::PHYS_VIRT_OFFSET, 16);
    assert_eq!(user, phys + USER_PHYS_VIRT_OFFSET);
    assert_eq!(req, Some(PagingRequest::MapPages { virt: user, phys, count: 1, writable: false }));
    assert_eq!(proc.free_alloc(&mut p, user), Some(PagingRequest::UnmapPages { virt: user, count: 1 }));
}

fn thread(id: u64, pid: u64, state: ThreadState) -> Thread {
    let mut t = Thread::new(id, pid, 0x1000 * id, 0x10_0000);
    t.state = state;
    t
}

#[test]
fn schedule_idles_without_threads() {
    let mut s = Scheduler::new(0xFFFF_8000_0030_0000);
    let mut regs = RegisterState::zeroed();
    assert_eq!(s.schedule(&mut regs, 0xFFFF_8000_0000_1234), Switch::Idle);
    assert_eq!(regs.rip, 0xFFFF_8000_0000_1234);
    assert_eq!(regs.cs, 8);
    assert_eq!(regs.ss, 16);
    assert_eq!(regs.rflags, 0x202);
    assert_eq!(regs.rsp, 0xFFFF_8000_0030_0000);
    assert_eq!(s.current_tid, None);
    assert!(s.current_thread().is_none());
}

#[test]
fn schedule_runs_and_saves_a_thread() {
    let mut s = Scheduler::new(0x1000);
    s.add_thread(thread(5, 1, ThreadState::Inactive));
    let mut regs = RegisterState::zeroed();
    assert_eq!(s.schedule(&mut regs, 0), Switch::Process { pid: 1 });
    assert_eq!(s.current_tid, Some(5));
    assert_eq!(s.current_pid, Some(1));
    assert_eq!(s.thread(5).unwrap().state, ThreadState::Active);
    assert_eq!(regs.rip, 0x5000);
    regs.rax = 77;
    assert_eq!(s.schedule(&mut regs, 0), Switch::Process { pid: 1 });
    let t = s.current_thread().unwrap();
    assert_eq!(t.regs.rax, 77);
    assert_eq!(t.state, ThreadState::Active);
    assert_eq!(regs.rax, 77);
}

#[test]
fn schedule_keeps_one_thread_active() {
    let mut s = Scheduler::new(0x1000);
    s.add_thread(thread(7, 1, ThreadState::Inactive));
    s.add_thread(thread(8, 2, ThreadState::Inactive));
    s.add_thread(thread(9, 2, ThreadState::Suspended));
    let mut regs = RegisterState::zeroed();
    for _ in 0..5 {
        match s.schedule(&mut regs, 0x99) {
            Switch::Idle => assert_eq!(s.current_tid, None),
            Switch::Process { pid } => {
                let t = s.current_thread().unwrap();
                assert_eq!(t.pid, pid);
                assert_eq!(t.state, ThreadState::Active);
                assert_eq!(regs.rip, t.regs.rip);
            }
        }
        let active: Vec<u64> = [7u64, 8, 9]
            .iter()
            .copied()
            .filter(|id| s.thread(*id).unwrap().state == ThreadState::Active)
            .collect();
        assert!(active.len() <= 1);
        if let Some(id) = active.first() {
            assert_eq!(s.current_tid, Some(*id));
        }
        assert_eq!(s.thread(9).unwrap().state, ThreadState::Suspended);
    }
}

#[test]
fn suspended_threads_stay_suspended() {
    let mut s = Scheduler::new(0x1000);
    s.add_thread(thread(0, 1, ThreadState::Suspended));
    s.current_tid = Some(0);
    s.current_pid = Some(1);
    let mut regs = RegisterState::zeroed();
    regs.rbx = 3;
    assert_eq!(s.schedule(&mut regs, 0x55), Switch::Idle);
    assert_eq!(s.thread(0).unwrap().state, ThreadState::Suspended);
    assert_eq!(s.thread(0).unwrap().regs.rbx, 3);
    assert_eq!(s.current_pid, None);
    assert_eq!(regs.rip, 0x55);
}

#[test]
fn next_thread_starts_after_the_current_id() {
    let order = vec![(5, thread(5, 1, ThreadState::Inactive)), (6, thread(6, 1, ThreadState::Inactive))];
    assert_eq!(pick_next(&order, None), Some(0));
    assert_eq!(pick_next(&order, Some(0)), Some(1));
    assert_eq!(pick_next(&order, Some(1)), None);
    assert_eq!(pick_next(&order, Some(6)), Some(0));
    let busy = vec![(1, thread(1, 1, ThreadState::Active)), (2, thread(2, 1, ThreadState::Suspended))];
    assert_eq!(pick_next(&busy, None), None);
    assert_eq!(pick_next(&Vec::new(), Some(3)), None);
}

use firework::process::QueuedMessage;

fn msg(id: u64) -> QueuedMessage {
    QueuedMessage { id, pid: 4, addr: 0xC000_1000 + id, len: 8 }
}

#[test]
fn waiting_thread_is_woken_with_the_message() {
    let mut s = Scheduler::new(0x1000);
    s.add_thread(thread(1, 3, ThreadState::Active));
    s.add_thread(thread(2, 3, ThreadState::Suspended));
    s.current_tid = Some(9);
    let flow = s.handle_new(3, &vec![1, 2], msg(5));
    assert_eq!(flow, ControlFlow::Continue(()));
    let woken = s.thread(2).unwrap();
    assert_eq!(woken.state, ThreadState::Inactive);
    assert_eq!((woken.regs.rax, woken.regs.rdi), (5, 4));
    assert_eq!((woken.regs.rsi, woken.regs.rdx), (0xC000_1005, 8));
    assert_eq!(s.thread(1).unwrap().regs.rax, 0);
}

#[test]
fn waking_while_idle_asks_to_reschedule() {
    let mut s = Scheduler::new(0x1000);
    s.add_thread(thread(2, 3, ThreadState::Suspended));
    assert_eq!(s.handle_new(3, &vec![2], msg(1)), ControlFlow::Break(None));
}

#[test]
fn messages_queue_when_nobody_waits() {
    let mut s = Scheduler::new(0x1000);
    s.add_process(Process::new(3, "/bin/app".to_string(), 0));
    s.add_thread(thread(1, 3, ThreadState::Active));
    s.current_tid = Some(1);
    s.current_pid = Some(3);
    assert_eq!(s.handle_new(3, &vec![1], msg(1)), ControlFlow::Continue(()));
    assert_eq!(s.handle_new(3, &vec![1], msg(2)), ControlFlow::Continue(()));
    assert_eq!(s.process(3).unwrap().messages, vec![msg(2), msg(1)]);
    let mut regs = RegisterState::zeroed();
    assert_eq!(s.receive(&mut regs), ControlFlow::Continue(()));
    assert_eq!(regs.rax, 1);
    assert_eq!(s.receive(&mut regs), ControlFlow::Continue(()));
    assert_eq!(regs.rax, 2);
    assert!(s.process(3).unwrap().messages.is_empty());
    assert_eq!(s.receive(&mut regs), ControlFlow::Break(None));
    assert_eq!(s.thread(1).unwrap().state, ThreadState::Suspended);
    assert_eq!(regs.rax, 2);
}

fn ipc_scheduler(p: &mut BitmapAllocator) -> (Scheduler, u64) {
    let mut s = Scheduler::new(0x1000);
    let mut sender = Process::new(1, "/bin/sender".to_string(), 0);
    let (data, _, _) = sender.allocate(p, 0x1800);
    sender.thread_ids.push(10);
    let mut receiver = Process::new(2, "/bin/receiver".to_string(), 0);
    receiver.thread_ids.push(20);
    s.add_process(sender);
    s.add_process(receiver);
    s.add_thread(thread(10, 1, ThreadState::Active));
    s.add_thread(thread(20, 2, ThreadState::Suspended));
    s.current_tid = Some(10);
    s.current_pid = Some(1);
    (s, data)
}

fn send_regs(target: u64, data: u64, len: u64) -> RegisterState {
    let mut r = RegisterState::zeroed();
    r.rsi = target;
    r.rdx = data;
    r.rcx = len;
    r
}

#[test]
fn sending_to_a_waiting_process_wakes_it() {
    let mut p = pmm();
    let (mut s, data) = ipc_scheduler(&mut p);
    let (flow, map) = s.send(&send_regs(2, data, 0x1800));
    assert_eq!(flow, ControlFlow::Continue(()));
    assert_eq!(map, Some(PagingRequest::MapPages { virt: data, phys: 0x20_1000, count: 2, writable: false }));
    let woken = s.thread(20).unwrap();
    assert_eq!(woken.state, ThreadState::Inactive);
    assert_eq!((woken.regs.rax, woken.regs.rdi, woken.regs.rsi, woken.regs.rdx), (1, 1, data, 0x1800));
    assert!(s.current_process().unwrap().is_msg(data));
}

#[test]
fn sending_to_oneself_only_queues() {
    let mut p = pmm();
    let (mut s, data) = ipc_scheduler(&mut p);
    let (flow, map) = s.send(&send_regs(1, data, 16));
    assert_eq!(flow, ControlFlow::Continue(()));
    assert_eq!(map, None);
    assert_eq!(s.process(1).unwrap().messages, vec![QueuedMessage { id: 1, pid: 1, addr: data, len: 16 }]);
    assert_eq!(s.thread(20).unwrap().state, ThreadState::Suspended);
}

#[test]
fn sending_to_nobody_is_not_found() {
    let mut p = pmm();
    let (mut s, data) = ipc_scheduler(&mut p);
    let (flow, map) = s.send(&send_regs(9, data, 16));
    assert_eq!(flow, ControlFlow::Break(Some(TerminationReason::NotFound)));
    assert_eq!(map, None);
    assert!(!s.current_process().unwrap().is_msg(data));
}

#[test]
fn acknowledging_frees_the_senders_data() {
    let mut p = pmm();
    let (mut s, data) = ipc_scheduler(&mut p);
    s.send(&send_regs(2, data, 0x1800));
    assert_eq!(p.free_pages, 254);
    s.current_tid = Some(20);
    s.current_pid = Some(2);
    let mut regs = RegisterState::zeroed();
    regs.rsi = 1;
    let (flow, work) = s.ack(&mut p, &regs);
    assert_eq!(flow, ControlFlow::Continue(()));
    assert_eq!(work.unmask_irq_of, None);
    assert_eq!(work.unmap_owner, Some((1, PagingRequest::UnmapPages { virt: data, count: 2 })));
    assert_eq!(work.unmap_receiver, Some(PagingRequest::UnmapPages { virt: data, count: 2 }));
    assert_eq!(p.free_pages, 256);
    let (flow, _) = s.ack(&mut p, &regs);
    assert_eq!(flow, ControlFlow::Break(Some(TerminationReason::NotFound)));
}

#[test]
fn message_ids_are_taken_in_turn_and_reused_once_acknowledged() {
    let mut p = pmm();
    let (mut s, data) = ipc_scheduler(&mut p);
    s.send(&send_regs(1, data, 16));
    s.send(&send_regs(1, data, 16));
    let ids: Vec<u64> = s.process(1).unwrap().messages.iter().map(|m| m.id).collect();
    assert_eq!(ids, vec![2, 1]);
    let mut regs = RegisterState::zeroed();
    regs.rsi = 2;
    assert_eq!(s.ack(&mut p, &regs).0, ControlFlow::Continue(()));
    let mut regs = RegisterState::zeroed();
    regs.rsi = 0x10;
    s.allocate(&mut p, &mut regs);
    let fresh = regs.rax;
    s.send(&send_regs(1, fresh, 16));
    assert_eq!(s.process(1).unwrap().messages[0], QueuedMessage { id: 2, pid: 1, addr: fresh, len: 16 });
    s.send(&send_regs(1, fresh, 16));
    assert_eq!(s.process(1).unwrap().messages[0].id, 3);
}

#[test]
fn freeing_everything_returns_all_pages() {
    let mut p = pmm();
    let mut proc = Process::new(1, "/bin/init".to_string(), 0);
    let (a, _, _) = proc.allocate(&mut p, 0x1000);
    let (b, _, _) = proc.allocate(&mut p, 0x3000);
    let phys = p.alloc_pages(1).unwrap();
    let c = phys + USER_PHYS_VIRT_OFFSET;
    proc.track_alloc(&p, c, 10, None);
    assert_eq!(p.free_pages, 251);
    let mut unmaps = proc.free_all(&mut p);
    assert_eq!(p.free_pages, 256);
    assert!(!p.is_allocated(0x20_1000, 1));
    assert!(!p.is_allocated(0x20_5000, 1));
    unmaps.sort_by_key(|u| match u {
        PagingRequest::UnmapPages { virt, .. } => *virt,
        PagingRequest::MapPages { virt, .. } => *virt,
    });
    assert_eq!(
        unmaps,
        vec![PagingRequest::UnmapPages { virt: a, count: 1 }, PagingRequest::UnmapPages { virt: b, count: 3 }]
    );
    assert_eq!(c, 0x20_5000 + USER_PHYS_VIRT_OFFSET);
}

fn irq_regs(rsi: u64) -> RegisterState {
    let mut r = RegisterState::zeroed();
    r.rsi = rsi;
    r
}

#[test]
fn irq_registration_is_checked() {
    let mut idt = Idt::new(0xDEF0);
    let mut s = Scheduler::new(0x1000);
    s.current_pid = Some(4);
    assert_eq!(
        s.register_irq(&mut idt, 0xABC0, &irq_regs(0xE0)),
        ControlFlow::Break(Some(TerminationReason::MalformedArgument))
    );
    assert_eq!(s.register_irq(&mut idt, 0xABC0, &irq_regs(0xDF)), ControlFlow::Continue(()));
    assert_eq!(idt.handlers[0xFF].func, 0xABC0);
    assert!(idt.handlers[0xFF].is_irq);
    assert_eq!(idt.handlers[0x20].func, 0xDEF0);
    assert_eq!(s.register_irq(&mut idt, 0xABC0, &irq_regs(0x101)), ControlFlow::Continue(()));
    s.current_pid = Some(5);
    assert_eq!(
        s.register_irq(&mut idt, 0xABC0, &irq_regs(1)),
        ControlFlow::Break(Some(TerminationReason::AlreadyExists))
    );
    assert_eq!(
        s.register_irq(&mut idt, 0xABC0, &irq_regs(0x1DF)),
        ControlFlow::Break(Some(TerminationReason::AlreadyExists))
    );
    assert_eq!(s.register_irq(&mut idt, 0xABC0, &irq_regs(0x1FF)), ControlFlow::Break(Some(TerminationReason::MalformedArgument)));
}

fn two_thread_scheduler(p: &mut BitmapAllocator) -> (Scheduler, u64) {
    let mut s = Scheduler::new(0x1000);
    let mut proc = Process::new(3, "/bin/app".to_string(), 0);
    let (virt, _, _) = proc.allocate(p, 0x2000);
    proc.thread_ids.push(10);
    proc.thread_ids.push(11);
    s.add_process(proc);
    s.add_thread(thread(10, 3, ThreadState::Active));
    s.add_thread(thread(11, 3, ThreadState::Inactive));
    s.add_thread(thread(12, 4, ThreadState::Inactive));
    s.current_tid = Some(10);
    s.current_pid = Some(3);
    (s, virt)
}

#[test]
fn current_process_is_the_running_one() {
    let mut p = pmm();
    let (mut s, _) = two_thread_scheduler(&mut p);
    assert_eq!(s.current_process().unwrap().id, 3);
    assert_eq!(s.current_process().unwrap().path, "/bin/app");
    s.current_pid = Some(9);
    assert!(s.current_process().is_none());
    s.current_pid = None;
    assert!(s.current_process().is_none());
}

#[test]
fn thread_teardown_keeps_a_process_with_threads_left() {
    let mut p = pmm();
    let (mut s, _) = two_thread_scheduler(&mut p);
    assert_eq!(p.free_pages, 254);
    assert_eq!(s.thread_teardown(&mut p), ControlFlow::Break(None));
    assert_eq!(s.current_tid, None);
    assert_eq!(s.current_pid, Some(3));
    assert!(s.thread(10).is_none());
    assert!(s.thread(11).is_some());
    assert_eq!(s.current_process().unwrap().thread_ids, vec![11]);
    assert_eq!(p.free_pages, 254);
}

#[test]
fn last_thread_teardown_ends_the_process() {
    let mut p = pmm();
    let (mut s, _) = two_thread_scheduler(&mut p);
    s.thread_teardown(&mut p);
    s.current_tid = Some(11);
    assert_eq!(s.thread_teardown(&mut p), ControlFlow::Break(None));
    assert_eq!(s.current_pid, None);
    assert!(s.thread(11).is_none());
    assert!(s.thread(12).is_some());
    s.current_pid = Some(3);
    assert!(s.current_process().is_none());
    assert_eq!(p.free_pages, 256);
    assert!(!p.is_allocated(0x20_1000, 1));
}

#[test]
fn process_teardown_ends_all_its_threads() {
    let mut p = pmm();
    let (mut s, _) = two_thread_scheduler(&mut p);
    s.process_teardown(&mut p);
    assert_eq!(s.current_tid, None);
    assert_eq!(s.current_pid, None);
    assert!(s.thread(10).is_none());
    assert!(s.thread(11).is_none());
    assert_eq!(s.thread(12).unwrap().pid, 4);
    assert_eq!(p.free_pages, 256);
    let mut regs = RegisterState::zeroed();
    assert_eq!(s.schedule(&mut regs, 0), Switch::Process { pid: 4 });
}

#[test]
fn irq_announcement_reaches_its_handler_and_is_acknowledged() {
    let mut idt = Idt::new(0xDEF0);
    let mut p = pmm();
    let (mut s, _) = ipc_scheduler(&mut p);
    s.current_pid = Some(2);
    assert_eq!(s.register_irq(&mut idt, 0xABC0, &irq_regs(1)), ControlFlow::Continue(()));
    s.current_pid = None;
    s.current_tid = None;
    let phys = p.alloc_pages(1).unwrap();
    let kernel_addr = phys + firework::pmm::PHYS_VIRT_OFFSET;
    let virt = phys + USER_PHYS_VIRT_OFFSET;
    let (flow, map) = s.irq_fired(&p, 1, kernel_addr, 2);
    assert_eq!(flow, ControlFlow::Break(None));
    assert_eq!(map, Some(PagingRequest::MapPages { virt, phys, count: 1, writable: false }));
    let woken = s.thread(20).unwrap();
    assert_eq!((woken.regs.rax, woken.regs.rdi, woken.regs.rsi, woken.regs.rdx), (1, 0, virt, 2));
    s.current_pid = Some(2);
    s.current_tid = Some(20);
    let mut regs = RegisterState::zeroed();
    regs.rsi = 1;
    let before = p.free_pages;
    let (flow, work) = s.ack(&mut p, &regs);
    assert_eq!(flow, ControlFlow::Continue(()));
    assert_eq!(work.unmask_irq_of, Some((virt, 2)));
    assert_eq!(work.unmap_owner, Some((2, PagingRequest::UnmapPages { virt, count: 1 })));
    assert_eq!(work.unmap_receiver, None);
    assert_eq!(p.free_pages, before + 1);
}

#[test]
fn irq_announcement_queues_when_the_handler_is_busy() {
    let mut idt = Idt::new(0xDEF0);
    let mut p = pmm();
    let (mut s, _) = ipc_scheduler(&mut p);
    s.current_pid = Some(1);
    assert_eq!(s.register_irq(&mut idt, 0xABC0, &irq_regs(3)), ControlFlow::Continue(()));
    let phys = p.alloc_pages(1).unwrap();
    let (flow, _) = s.irq_fired(&p, 3, phys + firework::pmm::PHYS_VIRT_OFFSET, 2);
    assert_eq!(flow, ControlFlow::Continue(()));
    let virt = phys + USER_PHYS_VIRT_OFFSET;
    assert_eq!(s.process(1).unwrap().messages, vec![QueuedMessage { id: 1, pid: 0, addr: virt, len: 2 }]);
}

#[test]
fn allocation_calls_of_the_running_process() {
    let mut p = pmm();
    let (mut s, data) = ipc_scheduler(&mut p);
    let mut regs = RegisterState::zeroed();
    regs.rsi = 0x1001;
    let (flow, map) = s.allocate(&mut p, &mut regs);
    assert_eq!(flow, ControlFlow::Continue(()));
    let virt = 0x20_3000 + USER_PHYS_VIRT_OFFSET;
    assert_eq!(regs.rax, virt);
    assert_eq!(map, PagingRequest::MapPages { virt, phys: 0x20_3000, count: 2, writable: true });
    assert_eq!(p.free_pages, 252);
    regs.rsi = data;
    let (flow, unmap) = s.free(&mut p, &regs);
    assert_eq!(flow, ControlFlow::Continue(()));
    assert_eq!(unmap, Some(PagingRequest::UnmapPages { virt: data, count: 2 }));
    assert_eq!(p.free_pages, 254);
    assert!(!p.is_allocated(0x20_1000, 1));
}

#[test]
fn printing_needs_utf8() {
    assert_eq!(firework::scheduler::kprint(b"hello\n"), ControlFlow::Continue(()));
    assert_eq!(firework::scheduler::kprint("h\u{e9}".as_bytes()), ControlFlow::Continue(()));
    assert_eq!(
        firework::scheduler::kprint(&[0x68, 0xFF]),
        ControlFlow::Break(Some(TerminationReason::MalformedBody))
    );
    assert_eq!(
        firework::scheduler::kprint_outcome(false),
        ControlFlow::Break(Some(TerminationReason::MalformedBody))
    );
}

#[test]
fn forgetting_a_thread_keeps_the_others_in_order() {
    let mut proc = Process::new(1, "/bin/app".to_string(), 0);
    proc.thread_ids = vec![4, 7, 9, 7];
    proc.forget_thread(7);
    assert_eq!(proc.thread_ids, vec![4, 9]);
    proc.forget_thread(5);
    assert_eq!(proc.thread_ids, vec![4, 9]);
    assert_eq!(proc.id, 1);
}

#[test]
fn finishing_a_call_resumes_switches_or_ends_the_caller() {
    let mut p = pmm();
    let (mut s, _) = two_thread_scheduler(&mut p);
    assert!(!s.finish_call(&mut p, ControlFlow::Continue(())));
    assert_eq!(s.current_pid, Some(3));
    assert!(s.finish_call(&mut p, ControlFlow::Break(None)));
    assert_eq!(s.current_pid, Some(3));
    assert!(s.thread(10).is_some());
    assert!(s.finish_call(&mut p, ControlFlow::Break(Some(TerminationReason::MalformedArgument))));
    assert_eq!(s.current_pid, None);
    assert!(s.process(3).is_none());
    assert!(s.thread(10).is_none());
    assert!(s.thread(11).is_none());
    assert_eq!(p.free_pages, 256);
}

#[test]
fn id_generator_hands_out_fresh_ids_and_reuses_freed_ones() {
    let mut g = firework::ids::IdGen::new();
    assert_eq!(g.next(), 1);
    assert_eq!(g.next(), 2);
    assert_eq!(g.next(), 3);
    g.free(2);
    g.free(1);
    assert_eq!(g.next(), 1);
    assert_eq!(g.next(), 2);
    assert_eq!(g.next(), 4);
    assert!(!g.is_exhausted());
}
