//! The process and thread tables of the kernel and the system calls that
//! work on them: round-robin scheduling, message passing between
//! processes and from the kernel, IRQ registration, memory requests,
//! process creation, and the ending of threads and processes.
//!
//! Threads are kept in a hash table keyed by thread id. The scheduler
//! walks the table in the table's own order, which the table does not fix;
//! what is stated of a scheduling decision holds for whatever order the
//! walk takes. Processes, threads and messages take their ids from one
//! generator each, and give them back when they end.

use vstd::prelude::*;
use core::ops::ControlFlow;
use crate::allocations::{page_count, releasable};
use crate::gdt::PrivilegeLevel;
use crate::ids::IdGen;
use crate::idt::{Entry, Idt, InterruptHandler, IDT_ENTRIES};
use crate::kernel::{is_valid_utf8, utf8_valid};
use crate::loader::{entry_point, load_executable, relocate_executable, spec_load, spec_relocate, ElfHeader, LoadError};
use crate::maps::{
    process_table_contents, thread_table_contents, u64_table_contents, walk_keys, ProcessTable,
    ThreadTable, U64Table,
};
use crate::pmm::{
    alloc_free_after, alloc_next_after, alloc_outcome, alloc_pages_after, lemma_alloc_pages_fresh,
    BitmapAllocator, PHYS_VIRT_OFFSET,
};
use crate::proc::{Thread, ThreadState, STACK_SIZE};
use crate::process::{
    all_releasable, all_released, backed, law_messages_stay_consistent, msgs_consistent, released,
    same_but_threads, same_identity, unmap_request, PagingRequest, Process, QueuedMessage,
};
use crate::regs::RegisterState;
use crate::syscall::USER_PHYS_VIRT_OFFSET;

verus! {

/// The scheduler's processes and threads and what runs.
pub struct Scheduler {
    /// Process id to process.
    pub processes: ProcessTable,
    /// Thread id to thread.
    pub threads: ThreadTable,
    /// IRQ number to the process that handles it.
    pub irq_handlers: U64Table,
    /// Message id to the process that sent it (0 for the kernel).
    pub message_sources: U64Table,
    /// The ids of processes.
    pub pid_gen: IdGen,
    /// The ids of threads.
    pub tid_gen: IdGen,
    /// The ids of messages.
    pub msg_gen: IdGen,
    pub current_tid: Option<u64>,
    pub current_pid: Option<u64>,
    /// The top of the kernel stack the idle loop runs on.
    pub kern_stack_top: u64,
}

/// What the processor runs after a scheduling decision.
#[derive(Debug, Clone, Copy, PartialEq, Eq, Structural)]
pub enum Switch {
    /// The kernel's idle loop, in the kernel's address space.
    Idle,
    /// A thread of process `pid`, in that process's address space.
    Process { pid: u64 },
}

/// Why the kernel ends a process.
#[derive(Debug, Clone, Copy, PartialEq, Eq, Structural)]
pub enum TerminationReason {
    /// An argument of a system call is out of range.
    MalformedArgument,
    /// What the call would create exists already.
    AlreadyExists,
    /// What the call names does not exist.
    NotFound,
    /// The data handed to the call is malformed.
    MalformedBody,
}

/// The flow of a print call once its text is known to be UTF-8 or not:
/// text that is not is a malformed body, for which the caller is ended.
pub fn kprint_outcome(valid_utf8: bool) -> (r: ControlFlow<Option<TerminationReason>>)
    ensures
        r == if valid_utf8 {
            ControlFlow::<Option<TerminationReason>>::Continue(())
        } else {
            ControlFlow::<Option<TerminationReason>>::Break(Some(TerminationReason::MalformedBody))
        },
{
    if valid_utf8 {
        ControlFlow::Continue(())
    } else {
        ControlFlow::Break(Some(TerminationReason::MalformedBody))
    }
}

/// The print call on `text`: on `Continue` the caller writes the text to
/// the serial port and the terminal.
pub fn kprint(text: &[u8]) -> (r: ControlFlow<Option<TerminationReason>>)
    ensures
        r == if is_valid_utf8(text@) {
            ControlFlow::<Option<TerminationReason>>::Continue(())
        } else {
            ControlFlow::<Option<TerminationReason>>::Break(Some(TerminationReason::MalformedBody))
        },
{
    kprint_outcome(utf8_valid(text))
}

/// `s1` has the processes, IRQ handlers, message senders and kernel stack of `s0`.
pub open spec fn keeps_registries(s0: Scheduler, s1: Scheduler) -> bool {
    &&& s1.processes == s0.processes
    &&& s1.irq_handlers == s0.irq_handlers
    &&& s1.message_sources == s0.message_sources
    &&& s1.pid_gen == s0.pid_gen
    &&& s1.tid_gen == s0.tid_gen
    &&& s1.msg_gen == s0.msg_gen
    &&& s1.kern_stack_top == s0.kern_stack_top
}

/// Whether `order` is a walk of the table `m`: each entry once.
pub open spec fn is_walk(m: Map<u64, Thread>, order: Seq<(u64, Thread)>) -> bool {
    &&& walk_keys(order).no_duplicates()
    &&& walk_keys(order).to_set() == m.dom()
    &&& forall|i: int|
        0 <= i < order.len() ==> m.contains_key(#[trigger] order[i].0) && m[order[i].0] == order[i].1
}

/// The position, from `i` on, of the first thread of a walk that may run.
pub open spec fn first_inactive(order: Seq<(u64, Thread)>, i: int) -> Option<int>
    decreases order.len() - i,
{
    if i < 0 || i >= order.len() {
        None
    } else if order[i].1.state == ThreadState::Inactive {
        Some(i)
    } else {
        first_inactive(order, i + 1)
    }
}

/// Where the search for the next thread starts: the position given by the
/// current thread's id plus one, or 0 when nothing runs or that lies past
/// the end of the walk.
pub open spec fn search_start(current_tid: Option<u64>, len: int) -> int {
    let i = match current_tid {
        Some(t) => (t + 1) as usize as int,
        None => 0,
    };
    if i > len {
        0
    } else {
        i
    }
}

/// The position in a walk of the thread to run next.
pub open spec fn spec_pick_next(order: Seq<(u64, Thread)>, current_tid: Option<u64>) -> Option<int> {
    first_inactive(order, search_start(current_tid, order.len() as int))
}

/// The registers of the idle loop: at `idle_rip` on the kernel stack, in
/// the kernel code and data segments, interrupts enabled.
pub open spec fn idle_regs(idle_rip: u64, kern_stack_top: u64) -> RegisterState {
    RegisterState {
        rip: idle_rip,
        cs: 8,
        rflags: 0x202,
        rsp: kern_stack_top,
        ss: 16,
        ..RegisterState::spec_zeroed()
    }
}

/// The interrupted thread saved: it keeps the registers it was interrupted
/// with, and becomes inactive unless it waits for a message.
pub open spec fn saved_thread(t: Thread, regs: RegisterState) -> Thread {
    Thread {
        regs,
        state: if t.state == ThreadState::Suspended {
            ThreadState::Suspended
        } else {
            ThreadState::Inactive
        },
        ..t
    }
}

/// The table after the running thread, if it is in the table, is saved.
pub open spec fn saved_table(m: Map<u64, Thread>, current_tid: Option<u64>, regs: RegisterState) -> Map<u64, Thread> {
    match current_tid {
        Some(t) => if m.contains_key(t) {
            m.insert(t, saved_thread(m[t], regs))
        } else {
            m
        },
        None => m,
    }
}

/// What `schedule` does for the walk `order` of the saved table: the next
/// thread that may run becomes active and current and its registers are
/// loaded, or, with none, the idle loop runs and nothing is current.
pub open spec fn scheduled_along(
    s0: Scheduler,
    s1: Scheduler,
    st0: RegisterState,
    st1: RegisterState,
    idle_rip: u64,
    r: Switch,
    order: Seq<(u64, Thread)>,
) -> bool {
    let saved = saved_table(s0.table(), s0.current_tid, st0);
    &&& is_walk(saved, order)
    &&& keeps_registries(s0, s1)
    &&& match spec_pick_next(order, s0.current_tid) {
        None => {
            &&& r == Switch::Idle
            &&& st1 == idle_regs(idle_rip, s0.kern_stack_top)
            &&& s1.table() == saved
            &&& s1.current_tid is None
            &&& s1.current_pid is None
        },
        Some(n) => {
            let (k, t) = order[n];
            &&& r == Switch::Process { pid: t.pid }
            &&& st1 == t.regs
            &&& s1.table() == saved.insert(k, Thread { state: ThreadState::Active, ..t })
            &&& s1.current_tid == Some(t.id)
            &&& s1.current_pid == Some(t.pid)
        },
    }
}

/// What `schedule` does, for the walk the table took.
pub open spec fn scheduled(
    s0: Scheduler,
    s1: Scheduler,
    st0: RegisterState,
    st1: RegisterState,
    idle_rip: u64,
    r: Switch,
) -> bool {
    exists|order: Seq<(u64, Thread)>| scheduled_along(s0, s1, st0, st1, idle_rip, r, order)
}

/// Every thread is filed under its own id.
pub open spec fn keyed_by_id(m: Map<u64, Thread>) -> bool {
    forall|k: u64| #[trigger] m.contains_key(k) ==> m[k].id == k
}

/// Only the current thread may be active.
pub open spec fn active_is_current(m: Map<u64, Thread>, current_tid: Option<u64>) -> bool {
    forall|k: u64|
        #[trigger] m.contains_key(k) && m[k].state == ThreadState::Active ==> current_tid == Some(k)
}

proof fn lemma_first_inactive_range(order: Seq<(u64, Thread)>, i: int)
    ensures
        match first_inactive(order, i) {
            Some(j) => 0 <= j < order.len() && order[j].1.state == ThreadState::Inactive,
            None => true,
        },
    decreases order.len() - i,
{
    if 0 <= i < order.len() && order[i].1.state != ThreadState::Inactive {
        lemma_first_inactive_range(order, i + 1);
    }
}

/// Scheduling keeps at most one thread active, the current one, and the
/// thread it switches to is active.
pub proof fn law_schedule_keeps_one_active(
    s0: Scheduler,
    s1: Scheduler,
    st0: RegisterState,
    st1: RegisterState,
    idle_rip: u64,
    r: Switch,
)
    requires
        keyed_by_id(s0.table()),
        active_is_current(s0.table(), s0.current_tid),
        scheduled(s0, s1, st0, st1, idle_rip, r),
    ensures
        keyed_by_id(s1.table()),
        active_is_current(s1.table(), s1.current_tid),
        s1.current_tid matches Some(t) ==> s1.table().contains_key(t) && s1.table()[t].state
            == ThreadState::Active,
{
    let order = choose|order: Seq<(u64, Thread)>| scheduled_along(s0, s1, st0, st1, idle_rip, r, order);
    let m = s0.table();
    let saved = saved_table(m, s0.current_tid, st0);
    assert forall|k: u64| #[trigger] saved.contains_key(k) implies saved[k].id == k
        && saved[k].state != ThreadState::Active by {
        assert(m.contains_key(k));
    }
    match spec_pick_next(order, s0.current_tid) {
        None => {},
        Some(n) => {
            lemma_first_inactive_range(order, search_start(s0.current_tid, order.len() as int));
            let (k, t) = order[n];
            assert(saved.contains_key(k) && saved[k] == t);
            let m1 = s1.table();
            assert forall|q: u64| #[trigger] m1.contains_key(q) && m1[q].state == ThreadState::Active
                implies s1.current_tid == Some(q) by {
                if q != k {
                    assert(saved.contains_key(q));
                }
            }
        },
    }
}

/// The registers of a thread that is handed message `m`.
pub open spec fn with_message(regs: RegisterState, m: QueuedMessage) -> RegisterState {
    RegisterState { rax: m.id, rdi: m.pid, rsi: m.addr, rdx: m.len, ..regs }
}

/// The position in `tids`, from `i` on, of the first thread that waits for a message.
pub open spec fn first_waiting(m: Map<u64, Thread>, tids: Seq<u64>, i: int) -> Option<int>
    decreases tids.len() - i,
{
    if i < 0 || i >= tids.len() {
        None
    } else if m.contains_key(tids[i]) && m[tids[i]].state == ThreadState::Suspended {
        Some(i)
    } else {
        first_waiting(m, tids, i + 1)
    }
}

/// What handing message `msg` to process `pid`, whose threads are `tids`,
/// does: the first of them that waits gets the message in its registers
/// and may run again, and when nothing ran the caller is to reschedule;
/// with none waiting, the message goes to the front of the process's queue.
pub open spec fn delivered(
    s0: Scheduler,
    s1: Scheduler,
    pid: u64,
    tids: Seq<u64>,
    msg: QueuedMessage,
    r: ControlFlow<Option<TerminationReason>>,
) -> bool {
    let p0 = s0.procs()[pid];
    match first_waiting(s0.table(), tids, 0) {
        Some(k) => {
            let t = s0.table()[tids[k]];
            &&& s1 == (Scheduler { threads: s1.threads, ..s0 })
            &&& s1.table() == s0.table().insert(
                tids[k],
                Thread { state: ThreadState::Inactive, regs: with_message(t.regs, msg), ..t },
            )
            &&& r == if s0.current_tid is None {
                ControlFlow::<Option<TerminationReason>>::Break(None)
            } else {
                ControlFlow::<Option<TerminationReason>>::Continue(())
            }
        },
        None => {
            &&& s1 == (Scheduler { processes: s1.processes, ..s0 })
            &&& s1.procs() == s0.procs().insert(pid, Process { messages: s1.procs()[pid].messages, ..p0 })
            &&& s1.procs()[pid].messages@ == p0.messages@.insert(0, msg)
            &&& r == ControlFlow::<Option<TerminationReason>>::Continue(())
        },
    }
}

/// What a receive does for the running process: the oldest message of its
/// queue (the last) leaves the queue and comes back in the registers; with
/// none, the running thread waits and the caller is to reschedule.
pub open spec fn received(
    s0: Scheduler,
    s1: Scheduler,
    st0: RegisterState,
    st1: RegisterState,
    r: ControlFlow<Option<TerminationReason>>,
) -> bool {
    let pid = s0.current_pid.unwrap();
    let p0 = s0.procs()[pid];
    let q0 = p0.messages@;
    if q0.len() > 0 {
        &&& r == ControlFlow::<Option<TerminationReason>>::Continue(())
        &&& st1 == with_message(st0, q0.last())
        &&& s1 == (Scheduler { processes: s1.processes, ..s0 })
        &&& s1.procs() == s0.procs().insert(pid, Process { messages: s1.procs()[pid].messages, ..p0 })
        &&& s1.procs()[pid].messages@ == q0.drop_last()
    } else {
        let t = s0.current_tid.unwrap();
        &&& r == ControlFlow::<Option<TerminationReason>>::Break(None)
        &&& st1 == st0
        &&& s1 == (Scheduler { threads: s1.threads, ..s0 })
        &&& s1.table() == s0.table().insert(t, Thread { state: ThreadState::Suspended, ..s0.table()[t] })
    }
}

/// A message handed to a process whose threads are all busy and whose
/// queue is empty is what its next receive gets, and the queue is empty
/// again; neither step asks to reschedule.
pub proof fn law_queued_message_received(
    s0: Scheduler,
    s1: Scheduler,
    s2: Scheduler,
    pid: u64,
    tids: Seq<u64>,
    msg: QueuedMessage,
    r1: ControlFlow<Option<TerminationReason>>,
    st0: RegisterState,
    st1: RegisterState,
    r2: ControlFlow<Option<TerminationReason>>,
)
    requires
        s0.procs().contains_key(pid),
        s0.procs()[pid].messages@.len() == 0,
        s0.current_pid == Some(pid),
        first_waiting(s0.table(), tids, 0) is None,
        delivered(s0, s1, pid, tids, msg, r1),
        received(s1, s2, st0, st1, r2),
    ensures
        st1 == with_message(st0, msg),
        s2.procs()[pid].messages@.len() == 0,
        r1 == ControlFlow::<Option<TerminationReason>>::Continue(()),
        r2 == ControlFlow::<Option<TerminationReason>>::Continue(()),
{
    assert(s1.procs()[pid].messages@ =~= seq![msg]);
}

/// The running process after it marks its allocation at `addr` as the data
/// of message `id`, which the kernel records as sent by it.
pub open spec fn marked_sent(s0: Scheduler, s1: Scheduler, id: u64, addr: u64) -> bool {
    let src = s0.current_pid.unwrap();
    let p0 = s0.procs()[src];
    let p1 = s1.procs()[src];
    &&& s1 == (Scheduler {
        processes: s1.processes,
        message_sources: s1.message_sources,
        msg_gen: s1.msg_gen,
        ..s0
    })
    &&& s1.msg_gen.wf()
    &&& s1.msg_gen.live() == s0.msg_gen.live().insert(id)
    &&& s1.sources() == s0.sources().insert(id, src)
    &&& s1.procs() == s0.procs().insert(src, p1)
    &&& p1.allocs() == p0.allocs()
    &&& p1.msg_addrs() == p0.msg_addrs().insert(id, addr)
    &&& p1.msg_ids() == p0.msg_ids().insert(addr, id)
    &&& same_identity(p0, p1)
}

/// What `send` does with the registers `st` and the message id `id` the
/// generator hands out, which the generator then holds:
/// the running process sends the `rcx` bytes of its allocation at `rdx` to
/// the process in `rsi`. The data is marked as the message's; another
/// process gets it mapped read-only at the same address and is handed the
/// message, while a message to itself only joins its queue. An unknown
/// receiver is not found.
pub open spec fn sent(
    s0: Scheduler,
    s1: Scheduler,
    st: RegisterState,
    id: u64,
    r: ControlFlow<Option<TerminationReason>>,
    map: Option<PagingRequest>,
) -> bool {
    let src = s0.current_pid.unwrap();
    let target = st.rsi;
    let msg = QueuedMessage { id, pid: src, addr: st.rdx, len: st.rcx };
    if !s0.procs().contains_key(target) {
        &&& s1 == s0
        &&& r == ControlFlow::<Option<TerminationReason>>::Break(Some(TerminationReason::NotFound))
        &&& map is None
    } else {
        exists|mid: Scheduler|
            {
                &&& #[trigger] marked_sent(s0, mid, id, st.rdx)
                &&& if target != src {
                    &&& map == Some(
                        PagingRequest::MapPages {
                            virt: st.rdx,
                            phys: (st.rdx - USER_PHYS_VIRT_OFFSET) as u64,
                            count: page_count(st.rcx) as u64,
                            writable: false,
                        },
                    )
                    &&& delivered(mid, s1, target, mid.procs()[target].thread_ids@, msg, r)
                } else {
                    &&& map is None
                    &&& delivered(mid, s1, src, Seq::empty(), msg, r)
                }
            }
    }
}

/// A message sent under a fresh id to another process and then
/// acknowledged by the receiver leaves the kernel's record of senders and
/// the sender's message bookkeeping as they were before the send, frees
/// the data, and asks the receiver to unmap it.
pub proof fn law_send_then_ack(
    s0: Scheduler,
    s1: Scheduler,
    s1b: Scheduler,
    s2: Scheduler,
    st: RegisterState,
    id: u64,
    r1: ControlFlow<Option<TerminationReason>>,
    map: Option<PagingRequest>,
    p0: BitmapAllocator,
    p1: BitmapAllocator,
    st2: RegisterState,
    r2: ControlFlow<Option<TerminationReason>>,
    work: AckWork,
)
    requires
        s0.current_pid matches Some(src) && src != 0 && src != st.rsi && s0.procs().contains_key(src),
        s0.procs().contains_key(st.rsi),
        !s0.sources().contains_key(id),
        !s0.procs()[s0.current_pid.unwrap()].msg_addrs().contains_key(id),
        !s0.procs()[s0.current_pid.unwrap()].msg_ids().contains_key(st.rdx),
        s0.procs()[s0.current_pid.unwrap()].allocs().contains_key(st.rdx),
        sent(s0, s1, st, id, r1, map),
        s1b.processes == s1.processes,
        s1b.message_sources == s1.message_sources,
        s1b.current_pid == Some(st.rsi),
        st2.rsi == id,
        acked(s1b, s2, p0, p1, st2, r2, work),
    ensures
        ({
            let src = s0.current_pid.unwrap();
            let size = s0.procs()[src].allocs()[st.rdx].0;
            &&& r2 == ControlFlow::<Option<TerminationReason>>::Continue(())
            &&& s2.sources() == s0.sources()
            &&& s2.procs()[src].allocs() == s0.procs()[src].allocs().remove(st.rdx)
            &&& s2.procs()[src].msg_addrs() == s0.procs()[src].msg_addrs()
            &&& s2.procs()[src].msg_ids() == s0.procs()[src].msg_ids()
            &&& released(p0, p1, st.rdx, size)
            &&& work.unmask_irq_of is None
            &&& work.unmap_receiver == Some(
                PagingRequest::UnmapPages { virt: st.rdx, count: page_count(size) as u64 },
            )
        }),
{
    let src = s0.current_pid.unwrap();
    let target = st.rsi;
    let msg = QueuedMessage { id, pid: src, addr: st.rdx, len: st.rcx };
    let mid = choose|mid: Scheduler|
        {
            &&& #[trigger] marked_sent(s0, mid, id, st.rdx)
            &&& if target != src {
                &&& map == Some(
                    PagingRequest::MapPages {
                        virt: st.rdx,
                        phys: (st.rdx - USER_PHYS_VIRT_OFFSET) as u64,
                        count: page_count(st.rcx) as u64,
                        writable: false,
                    },
                )
                &&& delivered(mid, s1, target, mid.procs()[target].thread_ids@, msg, r1)
            } else {
                &&& map is None
                &&& delivered(mid, s1, src, Seq::empty(), msg, r1)
            }
        };
    assert(s1.procs()[src] == mid.procs()[src]);
    assert(s1.sources() == s0.sources().insert(id, src));
    assert(s1b.sources()[id] == src);
    assert(s2.sources() =~= s0.sources());
    assert(s2.procs()[src].msg_addrs() =~= s0.procs()[src].msg_addrs());
    assert(s2.procs()[src].msg_ids() =~= s0.procs()[src].msg_ids());
}

/// The user address at which process memory at kernel address `addr` is seen.
pub open spec fn user_view(addr: u64) -> u64 {
    (addr - PHYS_VIRT_OFFSET + USER_PHYS_VIRT_OFFSET) as u64
}

/// Process `pid` after it comes to own, read-only, the `len` bytes at
/// user address `virt` as the data of message `id` from the kernel.
pub open spec fn announced(s0: Scheduler, s1: Scheduler, pid: u64, id: u64, virt: u64, len: u64) -> bool {
    let p0 = s0.procs()[pid];
    let p1 = s1.procs()[pid];
    &&& s1 == (Scheduler {
        processes: s1.processes,
        message_sources: s1.message_sources,
        msg_gen: s1.msg_gen,
        ..s0
    })
    &&& s1.msg_gen.wf()
    &&& s1.msg_gen.live() == s0.msg_gen.live().insert(id)
    &&& s1.sources() == s0.sources().insert(id, 0)
    &&& s1.procs() == s0.procs().insert(pid, p1)
    &&& p1.allocs() == p0.allocs().insert(virt, (len, true))
    &&& p1.msg_addrs() == p0.msg_addrs().insert(id, virt)
    &&& p1.msg_ids() == p0.msg_ids().insert(virt, id)
    &&& same_identity(p0, p1)
}

/// What `irq_fired` does when IRQ `irq` fires and the kernel has written
/// the message announcing it, `len` bytes, at kernel address `addr`: the
/// process handling the IRQ comes to own those bytes read-only, they become
/// the data of message `id` from the kernel, and the message is handed to
/// the process. The result asks for the mapping of the bytes into the
/// process's address space.
pub open spec fn irq_delivered(
    s0: Scheduler,
    s1: Scheduler,
    irq: u8,
    id: u64,
    addr: u64,
    len: u64,
    r: ControlFlow<Option<TerminationReason>>,
    map: Option<PagingRequest>,
) -> bool {
    let pid = s0.irqs()[irq as u64];
    let virt = user_view(addr);
    let msg = QueuedMessage { id, pid: 0, addr: virt, len };
    &&& map == Some(
        PagingRequest::MapPages {
            virt,
            phys: (addr - PHYS_VIRT_OFFSET) as u64,
            count: page_count(len) as u64,
            writable: false,
        },
    )
    &&& exists|mid: Scheduler|
        #[trigger] announced(s0, mid, pid, id, virt, len) && delivered(
            mid,
            s1,
            pid,
            mid.procs()[pid].thread_ids@,
            msg,
            r,
        )
}

/// An IRQ announced to its handler and then acknowledged by it leaves the
/// kernel's record of senders and the handler's allocations and message
/// bookkeeping as they were before, and the acknowledgement names the
/// announcement's bytes, from which the IRQ to unmask is read.
pub proof fn law_irq_announcement_acked(
    s0: Scheduler,
    s1: Scheduler,
    s1b: Scheduler,
    s2: Scheduler,
    irq: u8,
    id: u64,
    addr: u64,
    len: u64,
    r1: ControlFlow<Option<TerminationReason>>,
    map: Option<PagingRequest>,
    p0: BitmapAllocator,
    p1: BitmapAllocator,
    st2: RegisterState,
    r2: ControlFlow<Option<TerminationReason>>,
    work: AckWork,
)
    requires
        s0.irqs().contains_key(irq as u64),
        s0.procs().contains_key(s0.irqs()[irq as u64]),
        !s0.sources().contains_key(id),
        !s0.procs()[s0.irqs()[irq as u64]].allocs().contains_key(user_view(addr)),
        !s0.procs()[s0.irqs()[irq as u64]].msg_addrs().contains_key(id),
        !s0.procs()[s0.irqs()[irq as u64]].msg_ids().contains_key(user_view(addr)),
        irq_delivered(s0, s1, irq, id, addr, len, r1, map),
        s1b.processes == s1.processes,
        s1b.message_sources == s1.message_sources,
        s1b.current_pid == Some(s0.irqs()[irq as u64]),
        st2.rsi == id,
        acked(s1b, s2, p0, p1, st2, r2, work),
    ensures
        ({
            let pid = s0.irqs()[irq as u64];
            let virt = user_view(addr);
            &&& r2 == ControlFlow::<Option<TerminationReason>>::Continue(())
            &&& work.unmask_irq_of == Some((virt, len))
            &&& work.unmap_owner == Some((pid, PagingRequest::UnmapPages { virt, count: page_count(len) as u64 }))
            &&& work.unmap_receiver is None
            &&& s2.sources() == s0.sources()
            &&& s2.procs()[pid].allocs() == s0.procs()[pid].allocs()
            &&& s2.procs()[pid].msg_addrs() == s0.procs()[pid].msg_addrs()
            &&& s2.procs()[pid].msg_ids() == s0.procs()[pid].msg_ids()
        }),
{
    let pid = s0.irqs()[irq as u64];
    let virt = user_view(addr);
    let msg = QueuedMessage { id, pid: 0, addr: virt, len };
    let mid = choose|mid: Scheduler|
        #[trigger] announced(s0, mid, pid, id, virt, len) && delivered(
            mid,
            s1,
            pid,
            mid.procs()[pid].thread_ids@,
            msg,
            r1,
        );
    assert(s1.procs()[pid].allocations == mid.procs()[pid].allocations);
    assert(s1.procs()[pid].msg_id_to_addr == mid.procs()[pid].msg_id_to_addr);
    assert(s1.procs()[pid].addr_to_msg_id == mid.procs()[pid].addr_to_msg_id);
    assert(s1b.sources()[id] == 0);
    assert(s2.sources() =~= s0.sources());
    assert(s2.procs()[pid].allocs() =~= s0.procs()[pid].allocs());
    assert(s2.procs()[pid].msg_addrs() =~= s0.procs()[pid].msg_addrs());
    assert(s2.procs()[pid].msg_ids() =~= s0.procs()[pid].msg_ids());
}

/// The message id generator keeps its invariant and holds the id of every
/// message whose sender the kernel records.
pub open spec fn ids_tracked(s: Scheduler) -> bool {
    &&& s.msg_gen.wf()
    &&& forall|id: u64| #[trigger] s.sources().contains_key(id) ==> s.msg_gen.live().contains(id)
}

/// While the generator holds every recorded message id, the id the next
/// message is sent under is one no recorded message has, and which the
/// sender's bookkeeping does not hold when it only holds recorded ids.
pub proof fn law_next_message_id_fresh(s: Scheduler, pid: u64)
    requires
        ids_tracked(s),
    ensures
        !s.sources().contains_key(s.msg_gen.spec_next()),
        s.msg_gen.spec_next() != 0,
        s.procs().contains_key(pid) && (forall|i: u64|
            #[trigger] s.procs()[pid].msg_addrs().contains_key(i) ==> s.sources().contains_key(i))
            ==> !s.procs()[pid].msg_addrs().contains_key(s.msg_gen.spec_next()),
{
    s.msg_gen.lemma_next_fresh();
}

/// In every process, message ids and the addresses of their data
/// correspond one to one, and every message's data is an allocation.
pub open spec fn messages_consistent(s: Scheduler) -> bool {
    forall|q: u64|
        #[trigger] s.procs().contains_key(q) ==> msgs_consistent(
            s.procs()[q].allocs(),
            s.procs()[q].msg_addrs(),
            s.procs()[q].msg_ids(),
        )
}

/// Handing a message to a process keeps every process's message
/// bookkeeping as it was.
proof fn lemma_delivered_keeps_bookkeeping(
    s0: Scheduler,
    s1: Scheduler,
    pid: u64,
    tids: Seq<u64>,
    msg: QueuedMessage,
    r: ControlFlow<Option<TerminationReason>>,
)
    requires
        s0.procs().contains_key(pid),
        delivered(s0, s1, pid, tids, msg, r),
    ensures
        s1.procs().dom() == s0.procs().dom(),
        forall|q: u64|
            #[trigger] s0.procs().contains_key(q) ==> s1.procs()[q].allocations == s0.procs()[q].allocations
                && s1.procs()[q].msg_id_to_addr == s0.procs()[q].msg_id_to_addr
                && s1.procs()[q].addr_to_msg_id == s0.procs()[q].addr_to_msg_id,
{
    if first_waiting(s0.table(), tids, 0) is None {
        assert(s1.procs().dom() =~= s0.procs().dom());
    }
}

/// Sending a message under a fresh id, with data that carries no other
/// message, keeps message ids and data in correspondence in every process.
pub proof fn law_send_keeps_messages_consistent(
    s0: Scheduler,
    s1: Scheduler,
    st: RegisterState,
    id: u64,
    r: ControlFlow<Option<TerminationReason>>,
    map: Option<PagingRequest>,
)
    requires
        messages_consistent(s0),
        s0.current_pid matches Some(src) && s0.procs().contains_key(src),
        s0.procs().contains_key(st.rsi),
        s0.procs()[s0.current_pid.unwrap()].allocs().contains_key(st.rdx),
        !s0.procs()[s0.current_pid.unwrap()].msg_addrs().contains_key(id),
        !s0.procs()[s0.current_pid.unwrap()].msg_ids().contains_key(st.rdx),
        sent(s0, s1, st, id, r, map),
    ensures
        messages_consistent(s1),
{
    let src = s0.current_pid.unwrap();
    let target = st.rsi;
    let msg = QueuedMessage { id, pid: src, addr: st.rdx, len: st.rcx };
    let mid = choose|mid: Scheduler|
        {
            &&& #[trigger] marked_sent(s0, mid, id, st.rdx)
            &&& if target != src {
                &&& map == Some(
                    PagingRequest::MapPages {
                        virt: st.rdx,
                        phys: (st.rdx - USER_PHYS_VIRT_OFFSET) as u64,
                        count: page_count(st.rcx) as u64,
                        writable: false,
                    },
                )
                &&& delivered(mid, s1, target, mid.procs()[target].thread_ids@, msg, r)
            } else {
                &&& map is None
                &&& delivered(mid, s1, src, Seq::empty(), msg, r)
            }
        };
    let p0 = s0.procs()[src];
    law_messages_stay_consistent(p0.allocs(), p0.msg_addrs(), p0.msg_ids(), id, st.rdx);
    assert(messages_consistent(mid));
    if target != src {
        lemma_delivered_keeps_bookkeeping(mid, s1, target, mid.procs()[target].thread_ids@, msg, r);
    } else {
        lemma_delivered_keeps_bookkeeping(mid, s1, src, Seq::empty(), msg, r);
    }
    assert forall|q: u64| #[trigger] s1.procs().contains_key(q) implies msgs_consistent(
        s1.procs()[q].allocs(),
        s1.procs()[q].msg_addrs(),
        s1.procs()[q].msg_ids(),
    ) by {
        assert(mid.procs().contains_key(q));
    }
}

/// Announcing an IRQ under a fresh message id, in bytes the handler does
/// not own yet, keeps message ids and data in correspondence in every
/// process.
pub proof fn law_irq_keeps_messages_consistent(
    s0: Scheduler,
    s1: Scheduler,
    irq: u8,
    id: u64,
    addr: u64,
    len: u64,
    r: ControlFlow<Option<TerminationReason>>,
    map: Option<PagingRequest>,
)
    requires
        messages_consistent(s0),
        s0.irqs().contains_key(irq as u64),
        s0.procs().contains_key(s0.irqs()[irq as u64]),
        !s0.procs()[s0.irqs()[irq as u64]].allocs().contains_key(user_view(addr)),
        !s0.procs()[s0.irqs()[irq as u64]].msg_addrs().contains_key(id),
        irq_delivered(s0, s1, irq, id, addr, len, r, map),
    ensures
        messages_consistent(s1),
{
    let pid = s0.irqs()[irq as u64];
    let virt = user_view(addr);
    let msg = QueuedMessage { id, pid: 0, addr: virt, len };
    let mid = choose|mid: Scheduler|
        #[trigger] announced(s0, mid, pid, id, virt, len) && delivered(
            mid,
            s1,
            pid,
            mid.procs()[pid].thread_ids@,
            msg,
            r,
        );
    let p0 = s0.procs()[pid];
    let grown = p0.allocs().insert(virt, (len, true));
    assert(msgs_consistent(p0.allocs(), p0.msg_addrs(), p0.msg_ids()));
    assert(!p0.msg_ids().contains_key(virt)) by {
        if p0.msg_ids().contains_key(virt) {
            assert(p0.msg_addrs().contains_key(p0.msg_ids()[virt]));
            assert(p0.allocs().contains_key(p0.msg_addrs()[p0.msg_ids()[virt]]));
        }
    }
    assert(msgs_consistent(grown, p0.msg_addrs(), p0.msg_ids())) by {
        assert forall|i: u64| #[trigger] p0.msg_addrs().contains_key(i) implies grown.contains_key(
            p0.msg_addrs()[i],
        ) by {}
    }
    law_messages_stay_consistent(grown, p0.msg_addrs(), p0.msg_ids(), id, virt);
    assert(messages_consistent(mid));
    lemma_delivered_keeps_bookkeeping(mid, s1, pid, mid.procs()[pid].thread_ids@, msg, r);
    assert forall|q: u64| #[trigger] s1.procs().contains_key(q) implies msgs_consistent(
        s1.procs()[q].allocs(),
        s1.procs()[q].msg_addrs(),
        s1.procs()[q].msg_ids(),
    ) by {
        assert(mid.procs().contains_key(q));
    }
}

/// Acknowledging a message keeps message ids and data in correspondence in
/// every process.
pub proof fn law_ack_keeps_messages_consistent(
    s0: Scheduler,
    s1: Scheduler,
    p0: BitmapAllocator,
    p1: BitmapAllocator,
    st: RegisterState,
    r: ControlFlow<Option<TerminationReason>>,
    work: AckWork,
)
    requires
        messages_consistent(s0),
        s0.sources().contains_key(st.rsi) ==> {
            let src = s0.sources()[st.rsi];
            let owner = if src == 0 {
                s0.current_pid.unwrap()
            } else {
                src
            };
            &&& s0.procs().contains_key(owner)
            &&& s0.procs()[owner].msg_addrs().contains_key(st.rsi)
        },
        acked(s0, s1, p0, p1, st, r, work),
    ensures
        messages_consistent(s1),
{
    if s0.sources().contains_key(st.rsi) {
        let src = s0.sources()[st.rsi];
        let owner = if src == 0 {
            s0.current_pid.unwrap()
        } else {
            src
        };
        let po = s0.procs()[owner];
        law_messages_stay_consistent(po.allocs(), po.msg_addrs(), po.msg_ids(), st.rsi, 0);
        assert forall|q: u64| #[trigger] s1.procs().contains_key(q) implies msgs_consistent(
            s1.procs()[q].allocs(),
            s1.procs()[q].msg_addrs(),
            s1.procs()[q].msg_ids(),
        ) by {
            assert(s0.procs().contains_key(q));
        }
    }
}

/// What acknowledging a message leaves for the caller to do.
#[derive(Debug, Clone, Copy, PartialEq, Eq)]
pub struct AckWork {
    /// For a message from the kernel: the address and size of its data,
    /// which name the IRQ to unmask; to be read before anything else.
    pub unmask_irq_of: Option<(u64, u64)>,
    /// The process that owned the data, and the unmapping the freeing of
    /// the data asks for in its address space.
    pub unmap_owner: Option<(u64, PagingRequest)>,
    /// The unmapping in the receiver's address space, for data another
    /// process sent.
    pub unmap_receiver: Option<PagingRequest>,
}

/// What `ack` does with the registers `st`: the running process is done
/// with message `rsi`. The kernel forgets who sent it and the id goes back
/// to the message id generator, to be handed out next; the data, owned by
/// the sender, or by the receiver for a message from the kernel, is freed
/// into `p0`, giving `p1`. An unknown message is not found.
pub open spec fn acked(
    s0: Scheduler,
    s1: Scheduler,
    p0: BitmapAllocator,
    p1: BitmapAllocator,
    st: RegisterState,
    r: ControlFlow<Option<TerminationReason>>,
    work: AckWork,
) -> bool {
    let id = st.rsi;
    if !s0.sources().contains_key(id) {
        &&& s1 == s0
        &&& p1 == p0
        &&& r == ControlFlow::<Option<TerminationReason>>::Break(Some(TerminationReason::NotFound))
        &&& work == AckWork { unmask_irq_of: None, unmap_owner: None, unmap_receiver: None }
    } else {
        let src = s0.sources()[id];
        let cur = s0.current_pid.unwrap();
        let owner = if src == 0 { cur } else { src };
        let po = s0.procs()[owner];
        let po1 = s1.procs()[owner];
        let addr = po.msg_addrs()[id];
        let size = po.allocs()[addr].0;
        &&& r == ControlFlow::<Option<TerminationReason>>::Continue(())
        &&& s1 == (Scheduler {
            processes: s1.processes,
            message_sources: s1.message_sources,
            msg_gen: s1.msg_gen,
            ..s0
        })
        &&& s1.msg_gen.wf()
        &&& s1.msg_gen.live() == s0.msg_gen.live().remove(id)
        &&& s1.msg_gen.spec_next() == id
        &&& s1.sources() == s0.sources().remove(id)
        &&& s1.procs() == s0.procs().insert(owner, po1)
        &&& po1.allocs() == po.allocs().remove(addr)
        &&& po1.msg_addrs() == po.msg_addrs().remove(id)
        &&& po1.msg_ids() == po.msg_ids().remove(addr)
        &&& same_identity(po, po1)
        &&& released(p0, p1, addr, size)
        &&& work.unmask_irq_of == if src == 0 {
            Some((addr, size))
        } else {
            None
        }
        &&& work.unmap_owner == match unmap_request(addr, po.allocs()[addr]) {
            Some(u) => Some((owner, u)),
            None => None,
        }
        &&& work.unmap_receiver == if src != 0 && src != cur {
            Some(PagingRequest::UnmapPages { virt: addr, count: page_count(size) as u64 })
        } else {
            None
        }
    }
}

/// The position in the walk `order` of the next thread to run: the first
/// inactive thread at or after the position given by the current thread's
/// id plus one (from the start when nothing runs or that lies past the end).
pub fn pick_next(order: &Vec<(u64, Thread)>, current_tid: Option<u64>) -> (r: Option<usize>)
    requires
        current_tid matches Some(t) ==> t < u64::MAX,
    ensures
        match r {
            Some(j) => spec_pick_next(order@, current_tid) == Some(j as int),
            None => spec_pick_next(order@, current_tid) is None,
        },
{
    let mut i: usize = match current_tid {
        Some(t) => (t + 1) as usize,
        None => 0,
    };
    if i > order.len() {
        i = 0;
    }
    let ghost start = i as int;
    assert(start == search_start(current_tid, order@.len() as int));
    while i < order.len()
        invariant
            start <= i <= order@.len(),
            start == search_start(current_tid, order@.len() as int),
            first_inactive(order@, start) == first_inactive(order@, i as int),
        decreases order@.len() - i,
    {
        if order[i].1.state.is_inactive() {
            assert(first_inactive(order@, i as int) == Some(i as int));
            return Some(i);
        }
        i = i + 1;
    }
    None
}

impl Scheduler {
    /// Thread id to thread.
    pub open spec fn table(&self) -> Map<u64, Thread> {
        thread_table_contents(self.threads)
    }

    /// Process id to process.
    pub open spec fn procs(&self) -> Map<u64, Process> {
        process_table_contents(self.processes)
    }

    /// IRQ number to the process that handles it.
    pub open spec fn irqs(&self) -> Map<u64, u64> {
        u64_table_contents(self.irq_handlers)
    }

    /// Message id to the process that sent it.
    pub open spec fn sources(&self) -> Map<u64, u64> {
        u64_table_contents(self.message_sources)
    }

    /// A scheduler with no processes, threads or IRQ handlers, idling on
    /// the kernel stack at `kern_stack_top`.
    pub fn new(kern_stack_top: u64) -> (r: Scheduler)
        ensures
            r.procs().dom().is_empty(),
            r.irqs().dom().is_empty(),
            r.sources().dom().is_empty(),
            r.pid_gen.wf() && r.pid_gen.live().is_empty() && !r.pid_gen.exhausted(),
            r.tid_gen.wf() && r.tid_gen.live().is_empty() && !r.tid_gen.exhausted(),
            r.msg_gen.wf() && r.msg_gen.live().is_empty() && !r.msg_gen.exhausted(),
            r.table().dom().is_empty(),
            r.current_tid is None,
            r.current_pid is None,
            r.kern_stack_top == kern_stack_top,
    {
        Scheduler {
            processes: ProcessTable::new(),
            threads: ThreadTable::new(),
            irq_handlers: U64Table::new(),
            message_sources: U64Table::new(),
            pid_gen: IdGen::new(),
            tid_gen: IdGen::new(),
            msg_gen: IdGen::new(),
            current_tid: None,
            current_pid: None,
            kern_stack_top,
        }
    }

    /// Files a new thread under its id.
    pub fn add_thread(&mut self, t: Thread)
        requires
            !old(self).table().contains_key(t.id),
        ensures
            final(self).table() == old(self).table().insert(t.id, t),
            final(self).current_tid == old(self).current_tid,
            final(self).current_pid == old(self).current_pid,
            keeps_registries(*old(self), *final(self)),
    {
        self.threads.insert(t.id, t);
    }

    /// The thread with id `tid`, if there is one.
    pub fn thread(&self, tid: u64) -> (r: Option<Thread>)
        ensures
            r == (if self.table().contains_key(tid) {
                Some(self.table()[tid])
            } else {
                None
            }),
    {
        self.threads.get(tid)
    }

    /// The running thread, if a thread runs and is in the table.
    pub fn current_thread(&self) -> (r: Option<Thread>)
        ensures
            r == match self.current_tid {
                Some(t) => if self.table().contains_key(t) {
                    Some(self.table()[t])
                } else {
                    None::<Thread>
                },
                None => None::<Thread>,
            },
    {
        match self.current_tid {
            Some(t) => self.threads.get(t),
            None => None,
        }
    }

    /// Switches threads on a timer tick or a blocking call: the interrupted
    /// thread keeps the registers in `state` and becomes inactive unless it
    /// waits for a message; walking the table from the position given by
    /// its id plus one, the first inactive thread becomes active and its
    /// registers are loaded into `state`. With no thread to run, `state`
    /// becomes the idle loop at `idle_rip` and nothing is current.
    pub fn schedule(&mut self, state: &mut RegisterState, idle_rip: u64) -> (r: Switch)
        requires
            old(self).current_tid matches Some(t) ==> t < u64::MAX,
        ensures
            scheduled(*old(self), *final(self), *old(state), *final(state), idle_rip, r),
    {
        if let Some(tid) = self.current_tid {
            if let Some(t) = self.threads.get(tid) {
                let mut t = t;
                t.regs = *state;
                if !t.state.is_suspended() {
                    t.state = ThreadState::Inactive;
                }
                self.threads.insert(tid, t);
            }
        }
        assert(self.table() =~= saved_table(old(self).table(), old(self).current_tid, *old(state)));
        let order = self.threads.entries();
        match pick_next(&order, self.current_tid) {
            None => {
                let mut idle = RegisterState::zeroed();
                idle.rip = idle_rip;
                idle.cs = 8;
                idle.rflags = 0x202;
                idle.rsp = self.kern_stack_top;
                idle.ss = 16;
                *state = idle;
                self.current_tid = None;
                self.current_pid = None;
                assert(scheduled_along(*old(self), *self, *old(state), *state, idle_rip, Switch::Idle, order@));
                Switch::Idle
            },
            Some(n) => {
                proof {
                    lemma_first_inactive_range(
                        order@,
                        search_start(old(self).current_tid, order@.len() as int),
                    );
                }
                let (k, t) = order[n];
                *state = t.regs;
                self.threads.insert(k, Thread { state: ThreadState::Active, ..t });
                self.current_tid = Some(t.id);
                self.current_pid = Some(t.pid);
                let r = Switch::Process { pid: t.pid };
                assert(scheduled_along(*old(self), *self, *old(state), *state, idle_rip, r, order@));
                r
            },
        }
    }

    /// Hands message `msg` to process `pid`, whose threads are `tids`:
    /// wakes the first of them that waits, with the message in its
    /// registers, else queues the message at the front of the process's
    /// queue. Breaks, asking to reschedule, when it woke a thread while
    /// nothing ran.
    pub fn handle_new(&mut self, pid: u64, tids: &Vec<u64>, msg: QueuedMessage) -> (r: ControlFlow<Option<TerminationReason>>)
        requires
            forall|k: int| 0 <= k < tids@.len() ==> old(self).table().contains_key(#[trigger] tids@[k]),
            first_waiting(old(self).table(), tids@, 0) is None ==> old(self).procs().contains_key(pid),
        ensures
            delivered(*old(self), *final(self), pid, tids@, msg, r),
    {
        let idle = self.current_tid.is_none();
        let mut k: usize = 0;
        while k < tids.len()
            invariant
                k <= tids@.len(),
                self == old(self),
                idle == old(self).current_tid is None,
                forall|q: int| 0 <= q < tids@.len() ==> self.table().contains_key(#[trigger] tids@[q]),
                first_waiting(self.table(), tids@, 0) == first_waiting(self.table(), tids@, k as int),
            decreases tids@.len() - k,
        {
            let tid = tids[k];
            let t = self.threads.get(tid).unwrap();
            if t.state.is_suspended() {
                let mut t = t;
                t.state = ThreadState::Inactive;
                t.regs.rax = msg.id;
                t.regs.rdi = msg.pid;
                t.regs.rsi = msg.addr;
                t.regs.rdx = msg.len;
                self.threads.insert(tid, t);
                if idle {
                    return ControlFlow::Break(None);
                }
                return ControlFlow::Continue(());
            }
            k = k + 1;
        }
        let mut p = self.processes.remove(pid).unwrap();
        p.messages.push_front(msg);
        self.processes.insert(pid, p);
        assert(self.procs()[pid].messages@ =~= old(self).procs()[pid].messages@.insert(0, msg));
        assert(self.procs() =~= old(self).procs().insert(
            pid,
            Process { messages: self.procs()[pid].messages, ..old(self).procs()[pid] },
        ));
        ControlFlow::Continue(())
    }

    /// Hands the running thread the oldest message queued for its process,
    /// in `rax` (id), `rdi` (sender), `rsi` and `rdx` (data); with none
    /// queued the thread waits and this breaks, asking to reschedule.
    pub fn receive(&mut self, state: &mut RegisterState) -> (r: ControlFlow<Option<TerminationReason>>)
        requires
            old(self).current_pid is Some,
            old(self).procs().contains_key(old(self).current_pid.unwrap()),
            old(self).procs()[old(self).current_pid.unwrap()].messages@.len() == 0 ==> (old(
                self,
            ).current_tid matches Some(t) && old(self).table().contains_key(t)),
        ensures
            received(*old(self), *final(self), *old(state), *final(state), r),
    {
        let pid = self.current_pid.unwrap();
        let waiting = self.processes.get(pid).unwrap().messages.len();
        if waiting == 0 {
            let tid = self.current_tid.unwrap();
            let mut t = self.threads.get(tid).unwrap();
            t.state = ThreadState::Suspended;
            self.threads.insert(tid, t);
            return ControlFlow::Break(None);
        }
        let mut p = self.processes.remove(pid).unwrap();
        let m = p.messages.pop_back().unwrap();
        self.processes.insert(pid, p);
        state.rax = m.id;
        state.rdi = m.pid;
        state.rsi = m.addr;
        state.rdx = m.len;
        assert(self.procs() =~= old(self).procs().insert(
            pid,
            Process { messages: self.procs()[pid].messages, ..old(self).procs()[pid] },
        ));
        ControlFlow::Continue(())
    }

    /// Sends a message from the running process under an id the message
    /// id generator hands out: the `rcx` bytes of its allocation at `rdx`
    /// go to the process in `rsi`. For another process the result also
    /// holds the mapping of the data into that process's address space; a
    /// break asks to reschedule or, with a reason, to end the sender.
    pub fn send(&mut self, state: &RegisterState) -> (r: (
        ControlFlow<Option<TerminationReason>>,
        Option<PagingRequest>,
    ))
        requires
            old(self).current_pid is Some,
            old(self).msg_gen.wf(),
            old(self).procs().contains_key(state.rsi) ==> !old(self).msg_gen.exhausted(),
            old(self).procs().contains_key(old(self).current_pid.unwrap()),
            old(self).procs().contains_key(state.rsi) ==> {
                &&& old(self).procs()[old(self).current_pid.unwrap()].allocs().contains_key(state.rdx)
                &&& state.rsi != old(self).current_pid.unwrap() ==> {
                    &&& state.rdx >= USER_PHYS_VIRT_OFFSET
                    &&& state.rcx + 0xFFF <= u64::MAX
                    &&& forall|k: int|
                        0 <= k < old(self).procs()[state.rsi].thread_ids@.len() ==> old(self).table().contains_key(
                            #[trigger] old(self).procs()[state.rsi].thread_ids@[k],
                        )
                }
            },
        ensures
            sent(*old(self), *final(self), *state, old(self).msg_gen.spec_next(), r.0, r.1),
            ids_tracked(*old(self)) ==> ids_tracked(*final(self)),
    {
        let target = state.rsi;
        if !self.processes.contains_key(target) {
            return (ControlFlow::Break(Some(TerminationReason::NotFound)), None);
        }
        let id = self.msg_gen.next();
        let src = self.current_pid.unwrap();
        self.message_sources.insert(id, src);
        let mut cur = self.processes.remove(src).unwrap();
        cur.track_msg(id, state.rdx);
        self.processes.insert(src, cur);
        let ghost mid = *self;
        assert(mid.procs() =~= old(self).procs().insert(src, mid.procs()[src]));
        assert(marked_sent(*old(self), mid, id, state.rdx));
        let msg = QueuedMessage { id, pid: src, addr: state.rdx, len: state.rcx };
        if target != src {
            let tids = self.processes.get(target).unwrap().thread_ids.clone();
            assert(tids@ =~= mid.procs()[target].thread_ids@);
            let map = PagingRequest::MapPages {
                virt: state.rdx,
                phys: state.rdx - USER_PHYS_VIRT_OFFSET,
                count: (state.rcx + 0xFFF) / 0x1000,
                writable: false,
            };
            let r = self.handle_new(target, &tids, msg);
            (r, Some(map))
        } else {
            let none: Vec<u64> = Vec::new();
            let r = self.handle_new(src, &none, msg);
            assert(none@ =~= Seq::<u64>::empty());
            (r, None)
        }
    }

    /// Acknowledges message `rsi` for the running process: the kernel
    /// forgets who sent it and frees its data, which the sender owns, or
    /// the receiver for a message from the kernel. What remains to be done
    /// (unmasking the IRQ a kernel message names, unmapping the data)
    /// comes back with the result.
    pub fn ack(&mut self, pmm: &mut BitmapAllocator, state: &RegisterState) -> (r: (
        ControlFlow<Option<TerminationReason>>,
        AckWork,
    ))
        requires
            old(self).current_pid is Some,
            old(self).sources().contains_key(state.rsi) ==> {
                let src = old(self).sources()[state.rsi];
                let owner = if src == 0 {
                    old(self).current_pid.unwrap()
                } else {
                    src
                };
                let po = old(self).procs()[owner];
                let addr = po.msg_addrs()[state.rsi];
                &&& old(self).msg_gen.wf()
                &&& old(self).msg_gen.live().contains(state.rsi)
                &&& old(self).procs().contains_key(owner)
                &&& po.msg_addrs().contains_key(state.rsi)
                &&& po.msg_ids().contains_key(addr)
                &&& po.allocs().contains_key(addr)
                &&& releasable(*old(pmm), addr, po.allocs()[addr].0)
            },
        ensures
            acked(*old(self), *final(self), *old(pmm), *final(pmm), *state, r.0, r.1),
            ids_tracked(*old(self)) ==> ids_tracked(*final(self)),
    {
        let id = state.rsi;
        let src = match self.message_sources.get(id) {
            Some(src) => src,
            None => {
                return (
                    ControlFlow::Break(Some(TerminationReason::NotFound)),
                    AckWork { unmask_irq_of: None, unmap_owner: None, unmap_receiver: None },
                );
            },
        };
        self.message_sources.remove(id);
        self.msg_gen.free(id);
        let cur = self.current_pid.unwrap();
        let owner = if src == 0 {
            cur
        } else {
            src
        };
        let mut po = self.processes.remove(owner).unwrap();
        let addr = po.msg_id_to_addr.get(id).unwrap();
        let size = po.allocations.get(addr).unwrap().0;
        let unmask_irq_of = if src == 0 {
            Some((addr, size))
        } else {
            None
        };
        let unmap = po.free_msg(pmm, id);
        self.processes.insert(owner, po);
        assert(self.procs() =~= old(self).procs().insert(owner, self.procs()[owner]));
        let unmap_owner = match unmap {
            Some(u) => Some((owner, u)),
            None => None,
        };
        let unmap_receiver = if src != 0 && src != cur {
            Some(PagingRequest::UnmapPages { virt: addr, count: (size + 0xFFF) / 0x1000 })
        } else {
            None
        };
        (ControlFlow::Continue(()), AckWork { unmask_irq_of, unmap_owner, unmap_receiver })
    }

    /// Allocates `rsi` bytes of fresh pages for the running process and
    /// returns their user address in `rax`. The caller maps the pages as
    /// the result asks and fills them with zeros.
    pub fn allocate(&mut self, pmm: &mut BitmapAllocator, state: &mut RegisterState) -> (r: (
        ControlFlow<Option<TerminationReason>>,
        PagingRequest,
    ))
        requires
            old(self).current_pid is Some,
            old(self).procs().contains_key(old(self).current_pid.unwrap()),
            old(pmm).wf(),
            old(state).rsi + 0xFFF <= u64::MAX,
            alloc_outcome(*old(pmm), page_count(old(state).rsi) as u64) is Some,
            !old(self).procs()[old(self).current_pid.unwrap()].allocs().contains_key(
                (alloc_outcome(*old(pmm), page_count(old(state).rsi) as u64).unwrap()
                    + USER_PHYS_VIRT_OFFSET) as u64,
            ),
        ensures
            ({
                let pid = old(self).current_pid.unwrap();
                let size = old(state).rsi;
                let count = page_count(size) as u64;
                let a = alloc_outcome(*old(pmm), count).unwrap();
                let virt = (a + USER_PHYS_VIRT_OFFSET) as u64;
                let p0 = old(self).procs()[pid];
                let p1 = final(self).procs()[pid];
                &&& r.0 == ControlFlow::<Option<TerminationReason>>::Continue(())
                &&& r.1 == PagingRequest::MapPages { virt, phys: a, count, writable: true }
                &&& *final(state) == RegisterState { rax: virt, ..*old(state) }
                &&& *final(self) == (Scheduler { processes: final(self).processes, ..*old(self) })
                &&& final(self).procs() == old(self).procs().insert(pid, p1)
                &&& p1.allocs() == p0.allocs().insert(virt, (size, true))
                &&& p1.msg_addrs() == p0.msg_addrs()
                &&& p1.msg_ids() == p0.msg_ids()
                &&& same_identity(p0, p1)
                &&& final(pmm).wf()
                &&& final(pmm).pages() == alloc_pages_after(*old(pmm), count)
                &&& final(pmm).next_index() == alloc_next_after(*old(pmm), count)
                &&& final(pmm).free_count() == alloc_free_after(*old(pmm), count)
                &&& final(pmm).total() == old(pmm).total()
                &&& final(pmm).highest() == old(pmm).highest()
            }),
    {
        let pid = self.current_pid.unwrap();
        let mut p = self.processes.remove(pid).unwrap();
        let (virt, _, req) = p.allocate(pmm, state.rsi);
        self.processes.insert(pid, p);
        assert(self.procs() =~= old(self).procs().insert(pid, self.procs()[pid]));
        state.rax = virt;
        (ControlFlow::Continue(()), req.unwrap())
    }

    /// Frees the running process's allocation at `rsi`; its pages return
    /// to `pmm`, and a mapped one is to be unmapped as the result asks.
    pub fn free(&mut self, pmm: &mut BitmapAllocator, state: &RegisterState) -> (r: (
        ControlFlow<Option<TerminationReason>>,
        Option<PagingRequest>,
    ))
        requires
            old(self).current_pid is Some,
            old(self).procs().contains_key(old(self).current_pid.unwrap()),
            old(self).procs()[old(self).current_pid.unwrap()].allocs().contains_key(state.rsi),
            releasable(
                *old(pmm),
                state.rsi,
                old(self).procs()[old(self).current_pid.unwrap()].allocs()[state.rsi].0,
            ),
        ensures
            ({
                let pid = old(self).current_pid.unwrap();
                let p0 = old(self).procs()[pid];
                let p1 = final(self).procs()[pid];
                &&& r.0 == ControlFlow::<Option<TerminationReason>>::Continue(())
                &&& r.1 == unmap_request(state.rsi, p0.allocs()[state.rsi])
                &&& *final(self) == (Scheduler { processes: final(self).processes, ..*old(self) })
                &&& final(self).procs() == old(self).procs().insert(pid, p1)
                &&& p1.allocs() == p0.allocs().remove(state.rsi)
                &&& p1.msg_addrs() == p0.msg_addrs()
                &&& p1.msg_ids() == p0.msg_ids()
                &&& same_identity(p0, p1)
                &&& released(*old(pmm), *final(pmm), state.rsi, p0.allocs()[state.rsi].0)
            }),
    {
        let pid = self.current_pid.unwrap();
        let mut p = self.processes.remove(pid).unwrap();
        let req = p.free_alloc(pmm, state.rsi);
        self.processes.insert(pid, p);
        assert(self.procs() =~= old(self).procs().insert(pid, self.procs()[pid]));
        (ControlFlow::Continue(()), req)
    }

    /// Announces IRQ `irq` to the process handling it, in a message under
    /// an id the message id generator hands out: the kernel has written
    /// the `len` bytes of the announcement at kernel address `addr`. The
    /// caller masks the IRQ first, then maps the bytes as the result asks;
    /// a break asks to reschedule.
    pub fn irq_fired(&mut self, pmm: &BitmapAllocator, irq: u8, addr: u64, len: u64) -> (r: (
        ControlFlow<Option<TerminationReason>>,
        Option<PagingRequest>,
    ))
        requires
            old(self).msg_gen.wf(),
            !old(self).msg_gen.exhausted(),
            old(self).irqs().contains_key(irq as u64),
            old(self).procs().contains_key(old(self).irqs()[irq as u64]),
            addr >= PHYS_VIRT_OFFSET,
            !old(self).procs()[old(self).irqs()[irq as u64]].allocs().contains_key(user_view(addr)),
            backed(*pmm, user_view(addr), len),
            forall|k: int|
                0 <= k < old(self).procs()[old(self).irqs()[irq as u64]].thread_ids@.len()
                    ==> old(self).table().contains_key(
                    #[trigger] old(self).procs()[old(self).irqs()[irq as u64]].thread_ids@[k],
                ),
        ensures
            irq_delivered(*old(self), *final(self), irq, old(self).msg_gen.spec_next(), addr, len, r.0, r.1),
            ids_tracked(*old(self)) ==> ids_tracked(*final(self)),
    {
        let id = self.msg_gen.next();
        let pid = self.irq_handlers.get(irq as u64).unwrap();
        let mut p = self.processes.remove(pid).unwrap();
        let (virt, map) = p.track_kernelside_alloc(pmm, addr, len);
        self.message_sources.insert(id, 0);
        p.track_msg(id, virt);
        let tids = p.thread_ids.clone();
        assert(tids@ =~= p.thread_ids@);
        self.processes.insert(pid, p);
        let ghost mid = *self;
        assert(mid.procs() =~= old(self).procs().insert(pid, mid.procs()[pid]));
        assert(announced(*old(self), mid, pid, id, virt, len));
        let msg = QueuedMessage { id, pid: 0, addr: virt, len };
        let r = self.handle_new(pid, &tids, msg);
        (r, map)
    }
}

/// What `register_irq` does: the running process comes to handle IRQ
/// `rsi`, taken as a byte. An IRQ above 0xDF is malformed, and one that is
/// handled already exists; either way nothing changes and the process is
/// to be ended for it.
pub open spec fn irq_registered(
    s0: Scheduler,
    s1: Scheduler,
    rsi: u64,
    r: ControlFlow<Option<TerminationReason>>,
) -> bool {
    let irq = rsi as u8;
    if irq > 0xDF {
        s1 == s0 && r == ControlFlow::<Option<TerminationReason>>::Break(
            Some(TerminationReason::MalformedArgument),
        )
    } else if s0.irqs().contains_key(irq as u64) {
        s1 == s0 && r == ControlFlow::<Option<TerminationReason>>::Break(
            Some(TerminationReason::AlreadyExists),
        )
    } else {
        &&& r == ControlFlow::<Option<TerminationReason>>::Continue(())
        &&& s1.irqs() == s0.irqs().insert(irq as u64, s0.current_pid.unwrap())
        &&& s1 == (Scheduler { irq_handlers: s1.irq_handlers, ..s0 })
    }
}

/// What `thread_teardown` does: the running thread leaves the table and
/// its process's thread list, its id goes back to the generator, and
/// nothing runs. When it was the process's last thread, the process goes
/// away, with its id, and everything it allocated is released in `p0`,
/// giving `p1`; else the allocator is untouched. The caller is to
/// reschedule.
pub open spec fn thread_torn_down(
    s0: Scheduler,
    s1: Scheduler,
    p0: BitmapAllocator,
    p1: BitmapAllocator,
    r: ControlFlow<Option<TerminationReason>>,
) -> bool {
    let tid = s0.current_tid.unwrap();
    let pid = s0.current_pid.unwrap();
    let proc0 = s0.procs()[pid];
    let rest = proc0.thread_ids@.filter(|t: u64| t != tid);
    &&& r == ControlFlow::<Option<TerminationReason>>::Break(None)
    &&& s1.table() == s0.table().remove(tid)
    &&& s1.current_tid is None
    &&& s1.irq_handlers == s0.irq_handlers
    &&& s1.message_sources == s0.message_sources
    &&& s1.msg_gen == s0.msg_gen
    &&& s1.kern_stack_top == s0.kern_stack_top
    &&& s1.tid_gen.wf()
    &&& s1.tid_gen.live() == s0.tid_gen.live().remove(tid)
    &&& if rest.len() == 0 {
        &&& s1.current_pid is None
        &&& s1.procs() == s0.procs().remove(pid)
        &&& s1.pid_gen.wf()
        &&& s1.pid_gen.live() == s0.pid_gen.live().remove(pid)
        &&& all_released(p0, p1, proc0.allocs())
    } else {
        &&& s1.current_pid == s0.current_pid
        &&& s1.pid_gen == s0.pid_gen
        &&& p1 == p0
        &&& s1.procs() == s0.procs().insert(pid, s1.procs()[pid])
        &&& same_but_threads(proc0, s1.procs()[pid])
        &&& s1.procs()[pid].thread_ids@ == rest
    }
}

/// What `process_teardown` does: the running process and all its threads
/// go away and their ids go back to the generators, everything it
/// allocated is released in `p0`, giving `p1`, and nothing runs.
pub open spec fn process_torn_down(s0: Scheduler, s1: Scheduler, p0: BitmapAllocator, p1: BitmapAllocator) -> bool {
    let pid = s0.current_pid.unwrap();
    let proc0 = s0.procs()[pid];
    &&& s1.current_tid is None
    &&& s1.current_pid is None
    &&& s1.procs() == s0.procs().remove(pid)
    &&& s1.table() == s0.table().remove_keys(proc0.thread_ids@.to_set())
    &&& s1.irq_handlers == s0.irq_handlers
    &&& s1.message_sources == s0.message_sources
    &&& s1.msg_gen == s0.msg_gen
    &&& s1.kern_stack_top == s0.kern_stack_top
    &&& s1.tid_gen.wf()
    &&& s1.tid_gen.live() == s0.tid_gen.live().difference(proc0.thread_ids@.to_set())
    &&& s1.pid_gen.wf()
    &&& s1.pid_gen.live() == s0.pid_gen.live().remove(pid)
    &&& all_released(p0, p1, proc0.allocs())
}

/// An IRQ whose registration was accepted is refused as existing when
/// registered again, by whichever process, and the second attempt changes
/// nothing; the IRQ stays with the process that registered it first.
pub proof fn law_irq_registered_once(
    s0: Scheduler,
    s1: Scheduler,
    s2: Scheduler,
    rsi: u64,
    r1: ControlFlow<Option<TerminationReason>>,
    r2: ControlFlow<Option<TerminationReason>>,
)
    requires
        irq_registered(s0, s1, rsi, r1),
        irq_registered(s1, s2, rsi, r2),
        r1 == ControlFlow::<Option<TerminationReason>>::Continue(()),
    ensures
        r2 == ControlFlow::<Option<TerminationReason>>::Break(Some(TerminationReason::AlreadyExists)),
        s2 == s1,
        s2.irqs()[(rsi as u8) as u64] == s0.current_pid.unwrap(),
{
}

/// Tearing down the running thread, or the running process, keeps every
/// thread filed under its own id and leaves no thread active.
pub proof fn law_teardown_leaves_none_active(
    s0: Scheduler,
    s1: Scheduler,
    p0: BitmapAllocator,
    p1: BitmapAllocator,
    r: ControlFlow<Option<TerminationReason>>,
)
    requires
        keyed_by_id(s0.table()),
        active_is_current(s0.table(), s0.current_tid),
        thread_torn_down(s0, s1, p0, p1, r) || process_torn_down(s0, s1, p0, p1),
        s0.current_tid matches Some(t) && s0.procs().contains_key(s0.current_pid.unwrap())
            && s0.procs()[s0.current_pid.unwrap()].thread_ids@.contains(t),
    ensures
        keyed_by_id(s1.table()),
        active_is_current(s1.table(), s1.current_tid),
        s1.current_tid is None,
{
    let m0 = s0.table();
    let m1 = s1.table();
    let tid = s0.current_tid.unwrap();
    let ids = s0.procs()[s0.current_pid.unwrap()].thread_ids@;
    assert forall|k: u64| #[trigger] m1.contains_key(k) implies m1[k].id == k && m1[k].state
        != ThreadState::Active by {
        assert(m0.contains_key(k));
        if thread_torn_down(s0, s1, p0, p1, r) {
            assert(k != tid);
        } else {
            assert(!ids.to_set().contains(k));
            assert(ids.to_set().contains(tid));
            assert(k != tid);
        }
    }
}

impl Scheduler {
    /// Files a new process under its id.
    pub fn add_process(&mut self, p: Process)
        requires
            !old(self).procs().contains_key(p.id),
        ensures
            final(self).procs() == old(self).procs().insert(p.id, p),
            final(self).threads == old(self).threads,
            final(self).irq_handlers == old(self).irq_handlers,
            final(self).message_sources == old(self).message_sources,
            final(self).current_tid == old(self).current_tid,
            final(self).current_pid == old(self).current_pid,
            final(self).kern_stack_top == old(self).kern_stack_top,
    {
        let id = p.id;
        self.processes.insert(id, p);
    }

    /// The process with id `pid`, if there is one.
    pub fn process(&self, pid: u64) -> (r: Option<&Process>)
        ensures
            r == (if self.procs().contains_key(pid) {
                Some(&self.procs()[pid])
            } else {
                None::<&Process>
            }),
    {
        self.processes.get(pid)
    }

    /// The running process, if a process runs and is in the table.
    pub fn current_process(&self) -> (r: Option<&Process>)
        ensures
            r == match self.current_pid {
                Some(p) => if self.procs().contains_key(p) {
                    Some(&self.procs()[p])
                } else {
                    None::<&Process>
                },
                None => None::<&Process>,
            },
    {
        match self.current_pid {
            Some(p) => self.processes.get(p),
            None => None,
        }
    }

    /// Makes the running process the handler of IRQ `state.rsi` (as a
    /// byte) and installs `irq_handler` at vector `irq + 0x20` of `idt`, on
    /// the first interrupt stack, for ring 0. On `Continue` the caller
    /// routes the IRQ to the kernel; on `Break` nothing changed and the
    /// process is to be ended for the reason given.
    pub fn register_irq(&mut self, idt: &mut Idt, irq_handler: u64, state: &RegisterState) -> (r: ControlFlow<
        Option<TerminationReason>,
    >)
        requires
            old(self).current_pid is Some,
            old(idt).wf(),
            (state.rsi as u8) <= 0xDF && !old(self).irqs().contains_key((state.rsi as u8) as u64)
                ==> old(idt).is_free((state.rsi as u8) + 0x20),
        ensures
            irq_registered(*old(self), *final(self), state.rsi, r),
            final(idt).wf(),
            r == ControlFlow::<Option<TerminationReason>>::Continue(()) ==> {
                let v = (state.rsi as u8) + 0x20;
                &&& final(idt).default_func == old(idt).default_func
                &&& final(idt).handlers@ == old(idt).handlers@.update(
                    v,
                    InterruptHandler { func: irq_handler, is_irq: true, should_iret: true },
                )
                &&& final(idt).entries@[v].flags.spec_dpl_bits() == 0
                &&& final(idt).entries@[v].flags.spec_ist() == 1
                &&& final(idt).entries@[v] == (Entry { flags: final(idt).entries@[v].flags, ..old(idt).entries@[v] })
                &&& forall|w: int|
                    0 <= w < IDT_ENTRIES && w != v ==> #[trigger] final(idt).entries@[w] == old(idt).entries@[w]
            },
            r != ControlFlow::<Option<TerminationReason>>::Continue(()) ==> *final(idt) == *old(idt),
    {
        let irq = state.rsi as u8;
        if irq > 0xDF {
            return ControlFlow::Break(Some(TerminationReason::MalformedArgument));
        }
        let pid = self.current_pid.unwrap();
        if !self.irq_handlers.try_insert(irq as u64, pid) {
            return ControlFlow::Break(Some(TerminationReason::AlreadyExists));
        }
        idt.set_handler(irq + 0x20, 1, PrivilegeLevel::Supervisor, irq_handler, true, true);
        ControlFlow::Continue(())
    }

    /// Ends the running thread. When it was the last thread of its
    /// process, the process goes too, and with it its allocations, whose
    /// pages return to `pmm`; its address space goes with it, so nothing
    /// is unmapped. Asks the caller to reschedule.
    pub fn thread_teardown(&mut self, pmm: &mut BitmapAllocator) -> (r: ControlFlow<Option<TerminationReason>>)
        requires
            old(self).current_tid is Some,
            old(self).current_pid is Some,
            old(self).procs().contains_key(old(self).current_pid.unwrap()),
            old(self).tid_gen.wf(),
            old(self).tid_gen.live().contains(old(self).current_tid.unwrap()),
            ({
                let p = old(self).procs()[old(self).current_pid.unwrap()];
                p.thread_ids@.filter(|t: u64| t != old(self).current_tid.unwrap()).len() == 0 ==> {
                    &&& old(pmm).wf()
                    &&& all_releasable(*old(pmm), p.allocs())
                    &&& old(self).pid_gen.wf()
                    &&& old(self).pid_gen.live().contains(old(self).current_pid.unwrap())
                }
            }),
        ensures
            thread_torn_down(*old(self), *final(self), *old(pmm), *final(pmm), r),
            ids_held(*old(self)) ==> ids_held(*final(self)),
    {
        let id = self.current_tid.unwrap();
        self.current_tid = None;
        self.threads.remove(id);
        self.tid_gen.free(id);
        let pid = self.current_pid.unwrap();
        let mut proc = self.processes.remove(pid).unwrap();
        proc.forget_thread(id);
        proof {
            let p = old(self).procs()[pid];
            assert((|t: u64| t != id) =~= (|t: u64| t != old(self).current_tid.unwrap()));
            assert(proc.thread_ids@ == p.thread_ids@.filter(|t: u64| t != old(self).current_tid.unwrap()));
            assert(proc.allocs() == p.allocs());
        }
        if proc.thread_ids.len() == 0 {
            self.current_pid = None;
            self.pid_gen.free(pid);
            let _unmaps = proc.free_all(pmm);
        } else {
            self.processes.insert(pid, proc);
            assert(self.procs() =~= old(self).procs().insert(pid, self.procs()[pid]));
        }
        ControlFlow::Break(None)
    }

    /// Ends the running process: it and all its threads go away, its
    /// allocations' pages return to `pmm`, and nothing runs.
    pub fn process_teardown(&mut self, pmm: &mut BitmapAllocator)
        requires
            old(self).current_pid is Some,
            old(self).procs().contains_key(old(self).current_pid.unwrap()),
            old(pmm).wf(),
            all_releasable(*old(pmm), old(self).procs()[old(self).current_pid.unwrap()].allocs()),
            old(self).pid_gen.wf(),
            old(self).pid_gen.live().contains(old(self).current_pid.unwrap()),
            old(self).tid_gen.wf(),
            old(self).procs()[old(self).current_pid.unwrap()].thread_ids@.no_duplicates(),
            forall|k: int|
                0 <= k < old(self).procs()[old(self).current_pid.unwrap()].thread_ids@.len()
                    ==> old(self).tid_gen.live().contains(
                    #[trigger] old(self).procs()[old(self).current_pid.unwrap()].thread_ids@[k],
                ),
        ensures
            process_torn_down(*old(self), *final(self), *old(pmm), *final(pmm)),
            ids_held(*old(self)) ==> ids_held(*final(self)),
    {
        self.current_tid = None;
        let pid = self.current_pid.unwrap();
        self.current_pid = None;
        self.pid_gen.free(pid);
        let mut proc = self.processes.remove(pid).unwrap();
        let ghost t0 = old(self).table();
        let ghost live0 = old(self).tid_gen.live();
        let ghost proc0 = proc;
        let ghost others = Scheduler { threads: self.threads, tid_gen: self.tid_gen, ..*self };
        let mut i: usize = 0;
        while i < proc.thread_ids.len()
            invariant
                proc == proc0,
                proc.thread_ids@.no_duplicates(),
                forall|k: int| 0 <= k < proc.thread_ids@.len() ==> live0.contains(#[trigger] proc.thread_ids@[k]),
                *pmm == *old(pmm),
                *self == (Scheduler { threads: self.threads, tid_gen: self.tid_gen, ..others }),
                i <= proc.thread_ids@.len(),
                self.table() == t0.remove_keys(proc.thread_ids@.take(i as int).to_set()),
                self.tid_gen.wf(),
                self.tid_gen.live() == live0.difference(proc.thread_ids@.take(i as int).to_set()),
            decreases proc.thread_ids@.len() - i,
        {
            let tid = proc.thread_ids[i];
            self.threads.remove(tid);
            proof {
                let ids = proc.thread_ids@;
                assert(!ids.take(i as int).to_set().contains(tid)) by {
                    if ids.take(i as int).to_set().contains(tid) {
                        let j = choose|j: int| 0 <= j < i && ids.take(i as int)[j] == tid;
                        assert(ids[j] == ids[i as int]);
                    }
                }
                assert(live0.contains(ids[i as int]));
            }
            self.tid_gen.free(tid);
            proof {
                let ids = proc.thread_ids@;
                assert(ids.take(i + 1) =~= ids.take(i as int).push(tid));
                ids.take(i as int).lemma_push_to_set_commute(tid);
                assert(self.table() =~= t0.remove_keys(ids.take(i + 1).to_set()));
                assert(self.tid_gen.live() =~= live0.difference(ids.take(i + 1).to_set()));
            }
            i = i + 1;
        }
        proof {
            assert(proc.thread_ids@.take(proc.thread_ids@.len() as int) =~= proc.thread_ids@);
        }
        let _unmaps = proc.free_all(pmm);
    }
}

/// What ending the running process needs: it is in the table, everything
/// it allocated can go back to `pmm`, and its id and its threads' ids are
/// held, once each, by the generators.
pub open spec fn can_end_current(s: Scheduler, pmm: BitmapAllocator) -> bool {
    let pid = s.current_pid.unwrap();
    let ids = s.procs()[pid].thread_ids@;
    &&& s.current_pid is Some
    &&& s.procs().contains_key(pid)
    &&& pmm.wf()
    &&& all_releasable(pmm, s.procs()[pid].allocs())
    &&& s.pid_gen.wf()
    &&& s.pid_gen.live().contains(pid)
    &&& s.tid_gen.wf()
    &&& ids.no_duplicates()
    &&& forall|k: int| 0 <= k < ids.len() ==> s.tid_gen.live().contains(#[trigger] ids[k])
}

impl Scheduler {
    /// What the kernel does once a system call of the running process has
    /// run: `Continue` returns to the caller; `Break` asks to switch
    /// threads, and a `Break` with a reason first ends the caller's
    /// process. Returns whether to switch.
    pub fn finish_call(&mut self, pmm: &mut BitmapAllocator, flow: ControlFlow<Option<TerminationReason>>) -> (switch: bool)
        requires
            flow matches ControlFlow::Break(Some(_)) ==> can_end_current(*old(self), *old(pmm)),
        ensures
            match flow {
                ControlFlow::Continue(()) => !switch && *final(self) == *old(self) && *final(pmm) == *old(pmm),
                ControlFlow::Break(None) => switch && *final(self) == *old(self) && *final(pmm) == *old(pmm),
                ControlFlow::Break(Some(_)) => switch && process_torn_down(
                    *old(self),
                    *final(self),
                    *old(pmm),
                    *final(pmm),
                ),
            },
    {
        match flow {
            ControlFlow::Continue(()) => false,
            ControlFlow::Break(None) => true,
            ControlFlow::Break(Some(_)) => {
                self.process_teardown(pmm);
                true
            },
        }
    }
}

/// The user address of the stack a new process gets from `pmm`.
pub open spec fn spawn_stack(pmm: BitmapAllocator) -> u64 {
    (alloc_outcome(pmm, page_count(STACK_SIZE) as u64).unwrap() + USER_PHYS_VIRT_OFFSET) as u64
}

/// Every process and every thread in the tables holds its id from the
/// generator for its kind, and both generators keep their invariants.
pub open spec fn ids_held(s: Scheduler) -> bool {
    &&& s.pid_gen.wf()
    &&& s.tid_gen.wf()
    &&& forall|p: u64| #[trigger] s.procs().contains_key(p) ==> s.pid_gen.live().contains(p)
    &&& forall|t: u64| #[trigger] s.table().contains_key(t) ==> s.tid_gen.live().contains(t)
}

/// What setting up process `pid` does: it comes to own its image
/// (`image_len` bytes at user address `image_addr`) and a fresh stack,
/// both mapped writable, and its one thread `tid`, which may run from
/// `entry`. The result asks for the image's and the stack's mappings, in
/// that order.
pub open spec fn spawned(
    s0: Scheduler,
    s1: Scheduler,
    p0: BitmapAllocator,
    p1: BitmapAllocator,
    pid: u64,
    tid: u64,
    path: Seq<char>,
    image_addr: u64,
    image_len: u64,
    entry: u64,
    r: Seq<PagingRequest>,
) -> bool {
    let count = page_count(STACK_SIZE) as u64;
    let stack = spawn_stack(p0);
    let p = s1.procs()[pid];
    &&& s1.procs() == s0.procs().insert(pid, p)
    &&& p.id == pid
    &&& p.path@ == path
    &&& p.image_base == image_addr
    &&& p.allocs() == map![image_addr => (image_len, true), stack => (STACK_SIZE, true)]
    &&& p.msg_addrs().dom().is_empty()
    &&& p.msg_ids().dom().is_empty()
    &&& p.thread_ids@ == seq![tid]
    &&& s1.table() == s0.table().insert(
        tid,
        Thread {
            id: tid,
            pid,
            state: ThreadState::Inactive,
            regs: Thread::initial_regs(entry, stack),
            fs_base: 0,
            gs_base: 0,
            stack_addr: stack,
        },
    )
    &&& r == seq![
        PagingRequest::MapPages {
            virt: image_addr,
            phys: (image_addr - USER_PHYS_VIRT_OFFSET) as u64,
            count: page_count(image_len) as u64,
            writable: true,
        },
        PagingRequest::MapPages {
            virt: stack,
            phys: alloc_outcome(p0, count).unwrap(),
            count,
            writable: true,
        },
    ]
    &&& p1.wf()
    &&& p1.pages() == alloc_pages_after(p0, count)
    &&& p1.next_index() == alloc_next_after(p0, count)
    &&& p1.free_count() == alloc_free_after(p0, count)
    &&& p1.total() == p0.total()
    &&& p1.highest() == p0.highest()
    &&& s1.irq_handlers == s0.irq_handlers
    &&& s1.message_sources == s0.message_sources
    &&& s1.msg_gen == s0.msg_gen
    &&& s1.current_tid == s0.current_tid
    &&& s1.current_pid == s0.current_pid
    &&& s1.kern_stack_top == s0.kern_stack_top
}

/// A process made from an executable: its ids, its relocated image (to be
/// kept where it is for as long as the process lives), the user address
/// the image is seen at, and the mappings its address space needs.
#[derive(Debug, Clone)]
pub struct SpawnedProcess {
    pub pid: u64,
    pub tid: u64,
    pub image: Vec<u8>,
    pub image_addr: u64,
    pub mappings: Vec<PagingRequest>,
}

/// Why an executable does not become a process.
#[derive(Debug, Clone, Copy, PartialEq, Eq, Structural)]
pub enum SpawnError {
    /// The executable does not load or does not relocate.
    Load(LoadError),
    /// The image is empty, or its bytes are not in pages the physical
    /// memory allocator counts as in use.
    NotBacked,
}

/// The user address at which the image at kernel address `kernel_addr`
/// is seen, when it lies in the kernel's window onto physical memory.
pub open spec fn image_user_addr(kernel_addr: u64) -> Option<u64> {
    if kernel_addr >= PHYS_VIRT_OFFSET && kernel_addr - PHYS_VIRT_OFFSET + USER_PHYS_VIRT_OFFSET <= u64::MAX {
        Some((kernel_addr - PHYS_VIRT_OFFSET + USER_PHYS_VIRT_OFFSET) as u64)
    } else {
        None
    }
}

/// What becomes of the executable `exec`, loaded as `header` and `image`,
/// with the image at kernel address `kernel_addr`: an image that is empty
/// or not in pages in use is refused; else it is relocated for the user
/// address it is seen at, and a relocation that fails, or an entry point
/// past 64 bits, is refused. A refusal changes nothing. Otherwise the next
/// process and thread ids are taken and the process is set up with its
/// thread starting at the image's address plus the entry offset.
pub open spec fn spawn_outcome(
    s0: Scheduler,
    s1: Scheduler,
    p0: BitmapAllocator,
    p1: BitmapAllocator,
    path: Seq<char>,
    exec: Seq<u8>,
    header: ElfHeader,
    image: Seq<u8>,
    kernel_addr: u64,
    r: Result<SpawnedProcess, SpawnError>,
) -> bool {
    let refused = s1 == s0 && p1 == p0;
    match image_user_addr(kernel_addr) {
        None => refused && r == Err::<SpawnedProcess, SpawnError>(SpawnError::NotBacked),
        Some(image_addr) => if image.len() == 0 || !backed(p0, image_addr, image.len() as u64) {
            refused && r == Err::<SpawnedProcess, SpawnError>(SpawnError::NotBacked)
        } else {
            match spec_relocate(exec, image, image_addr) {
                Err(e) => refused && r == Err::<SpawnedProcess, SpawnError>(SpawnError::Load(e)),
                Ok(relocated) => if image_addr + header.e_entry > u64::MAX {
                    refused && r == Err::<SpawnedProcess, SpawnError>(SpawnError::Load(LoadError::BadLayout))
                } else {
                    let pid = s0.pid_gen.spec_next();
                    let tid = s0.tid_gen.spec_next();
                    &&& r is Ok
                    &&& r.unwrap().pid == pid
                    &&& r.unwrap().tid == tid
                    &&& r.unwrap().image@ == relocated
                    &&& r.unwrap().image_addr == image_addr
                    &&& spawned(
                        s0,
                        s1,
                        p0,
                        p1,
                        pid,
                        tid,
                        path,
                        image_addr,
                        image.len() as u64,
                        (image_addr + header.e_entry) as u64,
                        r.unwrap().mappings@,
                    )
                    &&& s1.pid_gen.wf()
                    &&& s1.pid_gen.live() == s0.pid_gen.live().insert(pid)
                    &&& s1.tid_gen.wf()
                    &&& s1.tid_gen.live() == s0.tid_gen.live().insert(tid)
                },
            }
        },
    }
}

/// The kernel address of the first byte of `image`, which std's
/// `Vec::as_ptr` gives. Where the allocator put the bytes is the machine's
/// affair, so nothing is stated of the address.
#[verifier::external_body]
fn kernel_address(image: &Vec<u8>) -> u64 {
    image.as_ptr() as u64
}

/// A process made from an executable gets ids no process and no thread
/// had, and the tables keep holding only ids the generators hand out.
pub proof fn law_spawn_ids_fresh(
    s0: Scheduler,
    s1: Scheduler,
    p0: BitmapAllocator,
    p1: BitmapAllocator,
    path: Seq<char>,
    exec: Seq<u8>,
    header: ElfHeader,
    image: Seq<u8>,
    kernel_addr: u64,
    r: Result<SpawnedProcess, SpawnError>,
)
    requires
        ids_held(s0),
        spawn_outcome(s0, s1, p0, p1, path, exec, header, image, kernel_addr, r),
        r is Ok,
    ensures
        !s0.procs().contains_key(r.unwrap().pid),
        !s0.table().contains_key(r.unwrap().tid),
        s1.procs().contains_key(r.unwrap().pid),
        s1.table().contains_key(r.unwrap().tid),
        ids_held(s1),
{
    s0.pid_gen.lemma_next_fresh();
    s0.tid_gen.lemma_next_fresh();
    let pid = r.unwrap().pid;
    let tid = r.unwrap().tid;
    assert(s1.procs().dom() =~= s0.procs().dom().insert(pid));
    assert(s1.table().dom() =~= s0.table().dom().insert(tid));
}

/// A spawn that is refused, wherever the image lies, leaves the scheduler
/// and the page allocator as they were: no id is taken and nothing filed.
pub proof fn law_refused_spawn_changes_nothing(
    s0: Scheduler,
    s1: Scheduler,
    p0: BitmapAllocator,
    p1: BitmapAllocator,
    path: Seq<char>,
    exec: Seq<u8>,
    header: ElfHeader,
    image: Seq<u8>,
    kernel_addr: u64,
    r: Result<SpawnedProcess, SpawnError>,
)
    requires
        spawn_outcome(s0, s1, p0, p1, path, exec, header, image, kernel_addr, r),
        r is Err,
    ensures
        s1 == s0,
        p1 == p0,
{
}

impl Scheduler {
    /// Files process `pid`, which owns the `image_len` bytes in use in
    /// `pmm` that it sees at `image_addr` and a stack it allocates, and
    /// its one thread `tid`, starting at `entry`.
    fn spawn_with(
        &mut self,
        pmm: &mut BitmapAllocator,
        pid: u64,
        tid: u64,
        path: String,
        image_addr: u64,
        image_len: u64,
        entry: u64,
    ) -> (r: Vec<PagingRequest>)
        requires
            !old(self).procs().contains_key(pid),
            !old(self).table().contains_key(tid),
            image_len > 0,
            backed(*old(pmm), image_addr, image_len),
            alloc_outcome(*old(pmm), page_count(STACK_SIZE) as u64) is Some,
        ensures
            spawned(
                *old(self),
                *final(self),
                *old(pmm),
                *final(pmm),
                pid,
                tid,
                path@,
                image_addr,
                image_len,
                entry,
                r@,
            ),
            final(self).pid_gen == old(self).pid_gen,
            final(self).tid_gen == old(self).tid_gen,
    {
        let ghost count = page_count(STACK_SIZE) as u64;
        let mut proc = Process::new(pid, path, image_addr);
        let image_req = proc.track_alloc(pmm, image_addr, image_len, Some(true));
        proof {
            lemma_alloc_pages_fresh(*pmm, count);
            let a = alloc_outcome(*pmm, count).unwrap();
            let f = (image_addr - USER_PHYS_VIRT_OFFSET) / 4096;
            assert(pmm.pages()[f]);
            assert(a / 4096 != f);
            assert(((a + USER_PHYS_VIRT_OFFSET) as u64) != image_addr);
            assert(crate::memmap::MAX_PHYS_ADDR + USER_PHYS_VIRT_OFFSET + STACK_SIZE <= u64::MAX);
        }
        let (stack, _, stack_req) = proc.allocate(pmm, STACK_SIZE);
        let thread = Thread::new(tid, pid, entry, stack);
        proc.thread_ids.push(tid);
        assert(proc.thread_ids@ =~= seq![tid]);
        self.processes.insert(pid, proc);
        self.threads.insert(tid, thread);
        let mut reqs: Vec<PagingRequest> = Vec::new();
        reqs.push(image_req.unwrap());
        reqs.push(stack_req.unwrap());
        proof {
            assert(self.procs()[pid].allocs() =~= map![image_addr => (image_len, true), spawn_stack(*old(pmm)) => (STACK_SIZE, true)]);
            assert(reqs@ =~= seq![image_req.unwrap(), stack_req.unwrap()]);
        }
        reqs
    }

    /// Makes a process of the executable `exec`, which `load_executable`
    /// has turned into `header` and `image`, with the image at kernel
    /// address `kernel_addr`: see `spawn_outcome`. The caller maps the
    /// kernel's half of the address space into the new process and then
    /// the returned mappings.
    pub fn spawn_image(
        &mut self,
        pmm: &mut BitmapAllocator,
        path: String,
        exec: &[u8],
        header: &ElfHeader,
        image: Vec<u8>,
        kernel_addr: u64,
    ) -> (r: Result<SpawnedProcess, SpawnError>)
        requires
            spec_load(exec@) == Ok::<(ElfHeader, Seq<u8>), LoadError>((*header, image@)),
            ids_held(*old(self)),
            !old(self).pid_gen.exhausted(),
            !old(self).tid_gen.exhausted(),
            old(pmm).wf(),
            alloc_outcome(*old(pmm), page_count(STACK_SIZE) as u64) is Some,
        ensures
            spawn_outcome(*old(self), *final(self), *old(pmm), *final(pmm), path@, exec@, *header, image@, kernel_addr, r),
            ids_held(*final(self)),
    {
        let mut image = image;
        if kernel_addr < PHYS_VIRT_OFFSET {
            return Err(SpawnError::NotBacked);
        }
        let phys = kernel_addr - PHYS_VIRT_OFFSET;
        if phys > u64::MAX - USER_PHYS_VIRT_OFFSET {
            return Err(SpawnError::NotBacked);
        }
        let image_addr = phys + USER_PHYS_VIRT_OFFSET;
        let len = image.len() as u64;
        if len == 0 || len > u64::MAX - 0xFFF {
            return Err(SpawnError::NotBacked);
        }
        let count = (len + 0xFFF) / 0x1000;
        let frames = pmm.page_capacity();
        if phys / 0x1000 > frames || count > frames - phys / 0x1000 {
            return Err(SpawnError::NotBacked);
        }
        if !pmm.is_allocated(phys, count) {
            return Err(SpawnError::NotBacked);
        }
        assert(backed(*pmm, image_addr, len));
        match relocate_executable(exec, &mut image, image_addr) {
            Err(e) => return Err(SpawnError::Load(e)),
            Ok(()) => {},
        }
        let entry = match entry_point(header, image_addr) {
            Some(e) => e,
            None => return Err(SpawnError::Load(LoadError::BadLayout)),
        };
        let pid = self.pid_gen.next();
        let tid = self.tid_gen.next();
        proof {
            assert(!old(self).procs().contains_key(pid));
            assert(!old(self).table().contains_key(tid));
        }
        let mappings = self.spawn_with(pmm, pid, tid, path, image_addr, len, entry);
        proof {
            assert(self.procs().dom() =~= old(self).procs().dom().insert(pid));
            assert(self.table().dom() =~= old(self).table().dom().insert(tid));
        }
        Ok(SpawnedProcess { pid, tid, image, image_addr, mappings })
    }

    /// Makes a process of the executable `exec`, as the kernel does for a
    /// program it starts: the file is checked and its image built and
    /// placed (see `load_executable` and `spawn_outcome`); a file that does
    /// not load is refused before any id is taken, and changes nothing.
    pub fn spawn_proc(
        &mut self,
        pmm: &mut BitmapAllocator,
        path: String,
        exec: &[u8],
    ) -> (r: Result<SpawnedProcess, SpawnError>)
        requires
            ids_held(*old(self)),
            !old(self).pid_gen.exhausted(),
            !old(self).tid_gen.exhausted(),
            old(pmm).wf(),
            alloc_outcome(*old(pmm), page_count(STACK_SIZE) as u64) is Some,
        ensures
            match spec_load(exec@) {
                Err(e) => {
                    &&& r == Err::<SpawnedProcess, SpawnError>(SpawnError::Load(e))
                    &&& *final(self) == *old(self)
                    &&& *final(pmm) == *old(pmm)
                },
                Ok(loaded) => exists|kernel_addr: u64|
                    #[trigger] spawn_outcome(
                        *old(self),
                        *final(self),
                        *old(pmm),
                        *final(pmm),
                        path@,
                        exec@,
                        loaded.0,
                        loaded.1,
                        kernel_addr,
                        r,
                    ),
            },
            ids_held(*final(self)),
    {
        let (header, image) = match load_executable(exec) {
            Ok(p) => p,
            Err(e) => return Err(SpawnError::Load(e)),
        };
        let kernel_addr = kernel_address(&image);
        let ghost loaded = image@;
        let ghost name = path@;
        let r = self.spawn_image(pmm, path, exec, &header, image, kernel_addr);
        proof {
            assert(spec_load(exec@) == Ok::<(ElfHeader, Seq<u8>), LoadError>((header, loaded)));
            assert(spawn_outcome(*old(self), *self, *old(pmm), *pmm, name, exec@, header, loaded, kernel_addr, r));
            let l = spec_load(exec@).unwrap();
            assert(l.0 == header);
            assert(l.1 == loaded);
            assert(exists|k: u64| #[trigger] spawn_outcome(*old(self), *self, *old(pmm), *pmm, name, exec@, l.0, l.1, k, r));
        }
        r
    }
}

} // verus!
