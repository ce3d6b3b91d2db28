//! The kernel's system-call handling: the decisions and bookkeeping of each
//! call, over the page allocator, the user-allocation tracker and the
//! kernel's registries. The port and page-table work a call needs comes
//! back as a `KernelAction` for the caller to carry out.

use vstd::prelude::*;
use crate::allocations::{page_count, proc_freed, releasable, UserAllocationTracker};
use crate::maps::{u64_table_contents, U64Table};
use crate::pmm::{
    alloc_free_after, alloc_next_after, alloc_outcome, alloc_pages_after, mark_range, wrap_add,
    BitmapAllocator, PHYS_VIRT_OFFSET,
};
use crate::gdt::PrivilegeLevel;
use crate::idt::{Entry, Idt, InterruptHandler, IDT_ENTRIES};
use crate::regs::RegisterState;
use crate::syscall::{AccessSize, SystemCall, SystemCallStatus, USER_PHYS_VIRT_OFFSET};

verus! {

/// A message waiting for its receiver.
#[derive(Debug, Clone, Copy, PartialEq, Eq, Structural)]
pub struct Envelope {
    pub id: u64,
    pub from: u64,
    pub to: u64,
    pub addr: u64,
    pub len: u64,
}

/// Work a system call leaves for the caller.
#[derive(Debug, Clone, Copy, PartialEq, Eq, Structural)]
pub enum KernelAction {
    /// Return to the calling thread.
    Resume,
    /// Switch to the next thread.
    Reschedule,
    /// Read the `len` bytes of text at `addr` and hand them to
    /// `finish_kprint`, which sets the call's status and tells whether to
    /// write them to the terminal.
    Print { addr: u64, len: u64 },
    /// Read the port and return the value in `rdi`.
    ReadPort { port: u16, size: AccessSize },
    /// Write `value` to the port.
    WritePort { port: u16, size: AccessSize, value: u64 },
    /// Route the legacy IRQ to the kernel, whose handler is installed at
    /// vector `irq + 0x20` already.
    WireIrq { irq: u8 },
    /// Map `count` user pages at `virt` onto `phys` (present, user, writable
    /// when asked), then zero them when asked.
    MapUserPages { virt: u64, phys: u64, count: u64, writable: bool, zero: bool },
    /// Decode the kernel message at `addr` and unmask the IRQ it names.
    UnmaskIrqOf { addr: u64, size: u64 },
}

/// The kernel's bookkeeping.
pub struct Kernel {
    pub pmm: BitmapAllocator,
    pub user_allocations: UserAllocationTracker,
    /// Provider id to the process that provides it.
    pub providers: U64Table,
    /// IRQ number to the process that handles it.
    pub irq_handlers: U64Table,
    /// Message id to the sending process (0 for the kernel).
    pub message_sources: U64Table,
    /// The ids of the live processes.
    pub processes: Vec<u64>,
    /// (thread id, process id) of each live thread.
    pub threads: Vec<(u64, u64)>,
    pub current_thread: Option<u64>,
    /// Undelivered messages, newest first.
    pub mailbox: Vec<Envelope>,
    pub next_message_id: u64,
}

/// The status codes the kernel returns in `rax`.
pub open spec fn status_success() -> u64 {
    0
}

/// `InvalidRequest`.
pub open spec fn status_invalid() -> u64 {
    1
}

/// `MalformedData`.
pub open spec fn status_malformed() -> u64 {
    2
}

/// `UnknownRequest`.
pub open spec fn status_unknown() -> u64 {
    3
}

/// `DoNothing`.
pub open spec fn status_do_nothing() -> u64 {
    5
}

/// The position of thread `t` in the thread list, if it is there.
pub open spec fn thread_pos(threads: Seq<(u64, u64)>, t: u64) -> Option<int> {
    if exists|i: int| 0 <= i < threads.len() && (#[trigger] threads[i]).0 == t {
        Some(choose|i: int| 0 <= i < threads.len() && (#[trigger] threads[i]).0 == t)
    } else {
        None
    }
}

/// The process of the running thread.
pub open spec fn caller_pid(k: Kernel) -> Option<u64> {
    match k.current_thread {
        Some(t) => match thread_pos(k.threads@, t) {
            Some(i) => Some(k.threads@[i].1),
            None => None,
        },
        None => None,
    }
}

/// The position of the oldest message waiting for `pid` (the last one in the newest-first list).
pub open spec fn oldest_for(mb: Seq<Envelope>, pid: u64) -> Option<int> {
    if exists|j: int| 0 <= j < mb.len() && (#[trigger] mb[j]).to == pid {
        Some(
            choose|j: int|
                0 <= j < mb.len() && (#[trigger] mb[j]).to == pid && forall|j2: int|
                    j < j2 < mb.len() ==> (#[trigger] mb[j2]).to != pid,
        )
    } else {
        None
    }
}

/// The allocator after returning the pages of an allocation of `size` bytes at `addr`.
pub open spec fn pages_freed(p0: BitmapAllocator, p1: BitmapAllocator, addr: u64, size: u64) -> bool {
    let f = (addr - USER_PHYS_VIRT_OFFSET) / 4096;
    &&& p1.wf()
    &&& p1.pages() == mark_range(p0.pages(), f, f + page_count(size), false)
    &&& p1.free_count() == wrap_add(p0.free_count(), page_count(size) as u64)
    &&& p1.next_index() == p0.next_index()
    &&& p1.total() == p0.total()
    &&& p1.highest() == p0.highest()
}

/// The registers with `rax` set.
pub open spec fn with_rax(r: RegisterState, v: u64) -> RegisterState {
    RegisterState { rax: v, ..r }
}

impl Kernel {
    /// The kernel's invariant: a sound page allocator and distinct thread ids.
    pub open spec fn wf(&self) -> bool {
        &&& self.pmm.wf()
        &&& forall|i: int, j: int|
            0 <= i < j < self.threads@.len() ==> (#[trigger] self.threads@[i]).0 != (
            #[trigger] self.threads@[j]).0
    }
}

/// `KPrint`: a null text pointer is malformed; otherwise the text is to
/// be read, and `finish_kprint` sets the status from it.
pub open spec fn post_kprint(k0: Kernel, k1: Kernel, r0: RegisterState, r1: RegisterState, act: KernelAction) -> bool {
    &&& k1 == k0
    &&& if r0.rsi == 0 {
        r1 == with_rax(r0, status_malformed()) && act == KernelAction::Resume
    } else {
        r1 == r0 && act == (KernelAction::Print { addr: r0.rsi, len: r0.rdx })
    }
}

/// `ReceiveMessage`: hands the caller its oldest waiting message; when
/// none waits the status is `DoNothing` and the other registers stay.
pub open spec fn post_receive(k0: Kernel, k1: Kernel, r0: RegisterState, r1: RegisterState, act: KernelAction) -> bool {
    let pid = caller_pid(k0).unwrap();
    &&& act == KernelAction::Resume
    &&& match oldest_for(k0.mailbox@, pid) {
        None => k1 == k0 && r1 == with_rax(r0, status_do_nothing()),
        Some(j) => {
            let e = k0.mailbox@[j];
            &&& k1 == Kernel { mailbox: k1.mailbox, ..k0 }
            &&& k1.mailbox@ == k0.mailbox@.remove(j)
            &&& r1 == RegisterState { rax: 0, rdi: e.id, rsi: e.from, rdx: e.addr, rcx: e.len, ..r0 }
        },
    }
}

/// `Exit`: the running thread goes away; when it was its process's last,
/// everything the process allocated is freed.
pub open spec fn post_exit(k0: Kernel, k1: Kernel, r0: RegisterState, r1: RegisterState, act: KernelAction) -> bool {
    let tid = k0.current_thread.unwrap();
    let pid = caller_pid(k0).unwrap();
    let i = thread_pos(k0.threads@, tid).unwrap();
    let rest = k0.threads@.remove(i);
    &&& act == KernelAction::Reschedule
    &&& r1 == r0
    &&& k1.threads@ == rest
    &&& k1.current_thread is None
    &&& k1 == Kernel {
        threads: k1.threads,
        current_thread: k1.current_thread,
        pmm: k1.pmm,
        user_allocations: k1.user_allocations,
        ..k0
    }
    &&& if exists|j: int| 0 <= j < rest.len() && (#[trigger] rest[j]).1 == pid {
        k1.pmm == k0.pmm && k1.user_allocations == k0.user_allocations
    } else {
        proc_freed(k0.user_allocations, k1.user_allocations, k0.pmm, k1.pmm, pid)
    }
}

/// `SendMessage`: queues a new message from the caller to the process in
/// `rsi`, its data at `rcx` plus the offset at which user space sees
/// physical memory, `r8` bytes long; an unknown receiver is malformed.
pub open spec fn post_send(k0: Kernel, k1: Kernel, r0: RegisterState, r1: RegisterState, act: KernelAction) -> bool {
    let src = caller_pid(k0).unwrap();
    let id = k0.next_message_id;
    let addr = (r0.rcx + USER_PHYS_VIRT_OFFSET) as u64;
    &&& act == KernelAction::Resume
    &&& if !k0.processes@.contains(r0.rsi) {
        k1 == k0 && r1 == with_rax(r0, status_malformed())
    } else {
        &&& r1 == with_rax(r0, status_success())
        &&& k1 == Kernel {
            next_message_id: k1.next_message_id,
            message_sources: k1.message_sources,
            user_allocations: k1.user_allocations,
            mailbox: k1.mailbox,
            ..k0
        }
        &&& k1.next_message_id == id + 1
        &&& u64_table_contents(k1.message_sources) == u64_table_contents(k0.message_sources).insert(id, src)
        &&& k1.user_allocations.allocs() == k0.user_allocations.allocs()
        &&& k1.user_allocations.messages() == k0.user_allocations.messages().insert(id, addr)
        &&& k1.mailbox@ == k0.mailbox@.insert(0, Envelope { id, from: src, to: r0.rsi, addr, len: r0.r8 })
    }
}

/// `RegisterProvider`: the caller provides `rsi`, unless someone already does.
pub open spec fn post_register_provider(k0: Kernel, k1: Kernel, r0: RegisterState, r1: RegisterState, act: KernelAction) -> bool {
    &&& act == KernelAction::Resume
    &&& if u64_table_contents(k0.providers).contains_key(r0.rsi) {
        k1 == k0 && r1 == with_rax(r0, status_malformed())
    } else {
        &&& r1 == with_rax(r0, status_success())
        &&& k1 == Kernel { providers: k1.providers, ..k0 }
        &&& u64_table_contents(k1.providers) == u64_table_contents(k0.providers).insert(
            r0.rsi,
            caller_pid(k0).unwrap(),
        )
    }
}

/// `GetProvidingProcess`: the process providing `rsi`, in `rdi`.
pub open spec fn post_get_provider(k0: Kernel, k1: Kernel, r0: RegisterState, r1: RegisterState, act: KernelAction) -> bool {
    &&& act == KernelAction::Resume
    &&& k1 == k0
    &&& if u64_table_contents(k0.providers).contains_key(r0.rsi) {
        r1 == RegisterState { rax: 0, rdi: u64_table_contents(k0.providers)[r0.rsi], ..r0 }
    } else {
        r1 == with_rax(r0, status_malformed())
    }
}

/// `PortIn`: port in `rsi`, width in `rdx`.
pub open spec fn post_port_in(k0: Kernel, k1: Kernel, r0: RegisterState, r1: RegisterState, act: KernelAction) -> bool {
    &&& k1 == k0
    &&& match AccessSize::spec_from_code(r0.rdx) {
        None => r1 == with_rax(r0, status_malformed()) && act == KernelAction::Resume,
        Some(size) => r1 == with_rax(r0, status_success()) && act == (KernelAction::ReadPort {
            port: r0.rsi as u16,
            size,
        }),
    }
}

/// `PortOut`: port in `rsi`, value in `rdx`, width in `rcx`.
pub open spec fn post_port_out(k0: Kernel, k1: Kernel, r0: RegisterState, r1: RegisterState, act: KernelAction) -> bool {
    &&& k1 == k0
    &&& match AccessSize::spec_from_code(r0.rcx) {
        None => r1 == with_rax(r0, status_malformed()) && act == KernelAction::Resume,
        Some(size) => r1 == with_rax(r0, status_success()) && act == (KernelAction::WritePort {
            port: r0.rsi as u16,
            size,
            value: r0.rdx,
        }),
    }
}

/// `idt1` is `idt0` with the IRQ entry `func` installed at vector `v`: an
/// IRQ handler that returns with `iret`, on stack `ist`, reachable from
/// ring 0 only; every other gate is as it was.
pub open spec fn irq_gate_installed(idt0: Idt, idt1: Idt, v: int, func: u64, ist: u8) -> bool {
    &&& idt1.wf()
    &&& idt1.default_func == idt0.default_func
    &&& idt1.handlers@ == idt0.handlers@.update(v, InterruptHandler { func, is_irq: true, should_iret: true })
    &&& idt1.entries@[v].flags.spec_dpl_bits() == 0
    &&& idt1.entries@[v].flags.spec_ist() == ist
    &&& idt1.entries@[v] == (Entry { flags: idt1.entries@[v].flags, ..idt0.entries@[v] })
    &&& forall|w: int| 0 <= w < IDT_ENTRIES && w != v ==> #[trigger] idt1.entries@[w] == idt0.entries@[w]
}

/// What a system call does to the interrupt table: registering an IRQ
/// handler installs the kernel's IRQ entry `irq_entry` at vector
/// `irq + 0x20`, on the current stack; nothing else touches the table.
pub open spec fn idt_after_call(idt0: Idt, idt1: Idt, irq_entry: u64, act: KernelAction) -> bool {
    match act {
        KernelAction::WireIrq { irq } => irq_gate_installed(idt0, idt1, irq + 0x20, irq_entry, 0),
        _ => idt1 == idt0,
    }
}

/// `RegisterIRQHandler`: the caller handles IRQ `rsi` (as a byte); a
/// request with `rdx` 0 is malformed and an IRQ already handled is refused.
pub open spec fn post_register_irq(k0: Kernel, k1: Kernel, r0: RegisterState, r1: RegisterState, act: KernelAction) -> bool {
    let irq = r0.rsi as u8;
    &&& if r0.rdx == 0 {
        k1 == k0 && r1 == with_rax(r0, status_malformed()) && act == KernelAction::Resume
    } else if u64_table_contents(k0.irq_handlers).contains_key(irq as u64) {
        k1 == k0 && r1 == with_rax(r0, status_invalid()) && act == KernelAction::Resume
    } else {
        &&& r1 == with_rax(r0, status_success())
        &&& act == KernelAction::WireIrq { irq }
        &&& k1 == Kernel { irq_handlers: k1.irq_handlers, ..k0 }
        &&& u64_table_contents(k1.irq_handlers) == u64_table_contents(k0.irq_handlers).insert(
            irq as u64,
            caller_pid(k0).unwrap(),
        )
    }
}

/// `Allocate`: `rsi` bytes of fresh, zeroed, writable memory for the caller; the address in `rdi`.
pub open spec fn post_allocate(k0: Kernel, k1: Kernel, r0: RegisterState, r1: RegisterState, act: KernelAction) -> bool {
    let size = r0.rsi;
    let count = ((size + 0xFFF) / 0x1000) as u64;
    let addr = (alloc_outcome(k0.pmm, count).unwrap() + USER_PHYS_VIRT_OFFSET) as u64;
    &&& r1 == RegisterState { rax: 0, rdi: addr, ..r0 }
    &&& act == (KernelAction::MapUserPages {
        virt: addr,
        phys: (addr - USER_PHYS_VIRT_OFFSET) as u64,
        count,
        writable: true,
        zero: true,
    })
    &&& k1 == Kernel { pmm: k1.pmm, user_allocations: k1.user_allocations, ..k0 }
    &&& k1.pmm.wf()
    &&& k1.pmm.pages() == alloc_pages_after(k0.pmm, count)
    &&& k1.pmm.next_index() == alloc_next_after(k0.pmm, count)
    &&& k1.pmm.free_count() == alloc_free_after(k0.pmm, count)
    &&& k1.pmm.total() == k0.pmm.total()
    &&& k1.pmm.highest() == k0.pmm.highest()
    &&& k1.user_allocations.allocs() == k0.user_allocations.allocs().insert(addr, (caller_pid(k0).unwrap(), size))
    &&& k1.user_allocations.messages() == k0.user_allocations.messages()
}

/// `Free`: the allocation at `rsi` is forgotten and its pages freed.
pub open spec fn post_free(k0: Kernel, k1: Kernel, r0: RegisterState, r1: RegisterState, act: KernelAction) -> bool {
    let ptr = r0.rsi;
    &&& r1 == with_rax(r0, status_success())
    &&& act == KernelAction::Resume
    &&& k1 == Kernel { pmm: k1.pmm, user_allocations: k1.user_allocations, ..k0 }
    &&& k1.user_allocations.allocs() == k0.user_allocations.allocs().remove(ptr)
    &&& k1.user_allocations.messages() == k0.user_allocations.messages()
    &&& pages_freed(k0.pmm, k1.pmm, ptr, k0.user_allocations.allocs()[ptr].1)
}

/// `Ack`: the receiver is done with message `rsi`; its data is freed, and
/// for a message from the kernel its IRQ is unmasked.
pub open spec fn post_ack(k0: Kernel, k1: Kernel, r0: RegisterState, r1: RegisterState, act: KernelAction) -> bool {
    let id = r0.rsi;
    let sources = u64_table_contents(k0.message_sources);
    if id == 0 || !sources.contains_key(id) {
        k1 == k0 && r1 == with_rax(r0, status_malformed()) && act == KernelAction::Resume
    } else {
        let addr = k0.user_allocations.messages()[id];
        let size = k0.user_allocations.allocs()[addr].1;
        &&& r1 == with_rax(r0, status_success())
        &&& act == if sources[id] == 0 {
            KernelAction::UnmaskIrqOf { addr, size }
        } else {
            KernelAction::Resume
        }
        &&& k1 == Kernel { pmm: k1.pmm, user_allocations: k1.user_allocations, ..k0 }
        &&& k1.user_allocations.messages() == k0.user_allocations.messages().remove(id)
        &&& k1.user_allocations.allocs() == k0.user_allocations.allocs().remove(addr)
        &&& pages_freed(k0.pmm, k1.pmm, addr, size)
    }
}

/// What `Allocate` needs: a caller, a size whose page count fits, and free pages.
pub open spec fn pre_allocate(k: Kernel, r: RegisterState) -> bool {
    &&& caller_pid(k) is Some
    &&& r.rsi + 0xFFF <= u64::MAX
    &&& alloc_outcome(k.pmm, ((r.rsi + 0xFFF) / 0x1000) as u64) is Some
}

/// What `Free` needs: a tracked allocation that can be released.
pub open spec fn pre_free(k: Kernel, r: RegisterState) -> bool {
    &&& k.user_allocations.allocs().contains_key(r.rsi)
    &&& releasable(k.pmm, r.rsi, k.user_allocations.allocs()[r.rsi].1)
}

/// What `Ack` needs: a known message's data is tracked and can be released.
pub open spec fn pre_ack(k: Kernel, r: RegisterState) -> bool {
    let id = r.rsi;
    let addr = k.user_allocations.messages()[id];
    (id != 0 && u64_table_contents(k.message_sources).contains_key(id)) ==> {
        &&& k.user_allocations.messages().contains_key(id)
        &&& k.user_allocations.allocs().contains_key(addr)
        &&& releasable(k.pmm, addr, k.user_allocations.allocs()[addr].1)
    }
}

/// What `Exit` needs: a running thread, and when it is its process's last,
/// allocations that can all be released.
pub open spec fn pre_exit(k: Kernel) -> bool {
    &&& caller_pid(k) is Some
    &&& forall|a: u64|
        #[trigger] crate::allocations::owned_by(k.user_allocations.allocs(), caller_pid(k).unwrap()).contains(a)
            ==> releasable(k.pmm, a, k.user_allocations.allocs()[a].1)
}

/// What a system call needs from the kernel, the interrupt table and the
/// registers; registering an IRQ needs its vector free, as the kernel asserts.
pub open spec fn syscall_pre(k: Kernel, idt: Idt, r: RegisterState) -> bool {
    match SystemCall::spec_from_code(r.rdi) {
        Some(SystemCall::ReceiveMessage) => caller_pid(k) is Some,
        Some(SystemCall::SendMessage) => {
            &&& caller_pid(k) is Some
            &&& k.processes@.contains(r.rsi) ==> k.next_message_id < u64::MAX && r.rcx
                + USER_PHYS_VIRT_OFFSET <= u64::MAX
        },
        Some(SystemCall::Exit) => pre_exit(k),
        Some(SystemCall::RegisterProvider) => caller_pid(k) is Some,
        Some(SystemCall::RegisterIRQHandler) => r.rdx != 0 ==> {
            &&& caller_pid(k) is Some
            &&& !u64_table_contents(k.irq_handlers).contains_key((r.rsi as u8) as u64) ==> {
                &&& (r.rsi as u8) <= 0xDF
                &&& idt.is_free((r.rsi as u8) + 0x20)
            }
        },
        Some(SystemCall::Allocate) => pre_allocate(k, r),
        Some(SystemCall::Free) => pre_free(k, r),
        Some(SystemCall::Ack) => pre_ack(k, r),
        _ => true,
    }
}

/// What a system call does, by its number.
pub open spec fn syscall_post(k0: Kernel, k1: Kernel, r0: RegisterState, r1: RegisterState, act: KernelAction) -> bool {
    match SystemCall::spec_from_code(r0.rdi) {
        None => k1 == k0 && r1 == with_rax(r0, status_unknown()) && act == KernelAction::Resume,
        Some(SystemCall::KPrint) => post_kprint(k0, k1, r0, r1, act),
        Some(SystemCall::ReceiveMessage) => post_receive(k0, k1, r0, r1, act),
        Some(SystemCall::SendMessage) => post_send(k0, k1, r0, r1, act),
        Some(SystemCall::Exit) => post_exit(k0, k1, r0, r1, act),
        Some(SystemCall::Skip) => k1 == k0 && r1 == r0 && act == KernelAction::Reschedule,
        Some(SystemCall::RegisterProvider) => post_register_provider(k0, k1, r0, r1, act),
        Some(SystemCall::GetProvidingProcess) => post_get_provider(k0, k1, r0, r1, act),
        Some(SystemCall::PortIn) => post_port_in(k0, k1, r0, r1, act),
        Some(SystemCall::PortOut) => post_port_out(k0, k1, r0, r1, act),
        Some(SystemCall::RegisterIRQHandler) => post_register_irq(k0, k1, r0, r1, act),
        Some(SystemCall::Allocate) => post_allocate(k0, k1, r0, r1, act),
        Some(SystemCall::Free) => post_free(k0, k1, r0, r1, act),
        Some(SystemCall::Ack) => post_ack(k0, k1, r0, r1, act),
    }
}

impl Kernel {
    /// The kernel's bookkeeping over the page allocator `pmm`: no process,
    /// no thread, no registration, no message; message ids start at 1.
    pub fn new(pmm: BitmapAllocator) -> (r: Kernel)
        ensures
            r.pmm == pmm,
            r.user_allocations.allocs().dom().is_empty(),
            r.user_allocations.messages().dom().is_empty(),
            u64_table_contents(r.providers).dom().is_empty(),
            u64_table_contents(r.irq_handlers).dom().is_empty(),
            u64_table_contents(r.message_sources).dom().is_empty(),
            r.processes@.len() == 0,
            r.threads@.len() == 0,
            r.current_thread is None,
            r.mailbox@.len() == 0,
            r.next_message_id == 1,
            pmm.wf() ==> r.wf(),
    {
        Kernel {
            pmm,
            user_allocations: UserAllocationTracker::new(),
            providers: U64Table::new(),
            irq_handlers: U64Table::new(),
            message_sources: U64Table::new(),
            processes: Vec::new(),
            threads: Vec::new(),
            current_thread: None,
            mailbox: Vec::new(),
            next_message_id: 1,
        }
    }

    /// The position of thread `t`, if it is live.
    fn find_thread(&self, t: u64) -> (r: Option<usize>)
        requires
            self.wf(),
        ensures
            r matches Some(i) ==> thread_pos(self.threads@, t) == Some(i as int),
            r is None ==> thread_pos(self.threads@, t) is None,
    {
        let mut i: usize = 0;
        while i < self.threads.len()
            invariant
                self.wf(),
                i <= self.threads@.len(),
                forall|j: int| 0 <= j < i ==> (#[trigger] self.threads@[j]).0 != t,
            decreases self.threads@.len() - i,
        {
            if self.threads[i].0 == t {
                proof {
                    let c = choose|j: int| 0 <= j < self.threads@.len() && (#[trigger] self.threads@[j]).0 == t;
                    if c != i as int {
                        if c < i {
                            assert(self.threads@[c].0 != t);
                        } else {
                            assert(self.threads@[i as int].0 != self.threads@[c].0);
                        }
                    }
                }
                return Some(i);
            }
            i = i + 1;
        }
        None
    }

    /// The process that handles IRQ `irq`, if one does.
    pub fn irq_handler(&self, irq: u8) -> (r: Option<u64>)
        ensures
            r == (if u64_table_contents(self.irq_handlers).contains_key(irq as u64) {
                Some(u64_table_contents(self.irq_handlers)[irq as u64])
            } else {
                None
            }),
    {
        self.irq_handlers.get(irq as u64)
    }

    /// The sender of message `id` (0 for the kernel), if the message is
    /// not acknowledged yet.
    pub fn message_source(&self, id: u64) -> (r: Option<u64>)
        ensures
            r == (if u64_table_contents(self.message_sources).contains_key(id) {
                Some(u64_table_contents(self.message_sources)[id])
            } else {
                None
            }),
    {
        self.message_sources.get(id)
    }

    /// The process of the running thread.
    pub fn caller(&self) -> (r: Option<u64>)
        requires
            self.wf(),
        ensures
            r == caller_pid(*self),
    {
        match self.current_thread {
            None => None,
            Some(t) => match self.find_thread(t) {
                Some(i) => Some(self.threads[i].1),
                None => None,
            },
        }
    }

    /// The position of the oldest message waiting for `pid`.
    fn oldest_message_for(&self, pid: u64) -> (r: Option<usize>)
        ensures
            r matches Some(j) ==> oldest_for(self.mailbox@, pid) == Some(j as int) && j < self.mailbox@.len(),
            r is None ==> oldest_for(self.mailbox@, pid) is None,
    {
        let n = self.mailbox.len();
        let mut i: usize = n;
        while i > 0
            invariant
                i <= n,
                n == self.mailbox@.len(),
                forall|j: int| i <= j < n ==> (#[trigger] self.mailbox@[j]).to != pid,
            decreases i,
        {
            i = i - 1;
            if self.mailbox[i].to == pid {
                proof {
                    let mb = self.mailbox@;
                    let c = choose|j: int|
                        0 <= j < mb.len() && (#[trigger] mb[j]).to == pid && forall|j2: int|
                            j < j2 < mb.len() ==> (#[trigger] mb[j2]).to != pid;
                    assert(0 <= i < mb.len() && mb[i as int].to == pid && forall|j2: int|
                        i < j2 < mb.len() ==> (#[trigger] mb[j2]).to != pid);
                    if c < i {
                        assert(mb[i as int].to != pid);
                    }
                    if c > i {
                        assert(mb[c].to != pid);
                    }
                }
                return Some(i);
            }
        }
        None
    }

    /// Handles `KPrint`.
    pub fn kprint(&mut self, regs: &mut RegisterState) -> (act: KernelAction)
        ensures
            post_kprint(*old(self), *final(self), *old(regs), *final(regs), act),
    {
        if regs.rsi == 0 {
            regs.rax = 2;
            return KernelAction::Resume;
        }
        KernelAction::Print { addr: regs.rsi, len: regs.rdx }
    }

    /// Handles `ReceiveMessage`.
    pub fn receive_message(&mut self, regs: &mut RegisterState) -> (act: KernelAction)
        requires
            old(self).wf(),
            caller_pid(*old(self)) is Some,
        ensures
            final(self).wf(),
            post_receive(*old(self), *final(self), *old(regs), *final(regs), act),
    {
        let pid = self.caller().unwrap();
        match self.oldest_message_for(pid) {
            None => {
                regs.rax = 5;
            },
            Some(j) => {
                let e = self.mailbox.remove(j);
                regs.rdi = e.id;
                regs.rsi = e.from;
                regs.rdx = e.addr;
                regs.rcx = e.len;
                regs.rax = 0;
            },
        }
        KernelAction::Resume
    }

    /// Handles `SendMessage`.
    pub fn send_message(&mut self, regs: &mut RegisterState) -> (act: KernelAction)
        requires
            old(self).wf(),
            caller_pid(*old(self)) is Some,
            old(self).processes@.contains(old(regs).rsi) ==> old(self).next_message_id < u64::MAX
                && old(regs).rcx + USER_PHYS_VIRT_OFFSET <= u64::MAX,
        ensures
            final(self).wf(),
            post_send(*old(self), *final(self), *old(regs), *final(regs), act),
    {
        let src = self.caller().unwrap();
        let target = regs.rsi;
        let mut known = false;
        let mut i: usize = 0;
        while i < self.processes.len()
            invariant
                i <= self.processes@.len(),
                known == exists|j: int| 0 <= j < i && self.processes@[j] == target,
            decreases self.processes@.len() - i,
        {
            if self.processes[i] == target {
                known = true;
            }
            i = i + 1;
        }
        if !known {
            regs.rax = 2;
            return KernelAction::Resume;
        }
        let id = self.next_message_id;
        self.next_message_id = id + 1;
        let addr = regs.rcx + USER_PHYS_VIRT_OFFSET;
        self.message_sources.insert(id, src);
        self.user_allocations.track_msg(id, addr);
        self.mailbox.insert(0, Envelope { id, from: src, to: target, addr, len: regs.r8 });
        regs.rax = 0;
        KernelAction::Resume
    }

    /// Handles `Exit`.
    pub fn exit(&mut self, regs: &mut RegisterState) -> (act: KernelAction)
        requires
            old(self).wf(),
            pre_exit(*old(self)),
        ensures
            final(self).wf(),
            post_exit(*old(self), *final(self), *old(regs), *final(regs), act),
    {
        let pid = self.caller().unwrap();
        let tid = self.current_thread.unwrap();
        let pos = self.find_thread(tid).unwrap();
        let ghost threads0 = self.threads@;
        self.threads.remove(pos);
        self.current_thread = None;
        proof {
            assert forall|i: int, j: int| 0 <= i < j < self.threads@.len() implies (
            #[trigger] self.threads@[i]).0 != (#[trigger] self.threads@[j]).0 by {
                let i0 = if i < pos { i } else { i + 1 };
                let j0 = if j < pos { j } else { j + 1 };
                assert(self.threads@[i] == threads0[i0]);
                assert(self.threads@[j] == threads0[j0]);
            }
        }
        let mut remains = false;
        let mut i: usize = 0;
        while i < self.threads.len()
            invariant
                i <= self.threads@.len(),
                remains == exists|j: int| 0 <= j < i && (#[trigger] self.threads@[j]).1 == pid,
            decreases self.threads@.len() - i,
        {
            if self.threads[i].1 == pid {
                remains = true;
            }
            i = i + 1;
        }
        if !remains {
            self.user_allocations.free_proc(&mut self.pmm, pid);
        }
        KernelAction::Reschedule
    }

    /// Handles `RegisterProvider`.
    pub fn register_provider(&mut self, regs: &mut RegisterState) -> (act: KernelAction)
        requires
            old(self).wf(),
            caller_pid(*old(self)) is Some,
        ensures
            final(self).wf(),
            post_register_provider(*old(self), *final(self), *old(regs), *final(regs), act),
    {
        if self.providers.contains_key(regs.rsi) {
            regs.rax = 2;
            return KernelAction::Resume;
        }
        let pid = self.caller().unwrap();
        self.providers.insert(regs.rsi, pid);
        regs.rax = 0;
        KernelAction::Resume
    }

    /// Handles `GetProvidingProcess`.
    pub fn get_providing_process(&mut self, regs: &mut RegisterState) -> (act: KernelAction)
        ensures
            post_get_provider(*old(self), *final(self), *old(regs), *final(regs), act),
    {
        match self.providers.get(regs.rsi) {
            None => {
                regs.rax = 2;
            },
            Some(pid) => {
                regs.rdi = pid;
                regs.rax = 0;
            },
        }
        KernelAction::Resume
    }

    /// Handles `PortIn`.
    pub fn port_in(&mut self, regs: &mut RegisterState) -> (act: KernelAction)
        ensures
            post_port_in(*old(self), *final(self), *old(regs), *final(regs), act),
    {
        match AccessSize::from_code(regs.rdx) {
            None => {
                regs.rax = 2;
                KernelAction::Resume
            },
            Some(size) => {
                regs.rax = 0;
                KernelAction::ReadPort { port: regs.rsi as u16, size }
            },
        }
    }

    /// Handles `PortOut`.
    pub fn port_out(&mut self, regs: &mut RegisterState) -> (act: KernelAction)
        ensures
            post_port_out(*old(self), *final(self), *old(regs), *final(regs), act),
    {
        match AccessSize::from_code(regs.rcx) {
            None => {
                regs.rax = 2;
                KernelAction::Resume
            },
            Some(size) => {
                regs.rax = 0;
                KernelAction::WritePort { port: regs.rsi as u16, size, value: regs.rdx }
            },
        }
    }

    /// Handles `RegisterIRQHandler`; on success the kernel's IRQ entry
    /// `irq_entry` is installed in `idt` for the IRQ.
    pub fn register_irq_handler(&mut self, idt: &mut Idt, irq_entry: u64, regs: &mut RegisterState) -> (act: KernelAction)
        requires
            old(self).wf(),
            old(idt).wf(),
            old(regs).rdx != 0 ==> {
                &&& caller_pid(*old(self)) is Some
                &&& !u64_table_contents(old(self).irq_handlers).contains_key((old(regs).rsi as u8) as u64)
                    ==> {
                    &&& (old(regs).rsi as u8) <= 0xDF
                    &&& old(idt).is_free((old(regs).rsi as u8) + 0x20)
                }
            },
        ensures
            final(self).wf(),
            post_register_irq(*old(self), *final(self), *old(regs), *final(regs), act),
            idt_after_call(*old(idt), *final(idt), irq_entry, act),
    {
        let irq = regs.rsi as u8;
        if regs.rdx == 0 {
            regs.rax = 2;
            return KernelAction::Resume;
        }
        let pid = self.caller().unwrap();
        if !self.irq_handlers.try_insert(irq as u64, pid) {
            regs.rax = 1;
            return KernelAction::Resume;
        }
        idt.set_handler(irq + 0x20, 0, PrivilegeLevel::Supervisor, irq_entry, true, true);
        regs.rax = 0;
        KernelAction::WireIrq { irq }
    }

    /// Handles `Allocate`.
    pub fn allocate(&mut self, regs: &mut RegisterState) -> (act: KernelAction)
        requires
            old(self).wf(),
            pre_allocate(*old(self), *old(regs)),
        ensures
            final(self).wf(),
            post_allocate(*old(self), *final(self), *old(regs), *final(regs), act),
    {
        let size = regs.rsi;
        let pid = self.caller().unwrap();
        let addr = self.user_allocations.allocate(&mut self.pmm, pid, size);
        regs.rdi = addr;
        regs.rax = 0;
        KernelAction::MapUserPages {
            virt: addr,
            phys: addr - USER_PHYS_VIRT_OFFSET,
            count: (size + 0xFFF) / 0x1000,
            writable: true,
            zero: true,
        }
    }

    /// Handles `Free`.
    pub fn free(&mut self, regs: &mut RegisterState) -> (act: KernelAction)
        requires
            old(self).wf(),
            pre_free(*old(self), *old(regs)),
        ensures
            final(self).wf(),
            post_free(*old(self), *final(self), *old(regs), *final(regs), act),
    {
        self.user_allocations.free(&mut self.pmm, regs.rsi);
        regs.rax = 0;
        KernelAction::Resume
    }

    /// Handles `Ack`.
    pub fn ack(&mut self, regs: &mut RegisterState) -> (act: KernelAction)
        requires
            old(self).wf(),
            pre_ack(*old(self), *old(regs)),
        ensures
            final(self).wf(),
            post_ack(*old(self), *final(self), *old(regs), *final(regs), act),
    {
        let id = regs.rsi;
        if id == 0 {
            regs.rax = 2;
            return KernelAction::Resume;
        }
        match self.message_sources.get(id) {
            None => {
                regs.rax = 2;
                KernelAction::Resume
            },
            Some(src) => {
                let addr = self.user_allocations.message_allocations.get(id).unwrap();
                let size = self.user_allocations.allocations.get(addr).unwrap().1;
                let act = if src == 0 {
                    KernelAction::UnmaskIrqOf { addr, size }
                } else {
                    KernelAction::Resume
                };
                self.user_allocations.free_msg(&mut self.pmm, id);
                regs.rax = 0;
                act
            },
        }
    }

    /// Handles the system call whose number is in `rdi`: an unknown number
    /// answers `UnknownRequest`.
    pub fn syscall(&mut self, idt: &mut Idt, irq_entry: u64, regs: &mut RegisterState) -> (act: KernelAction)
        requires
            old(self).wf(),
            old(idt).wf(),
            syscall_pre(*old(self), *old(idt), *old(regs)),
        ensures
            final(self).wf(),
            syscall_post(*old(self), *final(self), *old(regs), *final(regs), act),
            idt_after_call(*old(idt), *final(idt), irq_entry, act),
    {
        match SystemCall::from_code(regs.rdi) {
            None => {
                regs.rax = 3;
                KernelAction::Resume
            },
            Some(SystemCall::KPrint) => self.kprint(regs),
            Some(SystemCall::ReceiveMessage) => self.receive_message(regs),
            Some(SystemCall::SendMessage) => self.send_message(regs),
            Some(SystemCall::Exit) => self.exit(regs),
            Some(SystemCall::Skip) => KernelAction::Reschedule,
            Some(SystemCall::RegisterProvider) => self.register_provider(regs),
            Some(SystemCall::GetProvidingProcess) => self.get_providing_process(regs),
            Some(SystemCall::PortIn) => self.port_in(regs),
            Some(SystemCall::PortOut) => self.port_out(regs),
            Some(SystemCall::RegisterIRQHandler) => self.register_irq_handler(idt, irq_entry, regs),
            Some(SystemCall::Allocate) => self.allocate(regs),
            Some(SystemCall::Free) => self.free(regs),
            Some(SystemCall::Ack) => self.ack(regs),
        }
    }
}

/// Whether `b` is a continuation byte of UTF-8.
pub open spec fn is_cont(b: u8) -> bool {
    0x80 <= b <= 0xBF
}

/// The length of the well-formed UTF-8 sequence that starts at `b[i]`, or 0
/// where none does (the Unicode Standard's table of well-formed byte
/// sequences: no overlong forms, no surrogates, nothing past U+10FFFF).
pub open spec fn utf8_len_at(b: Seq<u8>, i: int) -> int {
    let n = b.len();
    let c = b[i];
    if c <= 0x7F {
        1
    } else if 0xC2 <= c <= 0xDF {
        if i + 1 < n && is_cont(b[i + 1]) { 2 } else { 0 }
    } else if 0xE0 <= c <= 0xEF {
        let lo: u8 = if c == 0xE0 { 0xA0 } else { 0x80 };
        let hi: u8 = if c == 0xED { 0x9F } else { 0xBF };
        if i + 2 < n && lo <= b[i + 1] <= hi && is_cont(b[i + 2]) { 3 } else { 0 }
    } else if 0xF0 <= c <= 0xF4 {
        let lo: u8 = if c == 0xF0 { 0x90 } else { 0x80 };
        let hi: u8 = if c == 0xF4 { 0x8F } else { 0xBF };
        if i + 3 < n && lo <= b[i + 1] <= hi && is_cont(b[i + 2]) && is_cont(b[i + 3]) { 4 } else { 0 }
    } else {
        0
    }
}

/// Whether `b[i..]` is a run of well-formed UTF-8 sequences.
pub open spec fn utf8_from(b: Seq<u8>, i: int) -> bool
    decreases b.len() - i,
{
    if i < 0 {
        false
    } else if i >= b.len() {
        true
    } else {
        let k = utf8_len_at(b, i);
        k > 0 && utf8_from(b, i + k)
    }
}

/// Whether the bytes are valid UTF-8, which is what `core::str::from_utf8`
/// accepts.
pub open spec fn is_valid_utf8(bytes: Seq<u8>) -> bool {
    utf8_from(bytes, 0)
}

/// The length of the well-formed UTF-8 sequence at `bytes[i]`, or 0.
fn utf8_len(bytes: &[u8], i: usize) -> (r: usize)
    requires
        i < bytes@.len(),
    ensures
        r == utf8_len_at(bytes@, i as int),
{
    let n = bytes.len();
    let c = bytes[i];
    if c <= 0x7F {
        1
    } else if 0xC2 <= c && c <= 0xDF {
        if i + 1 < n && 0x80 <= bytes[i + 1] && bytes[i + 1] <= 0xBF { 2 } else { 0 }
    } else if 0xE0 <= c && c <= 0xEF {
        let lo: u8 = if c == 0xE0 { 0xA0 } else { 0x80 };
        let hi: u8 = if c == 0xED { 0x9F } else { 0xBF };
        if 2 < n - i && lo <= bytes[i + 1] && bytes[i + 1] <= hi && 0x80 <= bytes[i + 2] && bytes[i + 2] <= 0xBF {
            3
        } else {
            0
        }
    } else if 0xF0 <= c && c <= 0xF4 {
        let lo: u8 = if c == 0xF0 { 0x90 } else { 0x80 };
        let hi: u8 = if c == 0xF4 { 0x8F } else { 0xBF };
        if 3 < n - i && lo <= bytes[i + 1] && bytes[i + 1] <= hi && 0x80 <= bytes[i + 2] && bytes[i + 2] <= 0xBF
            && 0x80 <= bytes[i + 3] && bytes[i + 3] <= 0xBF {
            4
        } else {
            0
        }
    } else {
        0
    }
}

/// Whether the bytes are valid UTF-8.
pub fn utf8_valid(bytes: &[u8]) -> (r: bool)
    ensures
        r == is_valid_utf8(bytes@),
{
    let n = bytes.len();
    let mut i: usize = 0;
    while i < n
        invariant
            n == bytes@.len(),
            i <= n,
            utf8_from(bytes@, 0) == utf8_from(bytes@, i as int),
        decreases n - i,
    {
        let k = utf8_len(bytes, i);
        if k == 0 {
            return false;
        }
        i = i + k;
    }
    true
}

/// Completes a `KPrint` once the text it names is read: the status is
/// `Success` for UTF-8 text, which is then to be written out, and
/// `MalformedData` otherwise. Returns whether to write the text.
pub fn finish_kprint(regs: &mut RegisterState, text: &[u8]) -> (write: bool)
    ensures
        write == is_valid_utf8(text@),
        *final(regs) == with_rax(
            *old(regs),
            if write {
                status_success()
            } else {
                status_malformed()
            },
        ),
{
    let status = text_status(text);
    let write = match status {
        SystemCallStatus::Success => true,
        _ => false,
    };
    regs.rax = status.code();
    write
}

/// The status of a `KPrint` once its text is known to be UTF-8 or not.
pub fn print_status(valid_utf8: bool) -> (r: SystemCallStatus)
    ensures
        r == (if valid_utf8 {
            SystemCallStatus::Success
        } else {
            SystemCallStatus::MalformedData
        }),
{
    if valid_utf8 {
        SystemCallStatus::Success
    } else {
        SystemCallStatus::MalformedData
    }
}

/// The status of a `KPrint` of the given text: malformed unless it is UTF-8.
pub fn text_status(bytes: &[u8]) -> (r: SystemCallStatus)
    ensures
        r == (if is_valid_utf8(bytes@) {
            SystemCallStatus::Success
        } else {
            SystemCallStatus::MalformedData
        }),
{
    print_status(utf8_valid(bytes))
}

/// Among the first `n` messages, if some waits for `pid`, one of them is
/// the last that does.
proof fn lemma_last_match(mb: Seq<Envelope>, pid: u64, n: int)
    requires
        0 <= n <= mb.len(),
        exists|j: int| 0 <= j < n && (#[trigger] mb[j]).to == pid,
    ensures
        exists|j: int|
            0 <= j < n && (#[trigger] mb[j]).to == pid && forall|j2: int|
                j < j2 < n ==> (#[trigger] mb[j2]).to != pid,
    decreases n,
{
    if mb[n - 1].to == pid {
        assert(0 <= n - 1 < n && mb[n - 1].to == pid && forall|j2: int|
            n - 1 < j2 < n ==> (#[trigger] mb[j2]).to != pid);
    } else {
        let w = choose|j: int| 0 <= j < n && (#[trigger] mb[j]).to == pid;
        assert(w < n - 1);
        lemma_last_match(mb, pid, n - 1);
        let j = choose|j: int|
            0 <= j < n - 1 && (#[trigger] mb[j]).to == pid && forall|j2: int|
                j < j2 < n - 1 ==> (#[trigger] mb[j2]).to != pid;
        assert(0 <= j < n && mb[j].to == pid && forall|j2: int|
            j < j2 < n ==> (#[trigger] mb[j2]).to != pid);
    }
}

/// The oldest message for a process lies in the mailbox and is addressed to it.
pub proof fn lemma_oldest_for_in_range(mb: Seq<Envelope>, pid: u64)
    ensures
        oldest_for(mb, pid) matches Some(j) ==> 0 <= j < mb.len() && mb[j].to == pid,
{
    if exists|j: int| 0 <= j < mb.len() && (#[trigger] mb[j]).to == pid {
        lemma_last_match(mb, pid, mb.len() as int);
    }
}

/// A message sent to a process with nothing waiting is what that process
/// receives next: its id, sender, address and length come back in the
/// receiver's registers, and receiving it leaves the mailbox as it was
/// before the send.
pub proof fn law_send_then_receive(
    k0: Kernel,
    k1: Kernel,
    k2: Kernel,
    k3: Kernel,
    r0: RegisterState,
    r1: RegisterState,
    r2: RegisterState,
    r3: RegisterState,
    a1: KernelAction,
    a2: KernelAction,
)
    requires
        caller_pid(k0) is Some,
        post_send(k0, k1, r0, r1, a1),
        k0.processes@.contains(r0.rsi),
        oldest_for(k0.mailbox@, r0.rsi) is None,
        k2.mailbox@ == k1.mailbox@,
        caller_pid(k2) == Some(r0.rsi),
        post_receive(k2, k3, r2, r3, a2),
    ensures
        r3.rax == 0,
        r3.rdi == k0.next_message_id,
        r3.rsi == caller_pid(k0).unwrap(),
        r3.rdx == (r0.rcx + USER_PHYS_VIRT_OFFSET) as u64,
        r3.rcx == r0.r8,
        k3.mailbox@ == k0.mailbox@,
{
    let to = r0.rsi;
    let mb0 = k0.mailbox@;
    let mb1 = k1.mailbox@;
    assert(forall|j: int| 0 <= j < mb0.len() ==> (#[trigger] mb0[j]).to != to);
    assert(mb1[0].to == to);
    assert forall|j2: int| 0 < j2 < mb1.len() implies (#[trigger] mb1[j2]).to != to by {
        assert(mb1[j2] == mb0[j2 - 1]);
    }
    assert(0 <= 0 < mb1.len() && mb1[0].to == to && forall|j2: int|
        0 < j2 < mb1.len() ==> (#[trigger] mb1[j2]).to != to);
    let j = oldest_for(mb1, to).unwrap();
    assert(j == 0) by {
        if j > 0 {
            assert(mb1[j] == mb0[j - 1]);
        }
    }
    assert(mb1.remove(0) =~= mb0);
}

/// Once a process has registered as the provider of an id, looking the id
/// up gives that process.
pub proof fn law_register_then_lookup(
    k0: Kernel,
    k1: Kernel,
    k2: Kernel,
    k3: Kernel,
    r0: RegisterState,
    r1: RegisterState,
    r2: RegisterState,
    r3: RegisterState,
    a1: KernelAction,
    a2: KernelAction,
)
    requires
        caller_pid(k0) is Some,
        !u64_table_contents(k0.providers).contains_key(r0.rsi),
        post_register_provider(k0, k1, r0, r1, a1),
        u64_table_contents(k2.providers) == u64_table_contents(k1.providers),
        r2.rsi == r0.rsi,
        post_get_provider(k2, k3, r2, r3, a2),
    ensures
        r1.rax == 0,
        r3.rax == 0,
        r3.rdi == caller_pid(k0).unwrap(),
{
}

/// Memory allocated and then freed again leaves the tracked allocations as
/// they were, and its pages free.
pub proof fn law_allocate_then_free(
    k0: Kernel,
    k1: Kernel,
    k2: Kernel,
    r0: RegisterState,
    r1: RegisterState,
    r2: RegisterState,
    r3: RegisterState,
    a1: KernelAction,
    a2: KernelAction,
)
    requires
        k0.wf(),
        pre_allocate(k0, r0),
        post_allocate(k0, k1, r0, r1, a1),
        !k0.user_allocations.allocs().contains_key(r1.rdi),
        r2.rsi == r1.rdi,
        post_free(k1, k2, r2, r3, a2),
    ensures
        k2.user_allocations.allocs() == k0.user_allocations.allocs(),
        ({
            let count = page_count(r0.rsi);
            let first = (r1.rdi - USER_PHYS_VIRT_OFFSET) / 4096;
            &&& count == (r0.rsi + 0xFFF) / 0x1000
            &&& first + count <= k2.pmm.pages().len()
            &&& forall|k: int| first <= k < first + count ==> !#[trigger] k2.pmm.pages()[k]
            &&& forall|k: int|
                0 <= k < k2.pmm.pages().len() && !(first <= k < first + count)
                    ==> #[trigger] k2.pmm.pages()[k] == k1.pmm.pages()[k]
        }),
{
    let count = ((r0.rsi + 0xFFF) / 0x1000) as u64;
    crate::pmm::lemma_alloc_pages_fresh(k0.pmm, count);
    let a = alloc_outcome(k0.pmm, count).unwrap();
    assert(r1.rdi == a + USER_PHYS_VIRT_OFFSET);
    assert((r1.rdi - USER_PHYS_VIRT_OFFSET) / 4096 == a / 4096);
    assert(k1.user_allocations.allocs()[r1.rdi].1 == r0.rsi);
    assert(page_count(r0.rsi) == count);
    assert(k1.pmm.pages().len() == k0.pmm.pages().len());
    assert(k2.pmm.pages() == mark_range(k1.pmm.pages(), (a / 4096) as int, a / 4096 + count, false));
    assert(k2.user_allocations.allocs() =~= k0.user_allocations.allocs());
}

/// Delivering IRQ `irq`: the encoded message, `len` bytes at kernel
/// address `kernel_ptr`, becomes an allocation of the handling process and
/// a message from the kernel to it, and is to be mapped read-only.
pub open spec fn post_deliver_irq(k0: Kernel, k1: Kernel, irq: u8, kernel_ptr: u64, len: u64, act: KernelAction) -> bool {
    let pid = u64_table_contents(k0.irq_handlers)[irq as u64];
    let phys = (kernel_ptr - PHYS_VIRT_OFFSET) as u64;
    let virt = (phys + USER_PHYS_VIRT_OFFSET) as u64;
    let id = k0.next_message_id;
    &&& act == (KernelAction::MapUserPages {
        virt,
        phys,
        count: ((len + 0xFFF) / 0x1000) as u64,
        writable: false,
        zero: false,
    })
    &&& k1 == Kernel {
        user_allocations: k1.user_allocations,
        message_sources: k1.message_sources,
        mailbox: k1.mailbox,
        next_message_id: k1.next_message_id,
        ..k0
    }
    &&& k1.next_message_id == id + 1
    &&& k1.user_allocations.allocs() == k0.user_allocations.allocs().insert(virt, (pid, len))
    &&& k1.user_allocations.messages() == k0.user_allocations.messages().insert(id, virt)
    &&& u64_table_contents(k1.message_sources) == u64_table_contents(k0.message_sources).insert(id, 0)
    &&& k1.mailbox@ == k0.mailbox@.insert(0, Envelope { id, from: 0, to: pid, addr: virt, len })
}

/// Acknowledging the message of a delivered IRQ asks for the IRQ named by
/// its data to be unmasked, and forgets the message and its data.
pub proof fn law_deliver_then_ack(
    k0: Kernel,
    k1: Kernel,
    k2: Kernel,
    irq: u8,
    kernel_ptr: u64,
    len: u64,
    r0: RegisterState,
    r1: RegisterState,
    a1: KernelAction,
    a2: KernelAction,
)
    requires
        k0.next_message_id != 0,
        kernel_ptr >= PHYS_VIRT_OFFSET,
        kernel_ptr - PHYS_VIRT_OFFSET + USER_PHYS_VIRT_OFFSET <= u64::MAX,
        post_deliver_irq(k0, k1, irq, kernel_ptr, len, a1),
        r0.rsi == k0.next_message_id,
        post_ack(k1, k2, r0, r1, a2),
    ensures
        r1.rax == 0,
        a2 == (KernelAction::UnmaskIrqOf {
            addr: (kernel_ptr - PHYS_VIRT_OFFSET + USER_PHYS_VIRT_OFFSET) as u64,
            size: len,
        }),
        k2.user_allocations.messages() == k0.user_allocations.messages().remove(k0.next_message_id),
        k2.user_allocations.allocs() == k0.user_allocations.allocs().remove(
            (kernel_ptr - PHYS_VIRT_OFFSET + USER_PHYS_VIRT_OFFSET) as u64,
        ),
{
    let phys = (kernel_ptr - PHYS_VIRT_OFFSET) as u64;
    let virt = (phys + USER_PHYS_VIRT_OFFSET) as u64;
    assert(virt == (kernel_ptr - PHYS_VIRT_OFFSET + USER_PHYS_VIRT_OFFSET) as u64);
    assert(k2.user_allocations.messages() =~= k0.user_allocations.messages().remove(k0.next_message_id));
    assert(k2.user_allocations.allocs() =~= k0.user_allocations.allocs().remove(virt));
}

impl Kernel {
    /// Delivers an IRQ to the process that handles it: the encoded kernel
    /// message, `len` bytes at kernel address `kernel_ptr`, is tracked as an
    /// allocation of that process and queued as a message from the kernel.
    /// Returns the mapping that makes the data visible to the process.
    pub fn deliver_irq(&mut self, irq: u8, kernel_ptr: u64, len: u64) -> (act: KernelAction)
        requires
            old(self).wf(),
            u64_table_contents(old(self).irq_handlers).contains_key(irq as u64),
            kernel_ptr >= PHYS_VIRT_OFFSET,
            kernel_ptr - PHYS_VIRT_OFFSET + USER_PHYS_VIRT_OFFSET <= u64::MAX,
            len + 0xFFF <= u64::MAX,
            old(self).next_message_id < u64::MAX,
        ensures
            final(self).wf(),
            post_deliver_irq(*old(self), *final(self), irq, kernel_ptr, len, act),
    {
        let pid = self.irq_handlers.get(irq as u64).unwrap();
        let phys = kernel_ptr - PHYS_VIRT_OFFSET;
        let virt = phys + USER_PHYS_VIRT_OFFSET;
        let count = (len + 0xFFF) / 0x1000;
        self.user_allocations.track(pid, virt, len);
        let id = self.next_message_id;
        self.next_message_id = id + 1;
        self.message_sources.insert(id, 0);
        self.user_allocations.track_msg(id, virt);
        self.mailbox.insert(0, Envelope { id, from: 0, to: pid, addr: virt, len });
        KernelAction::MapUserPages { virt, phys, count, writable: false, zero: false }
    }
}

} // verus!
