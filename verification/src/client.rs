//! The user-space side of the system calls: the registers each call is
//! made with, and what the registers the kernel hands back mean.

use vstd::prelude::*;
use crate::kernel::{post_receive, Kernel, KernelAction, Envelope, oldest_for, caller_pid};
use crate::regs::RegisterState;
use crate::syscall::{AccessSize, SystemCall, SystemCallStatus, USER_PHYS_VIRT_OFFSET};

verus! {

/// The argument registers of a system call.
#[derive(Debug, Clone, Copy, PartialEq, Eq, Structural)]
pub struct SyscallArgs {
    pub rdi: u64,
    pub rsi: u64,
    pub rdx: u64,
    pub rcx: u64,
    pub r8: u64,
}

/// The registers a system call returns in.
#[derive(Debug, Clone, Copy, PartialEq, Eq, Structural)]
pub struct SyscallReturn {
    pub rax: u64,
    pub rdi: u64,
    pub rsi: u64,
    pub rdx: u64,
    pub rcx: u64,
}

/// A message as the receive call hands it out: id, sender, and the
/// address and length of its data.
#[derive(Debug, Clone, Copy, PartialEq, Eq, Structural)]
pub struct ReceivedMessage {
    pub id: u64,
    pub proc_id: u64,
    pub addr: u64,
    pub len: u64,
}

/// The arguments of call `c` with the given `rsi`, `rdx`, `rcx` and `r8`.
pub open spec fn args_of(c: SystemCall, rsi: u64, rdx: u64, rcx: u64, r8: u64) -> SyscallArgs {
    SyscallArgs { rdi: c.spec_code(), rsi, rdx, rcx, r8 }
}

/// `KPrint` of `len` bytes of text at `addr`.
pub fn kprint_args(addr: u64, len: u64) -> (r: SyscallArgs)
    ensures
        r == args_of(SystemCall::KPrint, addr, len, 0, 0),
{
    SyscallArgs { rdi: SystemCall::KPrint.code(), rsi: addr, rdx: len, rcx: 0, r8: 0 }
}

/// `ReceiveMessage`.
pub fn receive_message_args() -> (r: SyscallArgs)
    ensures
        r == args_of(SystemCall::ReceiveMessage, 0, 0, 0, 0),
{
    SyscallArgs { rdi: SystemCall::ReceiveMessage.code(), rsi: 0, rdx: 0, rcx: 0, r8: 0 }
}

/// `SendMessage` of `len` bytes at user address `addr` to process
/// `target`: the kernel takes the data's address in `rcx` less the offset
/// at which user space sees physical memory, and its length in `r8`.
pub fn send_message_args(target: u64, addr: u64, len: u64) -> (r: SyscallArgs)
    requires
        addr >= USER_PHYS_VIRT_OFFSET,
    ensures
        r == args_of(SystemCall::SendMessage, target, 0, (addr - USER_PHYS_VIRT_OFFSET) as u64, len),
{
    SyscallArgs {
        rdi: SystemCall::SendMessage.code(),
        rsi: target,
        rdx: 0,
        rcx: addr - USER_PHYS_VIRT_OFFSET,
        r8: len,
    }
}

/// `RegisterIRQHandler` for `irq`; the kernel refuses a request whose
/// `rdx` is 0, so it is 1 here.
pub fn register_irq_args(irq: u8) -> (r: SyscallArgs)
    ensures
        r == args_of(SystemCall::RegisterIRQHandler, irq as u64, 1, 0, 0),
{
    SyscallArgs { rdi: SystemCall::RegisterIRQHandler.code(), rsi: irq as u64, rdx: 1, rcx: 0, r8: 0 }
}

/// A call that takes one argument in `rsi`: `Exit`, `Skip`,
/// `RegisterProvider`, `GetProvidingProcess`, `Allocate`, `Free` and `Ack`.
pub fn single_args(c: SystemCall, arg: u64) -> (r: SyscallArgs)
    ensures
        r == args_of(c, arg, 0, 0, 0),
{
    SyscallArgs { rdi: c.code(), rsi: arg, rdx: 0, rcx: 0, r8: 0 }
}

/// `PortIn` of `port` with the given width.
pub fn port_in_args(port: u16, size: AccessSize) -> (r: SyscallArgs)
    ensures
        r == args_of(SystemCall::PortIn, port as u64, size.spec_code(), 0, 0),
{
    SyscallArgs { rdi: SystemCall::PortIn.code(), rsi: port as u64, rdx: size.code(), rcx: 0, r8: 0 }
}

/// `PortOut` of `value` to `port` with the given width.
pub fn port_out_args(port: u16, value: u64, size: AccessSize) -> (r: SyscallArgs)
    ensures
        r == args_of(SystemCall::PortOut, port as u64, value, size.spec_code(), 0),
{
    SyscallArgs {
        rdi: SystemCall::PortOut.code(),
        rsi: port as u64,
        rdx: value,
        rcx: size.code(),
        r8: 0,
    }
}

/// The outcome of a call that returns nothing but its status.
pub fn status_result(ret: &SyscallReturn) -> (r: Result<(), SystemCallStatus>)
    requires
        ret.rax < 6,
    ensures
        r == SystemCallStatus::spec_from_code(ret.rax).unwrap().spec_as_result(),
{
    SystemCallStatus::check(ret.rax)
}

/// The outcome of a call that returns a value in `rdi`: the providing
/// process, the allocated address, or the value read from a port.
pub fn value_result(ret: &SyscallReturn) -> (r: Result<u64, SystemCallStatus>)
    requires
        ret.rax < 6,
    ensures
        ret.rax == 0 ==> r == Ok::<u64, SystemCallStatus>(ret.rdi),
        ret.rax != 0 ==> r == Err::<u64, SystemCallStatus>(SystemCallStatus::spec_from_code(ret.rax).unwrap()),
{
    match SystemCallStatus::check(ret.rax) {
        Ok(()) => Ok(ret.rdi),
        Err(e) => Err(e),
    }
}

/// The outcome of a receive: `None` when the kernel had nothing to hand
/// out, the message when it answers with success.
pub fn received_result(ret: &SyscallReturn) -> (r: Result<Option<ReceivedMessage>, SystemCallStatus>)
    requires
        ret.rax < 6,
    ensures
        ret.rax == 5 ==> r == Ok::<Option<ReceivedMessage>, SystemCallStatus>(None),
        ret.rax == 0 ==> r == Ok::<Option<ReceivedMessage>, SystemCallStatus>(
            Some(ReceivedMessage { id: ret.rdi, proc_id: ret.rsi, addr: ret.rdx, len: ret.rcx }),
        ),
        ret.rax != 0 && ret.rax != 5 ==> r == Err::<Option<ReceivedMessage>, SystemCallStatus>(
            SystemCallStatus::spec_from_code(ret.rax).unwrap(),
        ),
{
    if ret.rax == 5 {
        return Ok(None);
    }
    match SystemCallStatus::check(ret.rax) {
        Err(e) => Err(e),
        Ok(()) => Ok(Some(ReceivedMessage { id: ret.rdi, proc_id: ret.rsi, addr: ret.rdx, len: ret.rcx })),
    }
}

/// The registers a call returns in, as the kernel leaves them.
pub open spec fn return_of(r: RegisterState) -> SyscallReturn {
    SyscallReturn { rax: r.rax, rdi: r.rdi, rsi: r.rsi, rdx: r.rdx, rcx: r.rcx }
}

/// What the receive call hands the caller is the oldest message waiting
/// for it, read from the registers the kernel leaves, or nothing when no
/// message waits.
pub proof fn law_receive_reads_what_the_kernel_hands(
    k0: Kernel,
    k1: Kernel,
    r0: RegisterState,
    r1: RegisterState,
    act: KernelAction,
)
    requires
        caller_pid(k0) is Some,
        post_receive(k0, k1, r0, r1, act),
    ensures
        match oldest_for(k0.mailbox@, caller_pid(k0).unwrap()) {
            None => return_of(r1).rax == 5,
            Some(j) => {
                let e: Envelope = k0.mailbox@[j];
                &&& return_of(r1).rax == 0
                &&& return_of(r1).rdi == e.id
                &&& return_of(r1).rsi == e.from
                &&& return_of(r1).rdx == e.addr
                &&& return_of(r1).rcx == e.len
            },
        },
{
}

} // verus!
