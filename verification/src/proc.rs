//! Threads and their scheduling state.

use vstd::prelude::*;
use crate::gdt::{PrivilegeLevel, SegmentSelector};
use crate::regs::RegisterState;

verus! {

/// Size of a user thread's stack.
pub const STACK_SIZE: u64 = 0x14000;

/// Whether a thread runs, may run, or waits for a message.
#[derive(Debug, Clone, Copy, PartialEq, Eq, Structural)]
pub enum ThreadState {
    Active,
    Inactive,
    Suspended,
}

impl ThreadState {
    /// Whether the thread waits for a message.
    pub fn is_suspended(&self) -> (r: bool)
        ensures
            r == (*self == ThreadState::Suspended),
    {
        *self == ThreadState::Suspended
    }

    /// Whether the thread may be scheduled.
    pub fn is_inactive(&self) -> (r: bool)
        ensures
            r == (*self == ThreadState::Inactive),
    {
        *self == ThreadState::Inactive
    }
}

/// A user thread.
#[derive(Debug, Clone, Copy)]
pub struct Thread {
    pub id: u64,
    pub pid: u64,
    pub state: ThreadState,
    pub regs: RegisterState,
    pub fs_base: usize,
    pub gs_base: usize,
    pub stack_addr: u64,
}

impl Thread {
    /// The registers a new user thread starts with: at `rip`, on the top of
    /// its stack, in the user code and data segments, interrupts enabled.
    pub open spec fn initial_regs(rip: u64, stack_addr: u64) -> RegisterState {
        RegisterState {
            rip,
            cs: 27,
            rflags: 0x202,
            rsp: (stack_addr + STACK_SIZE) as u64,
            ss: 35,
            ..RegisterState::spec_zeroed()
        }
    }

    /// A new, not yet scheduled user thread.
    pub fn new(id: u64, pid: u64, rip: u64, stack_addr: u64) -> (r: Thread)
        requires
            stack_addr + STACK_SIZE <= u64::MAX,
        ensures
            r.id == id,
            r.pid == pid,
            r.state == ThreadState::Inactive,
            r.regs == Self::initial_regs(rip, stack_addr),
            r.fs_base == 0,
            r.gs_base == 0,
            r.stack_addr == stack_addr,
    {
        let mut regs = RegisterState::zeroed();
        regs.rip = rip;
        regs.cs = SegmentSelector::new(3, PrivilegeLevel::User).0 as u64;
        regs.rflags = 0x202;
        regs.rsp = stack_addr + STACK_SIZE;
        regs.ss = SegmentSelector::new(4, PrivilegeLevel::User).0 as u64;
        Thread { id, pid, state: ThreadState::Inactive, regs, fs_base: 0, gs_base: 0, stack_addr }
    }
}

} // verus!
