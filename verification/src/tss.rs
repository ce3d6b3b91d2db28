//! The task state segment.

use vstd::prelude::*;

verus! {

/// The 64-bit task state segment: the stacks the processor switches to
/// and the I/O permission bitmap.
#[derive(Debug, Clone, Copy)]
pub struct TaskSegmentSelector {
    pub reserved0: u32,
    pub privilege_stack_table: [u64; 3],
    pub reserved1: u64,
    pub interrupt_stack_table: [u64; 7],
    pub reserved2: u64,
    pub reserved3: u16,
    pub io_bitmap_offset: u16,
    pub io_bitmap: [u8; 8193],
}

impl TaskSegmentSelector {
    /// A segment whose ring-0 stack and first interrupt stack are `kern_rsp`,
    /// with the I/O bitmap right after the segment and every port allowed.
    pub fn new(kern_rsp: u64) -> (r: TaskSegmentSelector)
        ensures
            r.privilege_stack_table@ == seq![kern_rsp, 0u64, 0u64],
            r.interrupt_stack_table@ == seq![kern_rsp, 0u64, 0u64, 0u64, 0u64, 0u64, 0u64],
            r.io_bitmap_offset == 112,
            forall|i: int| 0 <= i < 8193 ==> r.io_bitmap@[i] == 0,
            r.reserved0 == 0,
            r.reserved1 == 0,
            r.reserved2 == 0,
            r.reserved3 == 0,
    {
        let r = TaskSegmentSelector {
            reserved0: 0,
            privilege_stack_table: [kern_rsp, 0, 0],
            reserved1: 0,
            interrupt_stack_table: [kern_rsp, 0, 0, 0, 0, 0, 0],
            reserved2: 0,
            reserved3: 0,
            io_bitmap_offset: 112,
            io_bitmap: [0u8; 8193],
        };
        assert(r.privilege_stack_table@ =~= seq![kern_rsp, 0u64, 0u64]);
        assert(r.interrupt_stack_table@ =~= seq![kern_rsp, 0u64, 0u64, 0u64, 0u64, 0u64, 0u64]);
        r
    }
}

} // verus!
