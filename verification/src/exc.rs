//! Registration of the CPU exception handlers: vectors 0 to 31 and the
//! spurious-interrupt vector 255.

use vstd::prelude::*;
use crate::gdt::PrivilegeLevel;
use crate::idt::{Idt, InterruptHandler, IDT_ENTRIES};

verus! {

/// The addresses of the kernel's exception handlers.
#[derive(Debug, Clone, Copy, PartialEq, Eq, Structural)]
pub struct ExceptionHandlers {
    pub div0: u64,
    pub debug: u64,
    pub nmi: u64,
    pub breakpoint: u64,
    pub overflow: u64,
    pub bound_range: u64,
    pub invalid_opcode: u64,
    pub dev_unavailable: u64,
    pub double_fault: u64,
    pub coproc_segment_overrun: u64,
    pub invalid_tss: u64,
    pub segment_not_present: u64,
    pub stack_exc: u64,
    pub general_prot_fault: u64,
    pub page_fault: u64,
    pub reserved: u64,
    pub x87_fp: u64,
    pub align_chk: u64,
    pub machine_chk: u64,
    pub simd_fp: u64,
    pub hv_injection: u64,
    pub vmm_com: u64,
    pub security: u64,
    pub spurious: u64,
}

/// The vector of the spurious interrupt.
pub const SPURIOUS_VECTOR: u8 = 255;

/// Whether `v` is one of the vectors that [`init`] claims.
pub open spec fn is_exception_vector(v: int) -> bool {
    (0 <= v < 32) || v == 255
}

impl ExceptionHandlers {
    /// The handler of exception vector `v`.
    pub open spec fn spec_for_vector(self, v: int) -> u64 {
        if v == 0 {
            self.div0
        } else if v == 1 {
            self.debug
        } else if v == 2 {
            self.nmi
        } else if v == 3 {
            self.breakpoint
        } else if v == 4 {
            self.overflow
        } else if v == 5 {
            self.bound_range
        } else if v == 6 {
            self.invalid_opcode
        } else if v == 7 {
            self.dev_unavailable
        } else if v == 8 {
            self.double_fault
        } else if v == 9 {
            self.coproc_segment_overrun
        } else if v == 10 {
            self.invalid_tss
        } else if v == 11 {
            self.segment_not_present
        } else if v == 12 {
            self.stack_exc
        } else if v == 13 {
            self.general_prot_fault
        } else if v == 14 {
            self.page_fault
        } else if v == 16 {
            self.x87_fp
        } else if v == 17 {
            self.align_chk
        } else if v == 18 {
            self.machine_chk
        } else if v == 19 {
            self.simd_fp
        } else if v == 28 {
            self.hv_injection
        } else if v == 29 {
            self.vmm_com
        } else if v == 30 {
            self.security
        } else if v == 255 {
            self.spurious
        } else {
            self.reserved
        }
    }

    /// The handler of exception vector `v` (vectors without a handler of
    /// their own get the reserved-vector handler).
    pub fn for_vector(&self, v: u8) -> (r: u64)
        ensures
            r == self.spec_for_vector(v as int),
    {
        match v {
            0 => self.div0,
            1 => self.debug,
            2 => self.nmi,
            3 => self.breakpoint,
            4 => self.overflow,
            5 => self.bound_range,
            6 => self.invalid_opcode,
            7 => self.dev_unavailable,
            8 => self.double_fault,
            9 => self.coproc_segment_overrun,
            10 => self.invalid_tss,
            11 => self.segment_not_present,
            12 => self.stack_exc,
            13 => self.general_prot_fault,
            14 => self.page_fault,
            16 => self.x87_fp,
            17 => self.align_chk,
            18 => self.machine_chk,
            19 => self.simd_fp,
            28 => self.hv_injection,
            29 => self.vmm_com,
            30 => self.security,
            255 => self.spurious,
            _ => self.reserved,
        }
    }
}

/// The handler slot [`init`] gives exception vector `v`.
pub open spec fn exception_slot(h: ExceptionHandlers, v: int) -> InterruptHandler {
    InterruptHandler { func: h.spec_for_vector(v), is_irq: v == 255, should_iret: v == 255 }
}

/// The stack index [`init`] gives exception vector `v`: the double fault
/// runs on the first interrupt stack, every other exception on the current one.
pub open spec fn exception_ist(v: int) -> u16 {
    if v == 8 {
        1
    } else {
        0
    }
}

/// Installs the exception handlers: vectors 0 to 31 in ring 0, the
/// double fault on the first interrupt stack, and the spurious-interrupt
/// handler at vector 255, which is treated as an IRQ and returns with
/// `iretq`.
pub fn init(idt: &mut Idt, handlers: &ExceptionHandlers)
    requires
        old(idt).wf(),
        forall|v: int| is_exception_vector(v) ==> #[trigger] old(idt).is_free(v),
    ensures
        final(idt).wf(),
        final(idt).default_func == old(idt).default_func,
        forall|v: int|
            0 <= v < IDT_ENTRIES ==> #[trigger] final(idt).handlers@[v] == if is_exception_vector(v) {
                exception_slot(*handlers, v)
            } else {
                old(idt).handlers@[v]
            },
        forall|v: int|
            is_exception_vector(v) ==> {
                &&& (#[trigger] final(idt).entries@[v]).flags.spec_dpl_bits() == 0
                &&& final(idt).entries@[v].flags.spec_ist() == exception_ist(v)
            },
        forall|v: int|
            0 <= v < IDT_ENTRIES && !is_exception_vector(v) ==> #[trigger] final(idt).entries@[v]
                == old(idt).entries@[v],
{
    let dpl = PrivilegeLevel::Supervisor;
    let mut i: u8 = 0;
    while i < 32
        invariant
            i <= 32,
            dpl == PrivilegeLevel::Supervisor,
            idt.wf(),
            idt.default_func == old(idt).default_func,
            forall|v: int|
                0 <= v < IDT_ENTRIES ==> #[trigger] idt.handlers@[v] == if 0 <= v < i {
                    exception_slot(*handlers, v)
                } else {
                    old(idt).handlers@[v]
                },
            forall|v: int|
                0 <= v < i ==> {
                    &&& (#[trigger] idt.entries@[v]).flags.spec_dpl_bits() == 0
                    &&& idt.entries@[v].flags.spec_ist() == exception_ist(v)
                },
            forall|v: int| i <= v < IDT_ENTRIES ==> #[trigger] idt.entries@[v] == old(idt).entries@[v],
            forall|v: int| is_exception_vector(v) ==> #[trigger] old(idt).is_free(v),
        decreases 32 - i,
    {
        assert(old(idt).is_free(i as int));
        let ist: u8 = if i == 8 { 1 } else { 0 };
        let func = handlers.for_vector(i);
        idt.set_handler(i, ist, dpl, func, false, false);
        assert(idt.entries@[i as int].flags.spec_dpl_bits() == 0);
        assert(idt.entries@[i as int].flags.spec_ist() == exception_ist(i as int));
        i = i + 1;
    }
    assert(old(idt).is_free(255));
    let func = handlers.for_vector(SPURIOUS_VECTOR);
    idt.set_handler(SPURIOUS_VECTOR, 0, dpl, func, true, true);
}

/// Whether an exception interrupted kernel code: the interrupted code
/// segment selector has privilege level 0.
pub fn fault_in_kernel(cs: u64) -> (r: bool)
    ensures
        r == (cs % 4 == 0),
{
    assert((cs & 3u64 == 0) == (cs % 4 == 0)) by (bit_vector);
    cs & 3 == 0
}

/// What the error code of a page fault says.
#[derive(Debug, Clone, Copy, PartialEq, Eq, Structural)]
pub struct PageFaultCause {
    /// A protection violation rather than an access to a non-present page.
    pub protection_violation: bool,
    /// A write rather than a read.
    pub write: bool,
    /// In user rather than supervisor mode.
    pub user: bool,
    /// A reserved bit was set in a paging entry.
    pub reserved: bool,
    /// An instruction fetch.
    pub instruction_fetch: bool,
    /// A protection-key violation.
    pub protection_key: bool,
    /// An SGX access-control violation.
    pub sgx: bool,
}

/// The notes of a page-fault report, one for each further cause present.
pub open spec fn page_fault_notes(c: PageFaultCause) -> Seq<&'static str> {
    (if c.reserved { seq![" Page was reserved."] } else { Seq::empty() }) + (if c.instruction_fetch {
        seq![" Failed during an instruction fetch."]
    } else {
        Seq::empty()
    }) + (if c.protection_key { seq![" Protection key violatation."] } else { Seq::empty() }) + (
    if c.sgx {
        seq![" SGX violation."]
    } else {
        Seq::empty()
    })
}

/// Decodes a page-fault error code: bits 0 to 5 and 15.
pub fn page_fault_cause(err_code: u64) -> (r: PageFaultCause)
    ensures
        r.protection_violation == (err_code % 2 == 1),
        r.write == ((err_code / 2) % 2 == 1),
        r.user == ((err_code / 4) % 2 == 1),
        r.reserved == ((err_code / 8) % 2 == 1),
        r.instruction_fetch == ((err_code / 16) % 2 == 1),
        r.protection_key == ((err_code / 32) % 2 == 1),
        r.sgx == ((err_code / 0x8000) % 2 == 1),
{
    let e = err_code;
    assert(((e & 1u64) != 0) == (e % 2 == 1) && ((e & 2u64) != 0) == ((e / 2) % 2 == 1) && ((e & 4u64)
        != 0) == ((e / 4) % 2 == 1) && ((e & 8u64) != 0) == ((e / 8) % 2 == 1) && ((e & 16u64) != 0)
        == ((e / 16) % 2 == 1) && ((e & 32u64) != 0) == ((e / 32) % 2 == 1) && ((e & 0x8000u64) != 0)
        == ((e / 0x8000) % 2 == 1)) by (bit_vector);
    PageFaultCause {
        protection_violation: e & 1 != 0,
        write: e & 2 != 0,
        user: e & 4 != 0,
        reserved: e & 8 != 0,
        instruction_fetch: e & 16 != 0,
        protection_key: e & 32 != 0,
        sgx: e & 0x8000 != 0,
    }
}

/// The phrases the page-fault report is made of: the kind of fault, the
/// access, the mode, then a note for each further cause present.
pub fn page_fault_phrases(c: PageFaultCause) -> (r: (&'static str, &'static str, &'static str, Vec<&'static str>))
    ensures
        r.0@ == (if c.protection_violation {
            "a page-level protection violation"@
        } else {
            "a non-present page access"@
        }),
        r.1@ == (if c.write { "writing"@ } else { "reading"@ }),
        r.2@ == (if c.user { "user page"@ } else { "supervisor page"@ }),
        r.3@ == page_fault_notes(c),
{
    let kind = if c.protection_violation {
        "a page-level protection violation"
    } else {
        "a non-present page access"
    };
    let access = if c.write { "writing" } else { "reading" };
    let mode = if c.user { "user page" } else { "supervisor page" };
    let mut notes: Vec<&'static str> = Vec::new();
    if c.reserved {
        notes.push(" Page was reserved.");
    }
    if c.instruction_fetch {
        notes.push(" Failed during an instruction fetch.");
    }
    if c.protection_key {
        notes.push(" Protection key violatation.");
    }
    if c.sgx {
        notes.push(" SGX violation.");
    }
    assert(notes@ =~= page_fault_notes(c));
    (kind, access, mode, notes)
}

} // verus!
