//! The system-call interface shared by the kernel and user-space extensions.

use vstd::prelude::*;

verus! {

/// Offset at which user space sees physical memory.
pub const USER_PHYS_VIRT_OFFSET: u64 = 0xC000_0000;

/// Status code returned by the kernel in `rax` after a system call.
#[derive(Debug, Clone, Copy, PartialEq, Eq, Structural)]
pub enum SystemCallStatus {
    Success,
    InvalidRequest,
    MalformedData,
    UnknownRequest,
    NotFound,
    /// Nothing was there to hand out; the other registers are left as they were.
    DoNothing,
}

impl SystemCallStatus {
    /// The raw register value of a status.
    pub open spec fn spec_code(self) -> u64 {
        match self {
            SystemCallStatus::Success => 0,
            SystemCallStatus::InvalidRequest => 1,
            SystemCallStatus::MalformedData => 2,
            SystemCallStatus::UnknownRequest => 3,
            SystemCallStatus::NotFound => 4,
            SystemCallStatus::DoNothing => 5,
        }
    }

    /// The status a raw register value stands for, if any.
    pub open spec fn spec_from_code(raw: u64) -> Option<SystemCallStatus> {
        if raw == 0 {
            Some(SystemCallStatus::Success)
        } else if raw == 1 {
            Some(SystemCallStatus::InvalidRequest)
        } else if raw == 2 {
            Some(SystemCallStatus::MalformedData)
        } else if raw == 3 {
            Some(SystemCallStatus::UnknownRequest)
        } else if raw == 4 {
            Some(SystemCallStatus::NotFound)
        } else if raw == 5 {
            Some(SystemCallStatus::DoNothing)
        } else {
            None
        }
    }

    /// The result a status stands for: `Ok` for success, the status itself otherwise.
    pub open spec fn spec_as_result(self) -> Result<(), SystemCallStatus> {
        match self {
            SystemCallStatus::Success => Ok(()),
            _ => Err(self),
        }
    }

    /// Converts the status into its raw register value.
    pub fn code(self) -> (r: u64)
        ensures
            r == self.spec_code(),
    {
        match self {
            SystemCallStatus::Success => 0,
            SystemCallStatus::InvalidRequest => 1,
            SystemCallStatus::MalformedData => 2,
            SystemCallStatus::UnknownRequest => 3,
            SystemCallStatus::NotFound => 4,
            SystemCallStatus::DoNothing => 5,
        }
    }

    /// Decodes a raw register value; `None` for a value that names no status.
    pub fn from_code(raw: u64) -> (r: Option<SystemCallStatus>)
        ensures
            r == Self::spec_from_code(raw),
            r is Some <==> raw < 6,
            r matches Some(s) ==> s.spec_code() == raw,
    {
        if raw == 0 {
            Some(SystemCallStatus::Success)
        } else if raw == 1 {
            Some(SystemCallStatus::InvalidRequest)
        } else if raw == 2 {
            Some(SystemCallStatus::MalformedData)
        } else if raw == 3 {
            Some(SystemCallStatus::UnknownRequest)
        } else if raw == 4 {
            Some(SystemCallStatus::NotFound)
        } else if raw == 5 {
            Some(SystemCallStatus::DoNothing)
        } else {
            None
        }
    }

    /// `Ok(())` for `Success`, `Err(self)` for every other status.
    pub fn as_result(self) -> (r: Result<(), SystemCallStatus>)
        ensures
            r == self.spec_as_result(),
            r is Ok <==> self == SystemCallStatus::Success,
    {
        match self {
            SystemCallStatus::Success => Ok(()),
            _ => Err(self),
        }
    }

    /// Interprets the status register left by a system call.
    pub fn check(raw: u64) -> (r: Result<(), SystemCallStatus>)
        requires
            raw < 6,
        ensures
            r == Self::spec_from_code(raw).unwrap().spec_as_result(),
            r is Ok <==> raw == 0,
            r matches Err(s) ==> s.spec_code() == raw,
    {
        let s = Self::from_code(raw);
        s.unwrap().as_result()
    }
}

/// A message as a receiver sees it.
#[derive(Debug, Clone, Copy)]
pub struct Message {
    pub id: u64,
    pub proc_id: u64,
    pub data: &'static [u8],
}

impl Message {
    /// A message `id` from `proc_id` carrying `data`.
    pub fn new(id: u64, proc_id: u64, data: &'static [u8]) -> (r: Message)
        ensures
            r.id == id,
            r.proc_id == proc_id,
            r.data@ == data@,
    {
        Message { id, proc_id, data }
    }
}

/// The system calls, numbered in order from 0; the number goes in `rdi`.
#[derive(Debug, Clone, Copy, PartialEq, Eq, Structural)]
pub enum SystemCall {
    KPrint,
    ReceiveMessage,
    SendMessage,
    Exit,
    Skip,
    RegisterProvider,
    GetProvidingProcess,
    PortIn,
    PortOut,
    RegisterIRQHandler,
    Allocate,
    Free,
    Ack,
}

impl SystemCall {
    /// The number of a system call.
    pub open spec fn spec_code(self) -> u64 {
        match self {
            SystemCall::KPrint => 0,
            SystemCall::ReceiveMessage => 1,
            SystemCall::SendMessage => 2,
            SystemCall::Exit => 3,
            SystemCall::Skip => 4,
            SystemCall::RegisterProvider => 5,
            SystemCall::GetProvidingProcess => 6,
            SystemCall::PortIn => 7,
            SystemCall::PortOut => 8,
            SystemCall::RegisterIRQHandler => 9,
            SystemCall::Allocate => 10,
            SystemCall::Free => 11,
            SystemCall::Ack => 12,
        }
    }

    /// The system call a number stands for, if any.
    pub open spec fn spec_from_code(raw: u64) -> Option<SystemCall> {
        if raw == 0 {
            Some(SystemCall::KPrint)
        } else if raw == 1 {
            Some(SystemCall::ReceiveMessage)
        } else if raw == 2 {
            Some(SystemCall::SendMessage)
        } else if raw == 3 {
            Some(SystemCall::Exit)
        } else if raw == 4 {
            Some(SystemCall::Skip)
        } else if raw == 5 {
            Some(SystemCall::RegisterProvider)
        } else if raw == 6 {
            Some(SystemCall::GetProvidingProcess)
        } else if raw == 7 {
            Some(SystemCall::PortIn)
        } else if raw == 8 {
            Some(SystemCall::PortOut)
        } else if raw == 9 {
            Some(SystemCall::RegisterIRQHandler)
        } else if raw == 10 {
            Some(SystemCall::Allocate)
        } else if raw == 11 {
            Some(SystemCall::Free)
        } else if raw == 12 {
            Some(SystemCall::Ack)
        } else {
            None
        }
    }

    /// The number of a system call.
    pub fn code(self) -> (r: u64)
        ensures
            r == self.spec_code(),
    {
        match self {
            SystemCall::KPrint => 0,
            SystemCall::ReceiveMessage => 1,
            SystemCall::SendMessage => 2,
            SystemCall::Exit => 3,
            SystemCall::Skip => 4,
            SystemCall::RegisterProvider => 5,
            SystemCall::GetProvidingProcess => 6,
            SystemCall::PortIn => 7,
            SystemCall::PortOut => 8,
            SystemCall::RegisterIRQHandler => 9,
            SystemCall::Allocate => 10,
            SystemCall::Free => 11,
            SystemCall::Ack => 12,
        }
    }

    /// Decodes a system-call number; `None` for a number that names no call.
    pub fn from_code(raw: u64) -> (r: Option<SystemCall>)
        ensures
            r == Self::spec_from_code(raw),
            r is Some <==> raw < 13,
            r matches Some(c) ==> c.spec_code() == raw,
    {
        if raw == 0 {
            Some(SystemCall::KPrint)
        } else if raw == 1 {
            Some(SystemCall::ReceiveMessage)
        } else if raw == 2 {
            Some(SystemCall::SendMessage)
        } else if raw == 3 {
            Some(SystemCall::Exit)
        } else if raw == 4 {
            Some(SystemCall::Skip)
        } else if raw == 5 {
            Some(SystemCall::RegisterProvider)
        } else if raw == 6 {
            Some(SystemCall::GetProvidingProcess)
        } else if raw == 7 {
            Some(SystemCall::PortIn)
        } else if raw == 8 {
            Some(SystemCall::PortOut)
        } else if raw == 9 {
            Some(SystemCall::RegisterIRQHandler)
        } else if raw == 10 {
            Some(SystemCall::Allocate)
        } else if raw == 11 {
            Some(SystemCall::Free)
        } else if raw == 12 {
            Some(SystemCall::Ack)
        } else {
            None
        }
    }
}

/// The width of a port access.
#[derive(Debug, Clone, Copy, PartialEq, Eq, Structural)]
pub enum AccessSize {
    Byte,
    Word,
    DWord,
}

impl AccessSize {
    /// The register value of an access width.
    pub open spec fn spec_code(self) -> u64 {
        match self {
            AccessSize::Byte => 0,
            AccessSize::Word => 1,
            AccessSize::DWord => 2,
        }
    }

    /// The access width a register value stands for, if any.
    pub open spec fn spec_from_code(raw: u64) -> Option<AccessSize> {
        if raw == 0 {
            Some(AccessSize::Byte)
        } else if raw == 1 {
            Some(AccessSize::Word)
        } else if raw == 2 {
            Some(AccessSize::DWord)
        } else {
            None
        }
    }

    /// The register value of an access width.
    pub fn code(self) -> (r: u64)
        ensures
            r == self.spec_code(),
    {
        match self {
            AccessSize::Byte => 0,
            AccessSize::Word => 1,
            AccessSize::DWord => 2,
        }
    }

    /// Decodes an access width; `None` for a value that names none.
    pub fn from_code(raw: u64) -> (r: Option<AccessSize>)
        ensures
            r == Self::spec_from_code(raw),
            r is Some <==> raw < 3,
    {
        if raw == 0 {
            Some(AccessSize::Byte)
        } else if raw == 1 {
            Some(AccessSize::Word)
        } else if raw == 2 {
            Some(AccessSize::DWord)
        } else {
            None
        }
    }
}

/// A message the kernel sends to a process.
#[derive(Debug, Clone, Copy, PartialEq, Eq, Structural)]
pub enum KernelMessage {
    IRQFired(u8),
}

/// Whether `bytes[start..]` begins with a postcard varint of value 0 that
/// ends just before `end`: continuation bytes `0x80`, then `0x00`, at most
/// five bytes in all.
pub open spec fn zero_varint(bytes: Seq<u8>, end: int) -> bool {
    &&& 1 <= end <= 5
    &&& end <= bytes.len()
    &&& bytes[end - 1] == 0
    &&& forall|i: int| 0 <= i < end - 1 ==> #[trigger] bytes[i] == 0x80
}

impl KernelMessage {
    /// The postcard encoding: the variant index 0 as a one-byte varint,
    /// then the IRQ number.
    pub open spec fn spec_encode(self) -> Seq<u8> {
        match self {
            KernelMessage::IRQFired(irq) => seq![0u8, irq],
        }
    }

    /// Encodes the message the way postcard serialises it.
    pub fn encode(&self) -> (r: Vec<u8>)
        ensures
            r@ == self.spec_encode(),
    {
        match *self {
            KernelMessage::IRQFired(irq) => {
                let mut v: Vec<u8> = Vec::new();
                v.push(0u8);
                v.push(irq);
                assert(v@ =~= seq![0u8, irq]);
                v
            },
        }
    }

    /// What postcard decodes from `bytes`: the variant index (a varint,
    /// which must be 0) followed by one byte; trailing bytes are ignored.
    pub open spec fn spec_decode(bytes: Seq<u8>) -> Option<KernelMessage> {
        if exists|end: int| zero_varint(bytes, end) && end < bytes.len() {
            let end = choose|end: int| zero_varint(bytes, end) && end < bytes.len();
            Some(KernelMessage::IRQFired(bytes[end]))
        } else {
            None
        }
    }

    /// Decodes a message the way postcard deserialises it; `None` where
    /// postcard reports an error.
    pub fn decode(bytes: &[u8]) -> (r: Option<KernelMessage>)
        ensures
            r == Self::spec_decode(bytes@),
    {
        let n = bytes.len();
        let mut i: usize = 0;
        while i < n && i < 5
            invariant
                i <= n,
                n == bytes@.len(),
                i <= 5,
                forall|k: int| 0 <= k < i ==> #[trigger] bytes@[k] == 0x80,
            decreases 5 - i,
        {
            let b = bytes[i];
            assert(b & 0x80 == 0 ==> b != 0x80) by (bit_vector);
            if b & 0x80 == 0 {
                if b != 0 {
                    proof {
                        lemma_zero_varint_unique(bytes@, i as int);
                    }
                    return None;
                }
                if i + 1 < n {
                    proof {
                        assert(zero_varint(bytes@, i + 1));
                        lemma_zero_varint_unique(bytes@, i as int);
                    }
                    return Some(KernelMessage::IRQFired(bytes[i + 1]));
                }
                proof {
                    lemma_zero_varint_unique(bytes@, i as int);
                    assert(i + 1 == bytes@.len());
                    assert forall|end: int| !(zero_varint(bytes@, end) && end < bytes@.len()) by {
                        if zero_varint(bytes@, end) {
                            assert(end == i + 1);
                        }
                    }
                    assert(Self::spec_decode(bytes@) is None);
                }
                return None;
            }
            if b != 0x80 {
                assert(b & 0x80 != 0 ==> b != 0) by (bit_vector);
                proof {
                    lemma_zero_varint_unique(bytes@, i as int);
                    assert forall|end: int| !(zero_varint(bytes@, end) && end < bytes@.len()) by {
                        if zero_varint(bytes@, end) {
                            assert(bytes@[i as int] == 0);
                        }
                    }
                }
                return None;
            }
            i = i + 1;
        }
        proof {
            assert forall|end: int| !(zero_varint(bytes@, end) && end < bytes@.len()) by {
                if zero_varint(bytes@, end) {
                    assert(bytes@[end - 1] == 0);
                }
            }
        }
        None
    }
}

/// A status code read back gives the status it was written from.
pub proof fn lemma_status_code_roundtrip(s: SystemCallStatus)
    ensures
        SystemCallStatus::spec_from_code(s.spec_code()) == Some(s),
{
}

/// A system-call number read back gives the call it was written from.
pub proof fn lemma_system_call_code_roundtrip(c: SystemCall)
    ensures
        SystemCall::spec_from_code(c.spec_code()) == Some(c),
{
}

/// An access-size code read back gives the size it was written from.
pub proof fn lemma_access_size_code_roundtrip(a: AccessSize)
    ensures
        AccessSize::spec_from_code(a.spec_code()) == Some(a),
{
}

/// A kernel message decodes from its own encoding to itself.
pub proof fn lemma_kernel_message_roundtrip(m: KernelMessage)
    ensures
        KernelMessage::spec_decode(m.spec_encode()) == Some(m),
{
    let b = m.spec_encode();
    assert(zero_varint(b, 1));
    assert forall|end: int| zero_varint(b, end) && end < b.len() implies end == 1 by {
        if end == 2 {
            assert(b[0] == 0x80);
        }
    }
}

/// A zero varint can only end where the first byte without the
/// continuation bit stands, and only if that byte is 0.
proof fn lemma_zero_varint_unique(bytes: Seq<u8>, i: int)
    requires
        0 <= i < bytes.len(),
        i < 5,
        forall|k: int| 0 <= k < i ==> #[trigger] bytes[k] == 0x80,
        bytes[i] != 0x80,
    ensures
        forall|end: int| zero_varint(bytes, end) ==> end == i + 1 && bytes[i] == 0,
{
    assert forall|end: int| zero_varint(bytes, end) implies end == i + 1 && bytes[i] == 0 by {
        if end - 1 < i {
            assert(bytes[end - 1] == 0x80);
        } else if end - 1 > i {
            assert(bytes[i] == 0x80);
        }
    }
}

} // verus!
