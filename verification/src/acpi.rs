//! ACPI tables: the root pointer, the root tables listing the others, table
//! checksums, and the interrupt-controller records of the MADT.
//!
//! Tables are read from their bytes; multi-byte fields are little-endian.

use vstd::prelude::*;
use crate::pmm::PHYS_VIRT_OFFSET;

verus! {

/// The little-endian 16-bit value at `off`.
pub open spec fn le16(b: Seq<u8>, off: int) -> int {
    b[off] + 256 * b[off + 1]
}

/// The little-endian 32-bit value at `off`.
pub open spec fn le32(b: Seq<u8>, off: int) -> int {
    le16(b, off) + 65536 * le16(b, off + 2)
}

/// The little-endian 64-bit value at `off`.
pub open spec fn le64(b: Seq<u8>, off: int) -> int {
    le32(b, off) + 0x1_0000_0000 * le32(b, off + 4)
}

/// Reads a little-endian `u16`.
pub fn read_u16(b: &[u8], off: usize) -> (r: u16)
    requires
        off + 2 <= b@.len(),
    ensures
        r == le16(b@, off as int),
{
    b[off] as u16 + (b[off + 1] as u16) * 256
}

/// Reads a little-endian `u32`.
pub fn read_u32(b: &[u8], off: usize) -> (r: u32)
    requires
        off + 4 <= b@.len(),
    ensures
        r == le32(b@, off as int),
{
    let n = b.len();
    read_u16(b, off) as u32 + (read_u16(b, off + 2) as u32) * 65536
}

/// Reads a little-endian `u64`.
pub fn read_u64(b: &[u8], off: usize) -> (r: u64)
    requires
        off + 8 <= b@.len(),
    ensures
        r == le64(b@, off as int),
{
    let n = b.len();
    read_u32(b, off) as u64 + (read_u32(b, off + 4) as u64) * 0x1_0000_0000
}

/// The sum of the first `n` bytes.
pub open spec fn byte_sum(b: Seq<u8>, n: int) -> int
    decreases n,
{
    if n <= 0 {
        0
    } else {
        byte_sum(b, n - 1) + b[n - 1]
    }
}

/// Whether the first `n` bytes add up to 0 modulo 256.
pub fn checksum_ok(b: &[u8], n: usize) -> (r: bool)
    requires
        n <= b@.len(),
    ensures
        r == (byte_sum(b@, n as int) % 256 == 0),
{
    let mut sum: u8 = 0;
    let mut i: usize = 0;
    while i < n
        invariant
            i <= n,
            n <= b@.len(),
            sum == byte_sum(b@, i as int) % 256,
        decreases n - i,
    {
        sum = sum.wrapping_add(b[i]);
        i = i + 1;
    }
    sum == 0
}

/// Size of the common header of the system description tables.
pub const SDT_HEADER_SIZE: usize = 36;

/// A system description table: its address and its bytes, header first
/// (signature, length, revision, checksum, OEM fields).
#[derive(Debug, Clone)]
pub struct SDTHeader {
    pub addr: u64,
    pub bytes: Vec<u8>,
}

impl SDTHeader {
    /// The table length the header declares.
    pub open spec fn spec_length(&self) -> int {
        if self.bytes@.len() >= 8 {
            le32(self.bytes@, 4)
        } else {
            0
        }
    }

    /// The length the header declares (0 when the header is cut short).
    pub fn length(&self) -> (r: usize)
        ensures
            r == self.spec_length(),
    {
        if self.bytes.len() >= 8 {
            read_u32(&self.bytes, 4) as usize
        } else {
            0
        }
    }

    /// The four signature bytes.
    pub open spec fn spec_signature(&self) -> Seq<u8> {
        self.bytes@.take(4)
    }

    /// Whether the table's signature is `sig`.
    pub fn has_signature(&self, sig: &[u8; 4]) -> (r: bool)
        ensures
            r == (self.bytes@.len() >= 4 && self.spec_signature() == sig@),
    {
        if self.bytes.len() < 4 {
            return false;
        }
        let ok = self.bytes[0] == sig[0] && self.bytes[1] == sig[1] && self.bytes[2] == sig[2]
            && self.bytes[3] == sig[3];
        proof {
            if ok {
                assert(self.spec_signature() =~= sig@);
            } else {
                assert(self.spec_signature() != sig@ ==> true);
                if self.spec_signature() == sig@ {
                    assert(self.spec_signature()[0] == sig@[0]);
                    assert(self.spec_signature()[1] == sig@[1]);
                    assert(self.spec_signature()[2] == sig@[2]);
                    assert(self.spec_signature()[3] == sig@[3]);
                }
            }
        }
        ok
    }

    /// A table is valid when the bytes it declares are all there and add up to 0.
    pub open spec fn spec_valid(&self) -> bool {
        self.spec_length() <= self.bytes@.len() && byte_sum(self.bytes@, self.spec_length()) % 256 == 0
    }

    /// Checks the table's checksum over its declared length.
    pub fn validate(&self) -> (r: bool)
        ensures
            r == self.spec_valid(),
    {
        let n = self.length();
        if n > self.bytes.len() {
            return false;
        }
        checksum_ok(&self.bytes, n)
    }
}

/// The root system description pointer.
#[derive(Debug, Clone, Copy)]
pub struct RootSystemDescPtr {
    pub signature: [u8; 8],
    pub checksum: u8,
    pub oem_id: [u8; 6],
    pub revision: u8,
    pub rsdt_addr: u32,
    pub length: u32,
    pub xsdt_addr: u64,
    pub extended_checksum: u8,
    pub reserved: [u8; 3],
}

/// The root table listing the other tables: 32-bit entries in the RSDT of
/// ACPI 1.0, 64-bit ones in the XSDT; each holds the table's address in the
/// direct map.
#[derive(Debug, Clone, Copy, PartialEq, Eq, Structural)]
pub enum RSDTType {
    RootSystemDescTable(u64),
    ExtendedSystemDescTable(u64),
}

/// Whether `b` is ASCII white space, as `str::trim` takes it.
pub open spec fn is_space(b: u8) -> bool {
    b == 0x20 || (0x09 <= b && b <= 0x0D)
}

/// `[a, b)` is `s` without its leading and trailing white space.
pub open spec fn trimmed_bounds(s: Seq<u8>, a: int, b: int) -> bool {
    &&& 0 <= a <= b <= s.len()
    &&& forall|k: int| 0 <= k < a ==> is_space(#[trigger] s[k])
    &&& forall|k: int| b <= k < s.len() ==> is_space(#[trigger] s[k])
    &&& a < b ==> !is_space(s[a]) && !is_space(s[b - 1])
}

/// `s` without its leading and trailing white space.
pub open spec fn trimmed(s: Seq<u8>, r: Seq<u8>) -> bool {
    exists|a: int, b: int| trimmed_bounds(s, a, b) && r == s.subrange(a, b)
}

fn space(b: u8) -> (r: bool)
    ensures
        r == is_space(b),
{
    b == 0x20 || (0x09 <= b && b <= 0x0D)
}

/// The extended system description table, listing the other tables by
/// their 64-bit addresses; it is a table like the others, header first.
#[derive(Debug, Clone)]
pub struct Xsdt(pub SDTHeader);

impl Xsdt {
    /// The table's header and bytes.
    pub fn header(&self) -> (r: &SDTHeader)
        ensures
            *r == self.0,
    {
        &self.0
    }
}

impl RootSystemDescPtr {
    /// The pointer stored in the 36 bytes of `b`.
    pub open spec fn spec_parse(b: Seq<u8>) -> RootSystemDescPtr {
        RootSystemDescPtr {
            signature: [b[0], b[1], b[2], b[3], b[4], b[5], b[6], b[7]],
            checksum: b[8],
            oem_id: [b[9], b[10], b[11], b[12], b[13], b[14]],
            revision: b[15],
            rsdt_addr: le32(b, 16) as u32,
            length: le32(b, 20) as u32,
            xsdt_addr: le64(b, 24) as u64,
            extended_checksum: b[32],
            reserved: [b[33], b[34], b[35]],
        }
    }

    /// Reads the pointer from its 36 bytes.
    pub fn parse(b: &[u8]) -> (r: RootSystemDescPtr)
        requires
            b@.len() >= 36,
        ensures
            r == Self::spec_parse(b@),
    {
        RootSystemDescPtr {
            signature: [b[0], b[1], b[2], b[3], b[4], b[5], b[6], b[7]],
            checksum: b[8],
            oem_id: [b[9], b[10], b[11], b[12], b[13], b[14]],
            revision: b[15],
            rsdt_addr: read_u32(b, 16),
            length: read_u32(b, 20),
            xsdt_addr: read_u64(b, 24),
            extended_checksum: b[32],
            reserved: [b[33], b[34], b[35]],
        }
    }

    /// The OEM id without its surrounding white space. The firmware fills
    /// it with ASCII text.
    pub fn oem_id(&self) -> (r: &[u8])
        requires
            forall|k: int| 0 <= k < 6 ==> #[trigger] self.oem_id@[k] < 0x80,
        ensures
            trimmed(self.oem_id@, r@),
    {
        let s = vstd::array::array_as_slice(&self.oem_id);
        let mut a: usize = 0;
        while a < 6 && space(s[a])
            invariant
                a <= 6,
                s@ == self.oem_id@,
                s@.len() == 6,
                forall|k: int| 0 <= k < a ==> is_space(#[trigger] s@[k]),
            decreases 6 - a,
        {
            a = a + 1;
        }
        let mut b: usize = 6;
        while b > a && space(s[b - 1])
            invariant
                a <= b <= 6,
                s@ == self.oem_id@,
                s@.len() == 6,
                forall|k: int| b <= k < 6 ==> is_space(#[trigger] s@[k]),
            decreases b - a,
        {
            b = b - 1;
        }
        let r = vstd::slice::slice_subrange(s, a, b);
        assert(trimmed_bounds(s@, a as int, b as int));
        r
    }

    /// The number of bytes the pointer spans: 20 for revision 0, the stored length otherwise.
    pub open spec fn spec_length(&self) -> int {
        if self.revision == 0 {
            20
        } else {
            self.length as int
        }
    }

    /// The number of bytes the pointer spans.
    pub fn length(&self) -> (r: usize)
        ensures
            r == self.spec_length(),
    {
        if self.revision == 0 {
            20
        } else {
            self.length as usize
        }
    }

    /// Whether the pointer's bytes, over its length, add up to 0.
    pub fn validate(&self, raw: &[u8]) -> (r: bool)
        requires
            self.spec_length() <= raw@.len(),
        ensures
            r == (byte_sum(raw@, self.spec_length()) % 256 == 0),
    {
        checksum_ok(raw, self.length())
    }

    /// The root table: the RSDT for revision 0, the XSDT otherwise, at its
    /// direct-map address (the sum wraps around 2^64).
    pub fn as_type(&self) -> (r: RSDTType)
        ensures
            r == (if self.revision == 0 {
                RSDTType::RootSystemDescTable(
                    (self.rsdt_addr as int + PHYS_VIRT_OFFSET) as u64,
                )
            } else {
                RSDTType::ExtendedSystemDescTable(((self.xsdt_addr as int + PHYS_VIRT_OFFSET) % 0x1_0000_0000_0000_0000) as u64)
            }),
    {
        if self.revision == 0 {
            RSDTType::RootSystemDescTable(self.rsdt_addr as u64 + PHYS_VIRT_OFFSET)
        } else {
            RSDTType::ExtendedSystemDescTable(self.xsdt_addr.wrapping_add(PHYS_VIRT_OFFSET))
        }
    }
}

/// The tables listed in a root table, in order.
#[derive(Debug, Clone)]
pub struct RSDTTypeIter {
    pub table: Vec<u8>,
    pub is_xsdt: bool,
    pub curr: usize,
    pub total: usize,
}

/// The entry at position `i` of a root table, as a direct-map address (wrapping).
pub open spec fn root_entry(table: Seq<u8>, is_xsdt: bool, i: int) -> u64 {
    if is_xsdt {
        ((le64(table, 36 + 8 * i) + PHYS_VIRT_OFFSET) % 0x1_0000_0000_0000_0000) as u64
    } else {
        (le32(table, 36 + 4 * i) + PHYS_VIRT_OFFSET) as u64
    }
}

impl RSDTTypeIter {
    /// The iterator over the entries of a root table whose bytes are
    /// `table`: as many as fit after the header in the declared length.
    pub fn new(table: Vec<u8>, is_xsdt: bool) -> (r: RSDTTypeIter)
        requires
            table@.len() >= 8,
            le32(table@, 4) <= table@.len(),
            le32(table@, 4) >= 36,
        ensures
            r.table@ == table@,
            r.is_xsdt == is_xsdt,
            r.curr == 0,
            r.total == (le32(table@, 4) - 36) / (if is_xsdt { 8int } else { 4 }),
    {
        let length = read_u32(&table, 4) as usize;
        let total = (length - SDT_HEADER_SIZE) / if is_xsdt { 8 } else { 4 };
        RSDTTypeIter { table, is_xsdt, curr: 0, total }
    }

    /// The iterator's invariant: every counted entry lies in the table.
    pub open spec fn wf(&self) -> bool {
        &&& self.curr <= self.total
        &&& 36 + self.total * (if self.is_xsdt { 8int } else { 4 }) <= self.table@.len()
    }

    /// The next table address, or `None` once every entry was handed out.
    pub fn next(&mut self) -> (r: Option<u64>)
        requires
            old(self).wf(),
        ensures
            final(self).wf(),
            final(self).table == old(self).table,
            final(self).is_xsdt == old(self).is_xsdt,
            final(self).total == old(self).total,
            old(self).curr == old(self).total ==> r is None && final(self).curr == old(self).curr,
            old(self).curr < old(self).total ==> r == Some(
                root_entry(old(self).table@, old(self).is_xsdt, old(self).curr as int),
            ) && final(self).curr == old(self).curr + 1,
    {
        if self.curr == self.total {
            return None;
        }
        let i = self.curr;
        let n = self.table.len();
        let addr = if self.is_xsdt {
            read_u64(&self.table, 36 + 8 * i).wrapping_add(PHYS_VIRT_OFFSET)
        } else {
            read_u32(&self.table, 36 + 4 * i) as u64 + PHYS_VIRT_OFFSET
        };
        self.curr = i + 1;
        Some(addr)
    }
}

/// The tables the firmware describes and the ACPI revision.
#[derive(Debug, Clone)]
pub struct ACPIState {
    pub version: u8,
    pub tables: Vec<SDTHeader>,
}

impl ACPIState {
    /// Keeps the tables whose checksum is right, in order.
    pub fn new(revision: u8, candidates: Vec<SDTHeader>) -> (r: ACPIState)
        ensures
            r.version == revision,
            r.tables@ == candidates@.filter(|t: SDTHeader| t.spec_valid()),
    {
        let ghost all = candidates@;
        let mut rest = candidates;
        let mut tables: Vec<SDTHeader> = Vec::new();
        let ghost mut done: int = 0;
        while rest.len() > 0
            invariant
                0 <= done <= all.len(),
                rest@ == all.skip(done),
                tables@ == all.take(done).filter(|t: SDTHeader| t.spec_valid()),
            decreases rest@.len(),
        {
            let ent = rest.remove(0);
            proof {
                assert(all.take(done + 1) == all.take(done).push(all[done]));
                all.take(done).lemma_filter_push(all[done], |t: SDTHeader| t.spec_valid());
                assert(ent == all[done]);
            }
            if ent.validate() {
                tables.push(ent);
            }
            proof {
                done = done + 1;
                assert(rest@ =~= all.skip(done));
            }
        }
        proof {
            assert(all.take(done) =~= all);
        }
        ACPIState { version: revision, tables }
    }

    /// The position of the first table with the signature, if any.
    pub fn find(&self, signature: &[u8; 4]) -> (r: Option<usize>)
        ensures
            r matches Some(i) ==> i < self.tables@.len() && self.tables@[i as int].bytes@.len() >= 4
                && self.tables@[i as int].spec_signature() == signature@ && forall|j: int|
                0 <= j < i ==> !(self.tables@[j].bytes@.len() >= 4 && #[trigger] self.tables@[j].spec_signature() == signature@),
            r is None ==> forall|j: int|
                0 <= j < self.tables@.len() ==> !(self.tables@[j].bytes@.len() >= 4 && #[trigger] self.tables@[j].spec_signature() == signature@),
    {
        let mut i: usize = 0;
        while i < self.tables.len()
            invariant
                i <= self.tables@.len(),
                forall|j: int|
                    0 <= j < i ==> !(self.tables@[j].bytes@.len() >= 4 && #[trigger] self.tables@[j].spec_signature() == signature@),
            decreases self.tables@.len() - i,
        {
            if self.tables[i].has_signature(signature) {
                return Some(i);
            }
            i = i + 1;
        }
        None
    }
}

} // verus!
