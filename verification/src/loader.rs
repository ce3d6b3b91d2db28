//! Loading of position-independent executables: the in-memory image is
//! as large as the furthest segment reaches, holds the file bytes of each
//! loadable segment at its virtual address and zeros elsewhere, and gets
//! its relative relocations applied for the address it is mapped at.

use vstd::prelude::*;

verus! {

/// `e_type` of a position-independent executable.
pub const ET_DYN: u16 = 3;

/// `p_type` of a loadable segment.
pub const PT_LOAD: u32 = 1;

/// Relocation type that does nothing.
pub const R_X86_64_NONE: u32 = 0;

/// Relocation type that stores the image address plus the addend.
pub const R_X86_64_RELATIVE: u32 = 8;

/// The word size of an ELF file.
#[derive(Debug, Clone, Copy, PartialEq, Eq, Structural)]
pub enum ElfClass {
    Elf32,
    Elf64,
}

/// What the loader reads of an ELF file header.
#[derive(Debug, Clone, Copy, PartialEq, Eq, Structural)]
pub struct ElfHeader {
    pub e_type: u16,
    pub class: ElfClass,
    pub e_entry: u64,
}

/// A program header.
#[derive(Debug, Clone, Copy, PartialEq, Eq, Structural)]
pub struct ProgramHeader {
    pub p_type: u32,
    pub p_offset: u64,
    pub p_vaddr: u64,
    pub p_paddr: u64,
    pub p_filesz: u64,
    pub p_memsz: u64,
    pub p_flags: u32,
    pub p_align: u64,
}

/// A section header.
#[derive(Debug, Clone, Copy, PartialEq, Eq, Structural)]
pub struct SectionHeader {
    pub sh_name: u32,
    pub sh_type: u32,
    pub sh_flags: u64,
    pub sh_addr: u64,
    pub sh_offset: u64,
    pub sh_size: u64,
    pub sh_link: u32,
    pub sh_info: u32,
    pub sh_addralign: u64,
    pub sh_entsize: u64,
}

/// A relocation with an explicit addend.
#[derive(Debug, Clone, Copy, PartialEq, Eq, Structural)]
pub struct Rela {
    pub r_offset: u64,
    pub r_sym: u32,
    pub r_type: u32,
    pub r_addend: i64,
}

/// Why an executable cannot be loaded.
#[derive(Debug, Clone, Copy, PartialEq, Eq, Structural)]
pub enum LoadError {
    /// The file does not parse as ELF.
    Malformed,
    /// It is not a position-independent executable.
    NotDynamic,
    /// It is not a 64-bit file.
    Not64Bit,
    /// Its entry point is 0.
    NoEntry,
    /// It has no program headers.
    NoSegments,
    /// A segment reaches past the address space, past the file, or past the image.
    BadLayout,
    /// It has no section header table.
    NoSections,
    /// A relocation is of a type other than `R_X86_64_NONE` and
    /// `R_X86_64_RELATIVE`, or writes outside the image or past 64 bits.
    BadRelocation,
}

/// The sequence a vector holds, if any.
pub open spec fn opt_seq<T>(o: Option<Vec<T>>) -> Option<Seq<T>> {
    match o {
        Some(v) => Some(v@),
        None => None,
    }
}

/// One past the last virtual address of a segment in memory.
pub open spec fn segment_end(p: ProgramHeader) -> int {
    p.p_vaddr + p.p_memsz
}

/// The furthest any of the first `n` segments reaches; 0 for none.
pub open spec fn max_end(segs: Seq<ProgramHeader>, n: int) -> int
    decreases n,
{
    if n <= 0 {
        0
    } else {
        let m = max_end(segs, n - 1);
        if segment_end(segs[n - 1]) > m {
            segment_end(segs[n - 1])
        } else {
            m
        }
    }
}

/// Every segment's end fits in 64 bits.
pub open spec fn ends_fit(segs: Seq<ProgramHeader>) -> bool {
    forall|i: int| 0 <= i < segs.len() ==> segment_end(#[trigger] segs[i]) <= u64::MAX
}

/// `s` with `src` written over it from index `at` on.
pub open spec fn copy_into(s: Seq<u8>, at: int, src: Seq<u8>) -> Seq<u8> {
    s.subrange(0, at) + src + s.subrange(at + src.len(), s.len() as int)
}

/// The file bytes of a segment.
pub open spec fn file_bytes(exec: Seq<u8>, p: ProgramHeader) -> Seq<u8> {
    exec.subrange(p.p_offset as int, p.p_offset + p.p_filesz)
}

/// The image of `size` zeros after the first `n` segments are copied in,
/// in order: each loadable segment's file bytes at its virtual address.
pub open spec fn loaded(exec: Seq<u8>, segs: Seq<ProgramHeader>, size: nat, n: int) -> Seq<u8>
    decreases n,
{
    if n <= 0 {
        Seq::new(size, |i: int| 0u8)
    } else {
        let prev = loaded(exec, segs, size, n - 1);
        let p = segs[n - 1];
        if p.p_type == PT_LOAD {
            copy_into(prev, p.p_vaddr as int, file_bytes(exec, p))
        } else {
            prev
        }
    }
}

/// Every loadable segment's file bytes lie in the file, and their place in
/// the image lies in the image.
pub open spec fn segments_fit(exec_len: int, segs: Seq<ProgramHeader>, size: int) -> bool {
    forall|i: int|
        0 <= i < segs.len() && (#[trigger] segs[i]).p_type == PT_LOAD ==> {
            &&& segs[i].p_vaddr + segs[i].p_filesz <= size
            &&& segs[i].p_offset + segs[i].p_filesz <= exec_len
        }
}

/// The magnitude of an addend as an unsigned word (2^63 for the least `i64`).
pub open spec fn addend_magnitude(a: i64) -> u64 {
    if a >= 0 {
        a as u64
    } else if a == i64::MIN {
        0x8000_0000_0000_0000u64
    } else {
        (-a) as u64
    }
}

/// The little-endian bytes of a word.
pub open spec fn le_bytes(v: u64) -> Seq<u8> {
    Seq::new(8, |i: int| (v >> ((8 * i) as u64)) as u8)
}

/// The value a relative relocation stores for an image mapped at `virt`.
pub open spec fn relative_value(r: Rela, virt: u64) -> int {
    virt + addend_magnitude(r.r_addend)
}

/// The image after one relocation.
pub open spec fn apply_rela(s: Seq<u8>, r: Rela, virt: u64) -> Seq<u8> {
    if r.r_type == R_X86_64_RELATIVE {
        copy_into(s, r.r_offset as int, le_bytes(relative_value(r, virt) as u64))
    } else {
        s
    }
}

/// The image after the first `n` relocations, in order.
pub open spec fn relocated(s: Seq<u8>, relas: Seq<Rela>, virt: u64, n: int) -> Seq<u8>
    decreases n,
{
    if n <= 0 {
        s
    } else {
        apply_rela(relocated(s, relas, virt, n - 1), relas[n - 1], virt)
    }
}

/// A relocation the loader can apply to an image of `len` bytes mapped at `virt`.
pub open spec fn rela_ok(r: Rela, len: int, virt: u64) -> bool {
    ||| r.r_type == R_X86_64_NONE
    ||| {
        &&& r.r_type == R_X86_64_RELATIVE
        &&& r.r_offset + 8 <= len
        &&& relative_value(r, virt) <= u64::MAX
    }
}

/// Every relocation of the list can be applied.
pub open spec fn relas_ok(relas: Seq<Rela>, len: int, virt: u64) -> bool {
    forall|i: int| 0 <= i < relas.len() ==> rela_ok(#[trigger] relas[i], len, virt)
}

/// The image has the size it was made with.
proof fn lemma_loaded_len(exec: Seq<u8>, segs: Seq<ProgramHeader>, size: nat, n: int)
    requires
        0 <= n <= segs.len(),
        segments_fit(exec.len() as int, segs, size as int),
    ensures
        loaded(exec, segs, size, n).len() == size,
    decreases n,
{
    if n > 0 {
        lemma_loaded_len(exec, segs, size, n - 1);
        assert(0 <= n - 1 < segs.len());
    }
}

/// Byte `i` of loadable segment `k` lands at the segment's virtual address
/// plus `i`, unless a later loadable segment's file bytes cover that place.
pub proof fn law_segment_bytes_loaded(exec: Seq<u8>, segs: Seq<ProgramHeader>, size: nat, k: int, i: int)
    requires
        segments_fit(exec.len() as int, segs, size as int),
        0 <= k < segs.len(),
        segs[k].p_type == PT_LOAD,
        0 <= i < segs[k].p_filesz,
        forall|j: int|
            k < j < segs.len() && (#[trigger] segs[j]).p_type == PT_LOAD ==> !(segs[j].p_vaddr <= segs[k].p_vaddr
                + i < segs[j].p_vaddr + segs[j].p_filesz),
    ensures
        loaded(exec, segs, size, segs.len() as int)[segs[k].p_vaddr + i] == exec[segs[k].p_offset + i],
{
    lemma_segment_bytes_kept(exec, segs, size, k, i, segs.len() as int);
}

proof fn lemma_segment_bytes_kept(exec: Seq<u8>, segs: Seq<ProgramHeader>, size: nat, k: int, i: int, n: int)
    requires
        segments_fit(exec.len() as int, segs, size as int),
        0 <= k < n <= segs.len(),
        segs[k].p_type == PT_LOAD,
        0 <= i < segs[k].p_filesz,
        forall|j: int|
            k < j < segs.len() && (#[trigger] segs[j]).p_type == PT_LOAD ==> !(segs[j].p_vaddr <= segs[k].p_vaddr
                + i < segs[j].p_vaddr + segs[j].p_filesz),
    ensures
        loaded(exec, segs, size, n)[segs[k].p_vaddr + i] == exec[segs[k].p_offset + i],
    decreases n,
{
    let p = segs[k];
    assert(p.p_vaddr + p.p_filesz <= size);
    assert(p.p_offset + p.p_filesz <= exec.len());
    lemma_loaded_len(exec, segs, size, n - 1);
    if n == k + 1 {
        let prev = loaded(exec, segs, size, k);
        assert(file_bytes(exec, p).len() == p.p_filesz);
        assert(copy_into(prev, p.p_vaddr as int, file_bytes(exec, p))[p.p_vaddr + i] == file_bytes(exec, p)[i]);
    } else {
        lemma_segment_bytes_kept(exec, segs, size, k, i, n - 1);
        let q = segs[n - 1];
        if q.p_type == PT_LOAD {
            assert(q.p_vaddr + q.p_filesz <= size);
            assert(q.p_offset + q.p_filesz <= exec.len());
            let prev = loaded(exec, segs, size, n - 1);
            assert(file_bytes(exec, q).len() == q.p_filesz);
            let idx = p.p_vaddr + i;
            if idx < q.p_vaddr {
                assert(copy_into(prev, q.p_vaddr as int, file_bytes(exec, q))[idx] == prev[idx]);
            } else {
                assert(copy_into(prev, q.p_vaddr as int, file_bytes(exec, q))[idx] == prev[idx]);
            }
        }
    }
}

/// Relocations of type `R_X86_64_NONE` alone leave the image as it is.
pub proof fn law_null_relocations_keep_image(s: Seq<u8>, relas: Seq<Rela>, virt: u64, n: int)
    requires
        0 <= n <= relas.len(),
        forall|j: int| 0 <= j < relas.len() ==> (#[trigger] relas[j]).r_type == R_X86_64_NONE,
    ensures
        relocated(s, relas, virt, n) == s,
    decreases n,
{
    if n > 0 {
        law_null_relocations_keep_image(s, relas, virt, n - 1);
        assert(relas[n - 1].r_type == R_X86_64_NONE);
    }
}

/// The size of the image: the furthest any segment reaches in memory.
pub fn image_size(segs: &Vec<ProgramHeader>) -> (r: u64)
    requires
        segs@.len() > 0,
        ends_fit(segs@),
    ensures
        r == max_end(segs@, segs@.len() as int),
{
    let mut m: u64 = 0;
    let mut i: usize = 0;
    while i < segs.len()
        invariant
            i <= segs@.len(),
            ends_fit(segs@),
            m == max_end(segs@, i as int),
        decreases segs@.len() - i,
    {
        let p = segs[i];
        assert(segment_end(segs@[i as int]) <= u64::MAX);
        let end = p.p_vaddr + p.p_memsz;
        if end > m {
            m = end;
        }
        i = i + 1;
    }
    m
}

/// Copies `src` over `image` from index `at` on.
fn copy_bytes(image: &mut Vec<u8>, at: usize, src: &[u8], from: usize, count: usize)
    requires
        at + count <= old(image)@.len(),
        from + count <= src@.len(),
    ensures
        final(image)@ == copy_into(old(image)@, at as int, src@.subrange(from as int, from + count)),
{
    let ghost s0 = image@;
    let len = image.len();
    let src_len = src.len();
    let mut j: usize = 0;
    while j < count
        invariant
            j <= count,
            len == s0.len(),
            src_len == src@.len(),
            at + count <= s0.len(),
            from + count <= src@.len(),
            image@.len() == s0.len(),
            forall|k: int|
                0 <= k < s0.len() ==> #[trigger] image@[k] == if at <= k < at + j {
                    src@[from + k - at]
                } else {
                    s0[k]
                },
        decreases count - j,
    {
        image.set(at + j, src[from + j]);
        j = j + 1;
    }
    assert(image@ =~= copy_into(s0, at as int, src@.subrange(from as int, from + count)));
}

/// The image of `size` bytes with every loadable segment's file bytes
/// copied to its virtual address, in the order of the headers, and zeros
/// elsewhere.
pub fn load_segments(exec: &[u8], segs: &Vec<ProgramHeader>, size: u64) -> (r: Vec<u8>)
    requires
        size <= usize::MAX,
        segments_fit(exec@.len() as int, segs@, size as int),
    ensures
        r@ == loaded(exec@, segs@, size as nat, segs@.len() as int),
{
    let mut image: Vec<u8> = Vec::new();
    let n = size as usize;
    let mut k: usize = 0;
    while k < n
        invariant
            k <= n,
            n == size,
            image@.len() == k,
            forall|x: int| 0 <= x < k ==> #[trigger] image@[x] == 0u8,
        decreases n - k,
    {
        image.push(0);
        k = k + 1;
    }
    assert(image@ =~= loaded(exec@, segs@, size as nat, 0));
    let exec_len = exec.len();
    let mut i: usize = 0;
    while i < segs.len()
        invariant
            i <= segs@.len(),
            segments_fit(exec@.len() as int, segs@, size as int),
            size <= usize::MAX,
            exec_len == exec@.len(),
            image@ == loaded(exec@, segs@, size as nat, i as int),
            image@.len() == size,
        decreases segs@.len() - i,
    {
        let p = segs[i];
        if p.p_type == PT_LOAD {
            assert(segs@[i as int].p_type == PT_LOAD);
            assert(p.p_vaddr + p.p_filesz <= size);
            assert(p.p_offset + p.p_filesz <= exec@.len());
            copy_bytes(&mut image, p.p_vaddr as usize, exec, p.p_offset as usize, p.p_filesz as usize);
        }
        i = i + 1;
    }
    image
}

/// The little-endian bytes of `v`.
fn le_bytes_of(v: u64) -> (r: Vec<u8>)
    ensures
        r@ == le_bytes(v),
{
    let mut out: Vec<u8> = Vec::new();
    let mut k: u64 = 0;
    while k < 8
        invariant
            k <= 8,
            out@.len() == k,
            forall|x: int| 0 <= x < k ==> #[trigger] out@[x] == (v >> ((8 * x) as u64)) as u8,
        decreases 8 - k,
    {
        out.push((v >> (8 * k)) as u8);
        k = k + 1;
    }
    assert(out@ =~= le_bytes(v));
    out
}

/// The magnitude of an addend, as `i64::wrapping_abs` then a cast gives it.
fn magnitude(a: i64) -> (r: u64)
    ensures
        r == addend_magnitude(a),
{
    if a >= 0 {
        a as u64
    } else if a == i64::MIN {
        0x8000_0000_0000_0000
    } else {
        (-a) as u64
    }
}

/// Applies the relocations, in order, to an image mapped at `virt`: a
/// relative relocation stores `virt` plus the magnitude of its addend, as
/// a little-endian word, at its offset.
pub fn apply_relocations(image: &mut Vec<u8>, relas: &Vec<Rela>, virt: u64)
    requires
        relas_ok(relas@, old(image)@.len() as int, virt),
    ensures
        final(image)@ == relocated(old(image)@, relas@, virt, relas@.len() as int),
{
    let len = image.len();
    let mut i: usize = 0;
    while i < relas.len()
        invariant
            i <= relas@.len(),
            len == old(image)@.len(),
            relas_ok(relas@, old(image)@.len() as int, virt),
            image@.len() == old(image)@.len(),
            image@ == relocated(old(image)@, relas@, virt, i as int),
        decreases relas@.len() - i,
    {
        let r = relas[i];
        assert(rela_ok(relas@[i as int], old(image)@.len() as int, virt));
        if r.r_type == R_X86_64_RELATIVE {
            let value = virt + magnitude(r.r_addend);
            let bytes = le_bytes_of(value);
            copy_bytes(image, r.r_offset as usize, bytes.as_slice(), 0, 8);
            assert(bytes@.subrange(0, 8) =~= bytes@);
        }
        i = i + 1;
    }
}

/// The file header of `data`, as `elf::ElfBytes::<NativeEndian>::minimal_parse`
/// reads it; `None` where it does not parse.
pub uninterp spec fn elf_file_header(data: Seq<u8>) -> Option<ElfHeader>;

/// The program headers of `data`, as `elf::ElfBytes::segments` yields
/// them; `None` where the file has no program header table.
pub uninterp spec fn elf_segments(data: Seq<u8>) -> Option<Seq<ProgramHeader>>;

/// The section headers of `data`, as `elf::ElfBytes::section_headers`
/// yields them; `None` where the file has no section header table.
pub uninterp spec fn elf_section_headers(data: Seq<u8>) -> Option<Seq<SectionHeader>>;

/// The relocations of section `shdr` of `data`, as
/// `elf::ElfBytes::section_data_as_relas` yields them; `None` where it
/// refuses the section (a section that is not `SHT_RELA`, or whose data
/// lies outside the file).
pub uninterp spec fn elf_section_relas(data: Seq<u8>, shdr: SectionHeader) -> Option<Seq<Rela>>;

/// `elf::ElfBytes::<NativeEndian>::minimal_parse(data)`, then the type,
/// class and entry point of its file header. The result is a function of
/// the bytes alone and is not described further.
#[verifier::external_body]
fn parse_file_header(data: &[u8]) -> (r: Option<ElfHeader>)
    ensures
        r == elf_file_header(data@),
{
    match elf::ElfBytes::<elf::endian::NativeEndian>::minimal_parse(data) {
        Ok(file) => Some(ElfHeader {
            e_type: file.ehdr.e_type,
            class: match file.ehdr.class {
                elf::file::Class::ELF32 => ElfClass::Elf32,
                elf::file::Class::ELF64 => ElfClass::Elf64,
            },
            e_entry: file.ehdr.e_entry,
        }),
        Err(_) => None,
    }
}

/// `elf::ElfBytes::segments` of the parsed file, its headers copied out in
/// table order. The result is a function of the bytes alone and is not
/// described further.
#[verifier::external_body]
fn parse_segments(data: &[u8]) -> (r: Option<Vec<ProgramHeader>>)
    ensures
        opt_seq(r) == elf_segments(data@),
{
    let file = elf::ElfBytes::<elf::endian::NativeEndian>::minimal_parse(data).ok()?;
    Some(file.segments()?.iter().map(|p| ProgramHeader {
        p_type: p.p_type, p_offset: p.p_offset, p_vaddr: p.p_vaddr, p_paddr: p.p_paddr,
        p_filesz: p.p_filesz, p_memsz: p.p_memsz, p_flags: p.p_flags, p_align: p.p_align,
    }).collect())
}

/// `elf::ElfBytes::section_headers` of the parsed file, its headers copied
/// out in table order. The result is a function of the bytes alone and is
/// not described further.
#[verifier::external_body]
fn parse_section_headers(data: &[u8]) -> (r: Option<Vec<SectionHeader>>)
    ensures
        opt_seq(r) == elf_section_headers(data@),
{
    let file = elf::ElfBytes::<elf::endian::NativeEndian>::minimal_parse(data).ok()?;
    Some(file.section_headers()?.iter().map(|h| SectionHeader {
        sh_name: h.sh_name, sh_type: h.sh_type, sh_flags: h.sh_flags, sh_addr: h.sh_addr,
        sh_offset: h.sh_offset, sh_size: h.sh_size, sh_link: h.sh_link, sh_info: h.sh_info,
        sh_addralign: h.sh_addralign, sh_entsize: h.sh_entsize,
    }).collect())
}

/// `elf::ElfBytes::section_data_as_relas` of the parsed file for the
/// section `shdr`, its relocations copied out in order. The result is a
/// function of the bytes and the header alone and is not described further.
#[verifier::external_body]
fn parse_section_relas(data: &[u8], shdr: &SectionHeader) -> (r: Option<Vec<Rela>>)
    ensures
        opt_seq(r) == elf_section_relas(data@, *shdr),
{
    let file = elf::ElfBytes::<elf::endian::NativeEndian>::minimal_parse(data).ok()?;
    let header = elf::section::SectionHeader {
        sh_name: shdr.sh_name, sh_type: shdr.sh_type, sh_flags: shdr.sh_flags,
        sh_addr: shdr.sh_addr, sh_offset: shdr.sh_offset, sh_size: shdr.sh_size,
        sh_link: shdr.sh_link, sh_info: shdr.sh_info, sh_addralign: shdr.sh_addralign,
        sh_entsize: shdr.sh_entsize,
    };
    let relas = file.section_data_as_relas(&header).ok()?;
    Some(relas.map(|r| Rela {
        r_offset: r.r_offset, r_sym: r.r_sym, r_type: r.r_type, r_addend: r.r_addend,
    }).collect())
}

/// The segments can be laid out: their ends fit in 64 bits, the image
/// size fits in `usize`, and every loadable segment lies in the file and
/// in the image.
pub open spec fn layout_ok(exec: Seq<u8>, segs: Seq<ProgramHeader>) -> bool {
    &&& ends_fit(segs)
    &&& max_end(segs, segs.len() as int) <= usize::MAX
    &&& segments_fit(exec.len() as int, segs, max_end(segs, segs.len() as int))
}

/// What loading the executable `exec` gives: its header and its image
/// before relocation, or the first check it fails.
pub open spec fn spec_load(exec: Seq<u8>) -> Result<(ElfHeader, Seq<u8>), LoadError> {
    match elf_file_header(exec) {
        None => Err(LoadError::Malformed),
        Some(h) => if h.e_type != ET_DYN {
            Err(LoadError::NotDynamic)
        } else if h.class != ElfClass::Elf64 {
            Err(LoadError::Not64Bit)
        } else if h.e_entry == 0 {
            Err(LoadError::NoEntry)
        } else {
            match elf_segments(exec) {
                None => Err(LoadError::NoSegments),
                Some(segs) => if segs.len() == 0 {
                    Err(LoadError::NoSegments)
                } else if !layout_ok(exec, segs) {
                    Err(LoadError::BadLayout)
                } else {
                    Ok(
                        (
                            h,
                            loaded(
                                exec,
                                segs,
                                max_end(segs, segs.len() as int) as nat,
                                segs.len() as int,
                            ),
                        ),
                    )
                },
            }
        },
    }
}

/// The relocations of the first `n` sections, section by section; a
/// section the parser refuses contributes none.
pub open spec fn section_relas(exec: Seq<u8>, shdrs: Seq<SectionHeader>, n: int) -> Seq<Rela>
    decreases n,
{
    if n <= 0 {
        Seq::empty()
    } else {
        section_relas(exec, shdrs, n - 1) + match elf_section_relas(exec, shdrs[n - 1]) {
            Some(r) => r,
            None => Seq::empty(),
        }
    }
}

/// The image after relocating it for address `virt`, or why it cannot be.
pub open spec fn spec_relocate(exec: Seq<u8>, image: Seq<u8>, virt: u64) -> Result<Seq<u8>, LoadError> {
    match elf_section_headers(exec) {
        None => Err(LoadError::NoSections),
        Some(shdrs) => {
            let relas = section_relas(exec, shdrs, shdrs.len() as int);
            if relas_ok(relas, image.len() as int, virt) {
                Ok(relocated(image, relas, virt, relas.len() as int))
            } else {
                Err(LoadError::BadRelocation)
            }
        },
    }
}

/// Whether every segment's end fits in 64 bits.
fn check_ends(segs: &Vec<ProgramHeader>) -> (r: bool)
    ensures
        r == ends_fit(segs@),
{
    let mut i: usize = 0;
    while i < segs.len()
        invariant
            i <= segs@.len(),
            forall|k: int| 0 <= k < i ==> segment_end(#[trigger] segs@[k]) <= u64::MAX,
        decreases segs@.len() - i,
    {
        if segs[i].p_vaddr.checked_add(segs[i].p_memsz).is_none() {
            return false;
        }
        i = i + 1;
    }
    true
}

/// Whether every loadable segment lies in the file and in an image of `size` bytes.
fn check_fit(exec_len: usize, segs: &Vec<ProgramHeader>, size: u64) -> (r: bool)
    ensures
        r == segments_fit(exec_len as int, segs@, size as int),
{
    let mut i: usize = 0;
    while i < segs.len()
        invariant
            i <= segs@.len(),
            forall|k: int|
                0 <= k < i && (#[trigger] segs@[k]).p_type == PT_LOAD ==> {
                    &&& segs@[k].p_vaddr + segs@[k].p_filesz <= size
                    &&& segs@[k].p_offset + segs@[k].p_filesz <= exec_len
                },
        decreases segs@.len() - i,
    {
        let p = segs[i];
        if p.p_type == PT_LOAD {
            match p.p_vaddr.checked_add(p.p_filesz) {
                Some(end) => if end > size {
                    return false;
                },
                None => return false,
            }
            match p.p_offset.checked_add(p.p_filesz) {
                Some(end) => if end > exec_len as u64 {
                    return false;
                },
                None => return false,
            }
        }
        i = i + 1;
    }
    true
}

/// Reads and checks the executable and builds its image: a 64-bit
/// position-independent executable with an entry point, whose image is
/// as large as the furthest segment reaches and holds each loadable
/// segment's file bytes at its virtual address.
pub fn load_executable(exec: &[u8]) -> (r: Result<(ElfHeader, Vec<u8>), LoadError>)
    ensures
        match r {
            Ok(p) => spec_load(exec@) == Ok::<(ElfHeader, Seq<u8>), LoadError>((p.0, p.1@)),
            Err(e) => spec_load(exec@) == Err::<(ElfHeader, Seq<u8>), LoadError>(e),
        },
{
    let h = match parse_file_header(exec) {
        Some(h) => h,
        None => return Err(LoadError::Malformed),
    };
    if h.e_type != ET_DYN {
        return Err(LoadError::NotDynamic);
    }
    if h.class != ElfClass::Elf64 {
        return Err(LoadError::Not64Bit);
    }
    if h.e_entry == 0 {
        return Err(LoadError::NoEntry);
    }
    let segs = match parse_segments(exec) {
        Some(s) => s,
        None => return Err(LoadError::NoSegments),
    };
    if segs.len() == 0 {
        return Err(LoadError::NoSegments);
    }
    if !check_ends(&segs) {
        return Err(LoadError::BadLayout);
    }
    let size = image_size(&segs);
    if size > usize::MAX as u64 {
        return Err(LoadError::BadLayout);
    }
    if !check_fit(exec.len(), &segs, size) {
        return Err(LoadError::BadLayout);
    }
    let image = load_segments(exec, &segs, size);
    Ok((h, image))
}

/// Whether every relocation can be applied to an image of `len` bytes mapped at `virt`.
fn check_relas(relas: &Vec<Rela>, len: usize, virt: u64) -> (r: bool)
    ensures
        r == relas_ok(relas@, len as int, virt),
{
    let mut i: usize = 0;
    while i < relas.len()
        invariant
            i <= relas@.len(),
            forall|k: int| 0 <= k < i ==> rela_ok(#[trigger] relas@[k], len as int, virt),
        decreases relas@.len() - i,
    {
        let r = relas[i];
        if r.r_type == R_X86_64_RELATIVE {
            match r.r_offset.checked_add(8) {
                Some(end) => if end > len as u64 {
                    return false;
                },
                None => return false,
            }
            if virt.checked_add(magnitude(r.r_addend)).is_none() {
                return false;
            }
        } else if r.r_type != R_X86_64_NONE {
            return false;
        }
        i = i + 1;
    }
    true
}

/// Relocates the image of `exec` for the address `virt` it is mapped at:
/// the relocations of every `SHT_RELA` section, section by section, are
/// applied in order. The image is left as it is when the file has no
/// section table or a relocation cannot be applied.
pub fn relocate_executable(exec: &[u8], image: &mut Vec<u8>, virt: u64) -> (r: Result<(), LoadError>)
    ensures
        match spec_relocate(exec@, old(image)@, virt) {
            Ok(s) => r == Ok::<(), LoadError>(()) && final(image)@ == s,
            Err(e) => r == Err::<(), LoadError>(e) && final(image)@ == old(image)@,
        },
{
    let shdrs = match parse_section_headers(exec) {
        Some(s) => s,
        None => return Err(LoadError::NoSections),
    };
    let mut relas: Vec<Rela> = Vec::new();
    let mut i: usize = 0;
    while i < shdrs.len()
        invariant
            i <= shdrs@.len(),
            relas@ == section_relas(exec@, shdrs@, i as int),
        decreases shdrs@.len() - i,
    {
        match parse_section_relas(exec, &shdrs[i]) {
            Some(mut more) => {
                relas.append(&mut more);
            },
            None => {
                assert(section_relas(exec@, shdrs@, i + 1) =~= section_relas(exec@, shdrs@, i as int));
            },
        }
        i = i + 1;
    }
    if !check_relas(&relas, image.len(), virt) {
        return Err(LoadError::BadRelocation);
    }
    apply_relocations(image, &relas, virt);
    Ok(())
}

/// The entry point of an image mapped at `virt`; `None` where it does not
/// fit in 64 bits.
pub fn entry_point(header: &ElfHeader, virt: u64) -> (r: Option<u64>)
    ensures
        r == (if virt + header.e_entry <= u64::MAX {
            Some((virt + header.e_entry) as u64)
        } else {
            None
        }),
{
    virt.checked_add(header.e_entry)
}

} // verus!
