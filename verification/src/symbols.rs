//! Lookup of kernel symbols for backtraces: the symbol whose range holds
//! an instruction address, and the name a frame is shown with.

use vstd::prelude::*;

verus! {

/// A kernel symbol: the addresses `start..end` of its code and its mangled name.
#[derive(Debug, Clone)]
pub struct KernSymbol {
    pub start: u64,
    pub end: u64,
    pub name: String,
}

/// Whether the symbol's range holds `ip`.
pub open spec fn holds_ip(s: KernSymbol, ip: u64) -> bool {
    s.start <= ip && ip < s.end
}

/// The index of the first symbol from index `i` on whose range holds `ip`.
pub open spec fn first_holding(syms: Seq<KernSymbol>, ip: u64, i: int) -> Option<int>
    decreases syms.len() - i,
{
    if i < 0 || i >= syms.len() {
        None
    } else if holds_ip(syms[i], ip) {
        Some(i)
    } else {
        first_holding(syms, ip, i + 1)
    }
}

/// The first symbol, in table order, whose range holds `ip`.
pub fn find_symbol(symbols: &Vec<KernSymbol>, ip: u64) -> (r: Option<usize>)
    ensures
        match r {
            Some(i) => first_holding(symbols@, ip, 0) == Some(i as int),
            None => first_holding(symbols@, ip, 0) is None,
        },
{
    let mut i: usize = 0;
    while i < symbols.len()
        invariant
            i <= symbols@.len(),
            first_holding(symbols@, ip, 0) == first_holding(symbols@, ip, i as int),
        decreases symbols@.len() - i,
    {
        if symbols[i].start <= ip && ip < symbols[i].end {
            return Some(i);
        }
        i = i + 1;
    }
    None
}

/// The demangled form of a Rust symbol name, as `rustc_demangle::try_demangle`
/// and its alternate display (without the hash) give it; `None` where the
/// name is not a mangled Rust symbol.
pub uninterp spec fn demangled(name: Seq<char>) -> Option<Seq<char>>;

/// `rustc_demangle::try_demangle(name)`, shown with the alternate flag.
/// The result is a function of the name alone and is not described further.
#[verifier::external_body]
fn try_demangle(name: &str) -> (r: Option<String>)
    ensures
        match r {
            Some(s) => demangled(name@) == Some(s@),
            None => demangled(name@) is None,
        },
{
    match rustc_demangle::try_demangle(name) {
        Ok(d) => Some(format!("{:#}", d)),
        Err(_) => None,
    }
}

/// A backtrace frame as the panic handler shows it.
#[derive(Debug, Clone)]
pub enum Frame {
    /// No symbol holds the address.
    Unknown { ip: u64 },
    /// The address is `offset` bytes into the symbol that starts at `start`.
    Known { start: u64, offset: u64, name: String },
}

/// The name a frame in `s` is shown with: demangled where it can be, else as it is.
pub open spec fn shown_name(s: KernSymbol) -> Seq<char> {
    match demangled(s.name@) {
        Some(d) => d,
        None => s.name@,
    }
}

/// The frame of instruction address `ip`: the first symbol holding it,
/// the offset into it and its shown name, or unknown.
pub fn describe_frame(symbols: &Vec<KernSymbol>, ip: u64) -> (r: Frame)
    ensures
        match first_holding(symbols@, ip, 0) {
            None => r == Frame::Unknown { ip },
            Some(i) => match r {
                Frame::Known { start, offset, name } => {
                    &&& start == symbols@[i].start
                    &&& offset == ip - symbols@[i].start
                    &&& name@ == shown_name(symbols@[i])
                },
                Frame::Unknown { .. } => false,
            },
        },
{
    match find_symbol(symbols, ip) {
        None => Frame::Unknown { ip },
        Some(i) => {
            proof {
                lemma_first_holding_range(symbols@, ip, 0);
            }
            let s = &symbols[i];
            let name = match try_demangle(s.name.as_str()) {
                Some(d) => d,
                None => s.name.clone(),
            };
            Frame::Known { start: s.start, offset: ip - s.start, name }
        },
    }
}

proof fn lemma_first_holding_range(syms: Seq<KernSymbol>, ip: u64, i: int)
    ensures
        match first_holding(syms, ip, i) {
            Some(j) => 0 <= j < syms.len() && holds_ip(syms[j], ip),
            None => true,
        },
    decreases syms.len() - i,
{
    if 0 <= i < syms.len() && !holds_ip(syms[i], ip) {
        lemma_first_holding_range(syms, ip, i + 1);
    }
}

/// What the panic handler does on entry.
#[derive(Debug, Clone, Copy, PartialEq, Eq, Structural)]
pub enum PanicStep {
    /// A first panic: report it, with its backtraces.
    Report,
    /// A panic while reporting one: say so and halt, reporting nothing more.
    Halt,
}

/// The panic handler's guard against panicking while it reports a panic:
/// `in_panic` records that a report is under way. The first panic is
/// reported; any later one halts. Either way a report is under way after.
pub fn enter_panic(in_panic: &mut bool) -> (r: PanicStep)
    ensures
        *final(in_panic),
        r == if *old(in_panic) {
            PanicStep::Halt
        } else {
            PanicStep::Report
        },
{
    if *in_panic {
        return PanicStep::Halt;
    }
    *in_panic = true;
    PanicStep::Report
}

} // verus!
