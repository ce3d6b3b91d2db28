//! The test shell of the keyboard extension: it gathers typed characters
//! into a line and, at the end of a line, decides the command the line
//! names. Echoing, printing and sending are left to the caller.

use vstd::prelude::*;
use crate::ps2::Ps2Event;

verus! {

/// Whether `c` is white space as `char::is_whitespace` takes it: the
/// characters with the Unicode `White_Space` property.
pub open spec fn is_ws(c: char) -> bool {
    ||| ('\u{9}' <= c && c <= '\u{d}')
    ||| c == ' '
    ||| c == '\u{85}'
    ||| c == '\u{a0}'
    ||| c == '\u{1680}'
    ||| ('\u{2000}' <= c && c <= '\u{200a}')
    ||| c == '\u{2028}'
    ||| c == '\u{2029}'
    ||| c == '\u{202f}'
    ||| c == '\u{205f}'
    ||| c == '\u{3000}'
}

fn ws(c: char) -> (r: bool)
    ensures
        r == is_ws(c),
{
    ('\u{9}' <= c && c <= '\u{d}') || c == ' ' || c == '\u{85}' || c == '\u{a0}' || c == '\u{1680}'
        || ('\u{2000}' <= c && c <= '\u{200a}') || c == '\u{2028}' || c == '\u{2029}'
        || c == '\u{202f}' || c == '\u{205f}' || c == '\u{3000}'
}

/// The first position from `i` on that holds no white space (the end if none).
pub open spec fn skip_ws(s: Seq<char>, i: int) -> int
    decreases s.len() - i,
{
    if i < 0 || i >= s.len() || !is_ws(s[i]) {
        i
    } else {
        skip_ws(s, i + 1)
    }
}

/// The first position from `i` on that holds white space (the end if none).
pub open spec fn word_end(s: Seq<char>, i: int) -> int
    decreases s.len() - i,
{
    if i < 0 || i >= s.len() || is_ws(s[i]) {
        i
    } else {
        word_end(s, i + 1)
    }
}

/// Word `n` of `s` from position `i` on, as `str::split_whitespace` gives
/// the words, by its bounds.
pub open spec fn nth_word(s: Seq<char>, i: int, n: nat) -> Option<(int, int)>
    decreases n,
{
    let a = skip_ws(s, i);
    if i < 0 || a >= s.len() {
        None
    } else if n == 0 {
        Some((a, word_end(s, a)))
    } else {
        let b = word_end(s, a);
        if b <= i {
            None
        } else {
            nth_word(s, b, (n - 1) as nat)
        }
    }
}

/// The value of a string of decimal digits.
pub open spec fn digits_value(t: Seq<char>) -> int
    decreases t.len(),
{
    if t.len() == 0 {
        0
    } else {
        digits_value(t.drop_last()) * 10 + (t.last() as int - '0' as int)
    }
}

/// `t` without a leading `+`.
pub open spec fn sign_stripped(t: Seq<char>) -> Seq<char> {
    if t.len() > 0 && t[0] == '+' {
        t.drop_first()
    } else {
        t
    }
}

/// Whether every character of `d` is a decimal digit.
pub open spec fn all_digits(d: Seq<char>) -> bool {
    forall|k: int| 0 <= k < d.len() ==> '0' <= #[trigger] d[k] && d[k] <= '9'
}

/// What `u64::from_str` gives for `t`: an optional `+`, then at least one
/// decimal digit and nothing else, of a value that fits in 64 bits.
pub open spec fn parse_u64(t: Seq<char>) -> Option<u64> {
    let d = sign_stripped(t);
    if d.len() > 0 && all_digits(d) && digits_value(d) <= u64::MAX {
        Some(digits_value(d) as u64)
    } else {
        None
    }
}

/// What a line asks of the shell.
#[derive(Debug, Clone, PartialEq, Eq)]
pub enum ShellCommand {
    /// `osdt`: print the device tree.
    PrintTree,
    /// `msgparent`: send the bytes 1, 2, 3, 4 to the parent extension.
    MessageParent,
    /// `accessinvalid`: make a print call with a null text pointer.
    AccessInvalid,
    /// `msg <pid> <data>`: send `data`, big-endian, to process `pid`.
    Message { pid: u64, data: u64 },
    /// `msg` without a process id: say that one is expected.
    ExpectedPid,
    /// `msg <pid>` without data: say that data is expected.
    ExpectedData,
    /// Any other line: print it back.
    Echo(Vec<char>),
}

/// Whether the first word of `line` is `msg`.
pub open spec fn first_word_is_msg(line: Seq<char>) -> bool {
    match nth_word(line, 0, 0) {
        Some((a, b)) => line.subrange(a, b) == seq!['m', 's', 'g'],
        None => false,
    }
}

/// The command a line names; `None` for a line that is only printed back.
pub open spec fn command_of(line: Seq<char>) -> Option<ShellCommand> {
    if line == seq!['o', 's', 'd', 't'] {
        Some(ShellCommand::PrintTree)
    } else if line == seq!['m', 's', 'g', 'p', 'a', 'r', 'e', 'n', 't'] {
        Some(ShellCommand::MessageParent)
    } else if line == seq!['a', 'c', 'c', 'e', 's', 's', 'i', 'n', 'v', 'a', 'l', 'i', 'd'] {
        Some(ShellCommand::AccessInvalid)
    } else if first_word_is_msg(line) {
        match nth_word(line, 0, 1) {
            None => Some(ShellCommand::ExpectedPid),
            Some((a1, b1)) => match parse_u64(line.subrange(a1, b1)) {
                None => Some(ShellCommand::ExpectedPid),
                Some(pid) => match nth_word(line, 0, 2) {
                    None => Some(ShellCommand::ExpectedData),
                    Some((a2, b2)) => match parse_u64(line.subrange(a2, b2)) {
                        None => Some(ShellCommand::ExpectedData),
                        Some(data) => Some(ShellCommand::Message { pid, data }),
                    },
                },
            },
        }
    } else {
        None
    }
}

/// What one keyboard event does.
#[derive(Debug, Clone, PartialEq, Eq)]
pub enum ShellStep {
    /// Not a key press: nothing happens.
    Ignore,
    /// A character was typed; it is echoed and the line grows.
    Typed(char),
    /// The line ended: the newline is echoed, the command runs, and the
    /// prompt is printed again.
    Entered(ShellCommand),
}

/// The shell's line being typed.
pub struct Shell {
    pub line: Vec<char>,
}

impl Shell {
    /// A shell with an empty line.
    pub fn new() -> (r: Shell)
        ensures
            r.line@.len() == 0,
    {
        Shell { line: Vec::new() }
    }

    /// Takes one keyboard event.
    pub fn step(&mut self, ev: Ps2Event) -> (r: ShellStep)
        ensures
            match ev {
                Ps2Event::Pressed(c) => if c == '\n' {
                    &&& final(self).line@.len() == 0
                    &&& match r {
                        ShellStep::Entered(cmd) => match command_of(old(self).line@) {
                            None => cmd matches ShellCommand::Echo(l) && l@ == old(self).line@,
                            Some(c) => cmd == c,
                        },
                        _ => false,
                    }
                } else {
                    r == ShellStep::Typed(c) && final(self).line@ == old(self).line@.push(c)
                },
                _ => r == ShellStep::Ignore && final(self).line@ == old(self).line@,
            },
    {
        match ev {
            Ps2Event::Pressed(c) => {
                if c != '\n' {
                    self.line.push(c);
                    return ShellStep::Typed(c);
                }
                let mut line: Vec<char> = Vec::new();
                core::mem::swap(&mut line, &mut self.line);
                let cmd = command(line);
                ShellStep::Entered(cmd)
            },
            _ => ShellStep::Ignore,
        }
    }
}

/// Whether `line` is the word `w`.
fn is_word(line: &Vec<char>, w: &[char]) -> (r: bool)
    ensures
        r == (line@ == w@),
{
    if line.len() != w.len() {
        return false;
    }
    let mut i: usize = 0;
    while i < line.len()
        invariant
            i <= line@.len(),
            line@.len() == w@.len(),
            forall|k: int| 0 <= k < i ==> line@[k] == w@[k],
        decreases line@.len() - i,
    {
        if line[i] != w[i] {
            return false;
        }
        i = i + 1;
    }
    assert(line@ =~= w@);
    true
}

/// The first position from `i` on that holds no white space.
fn skip_spaces(line: &Vec<char>, i: usize) -> (r: usize)
    requires
        i <= line@.len(),
    ensures
        r == skip_ws(line@, i as int),
        i <= r <= line@.len(),
        r < line@.len() ==> !is_ws(line@[r as int]),
{
    let mut j = i;
    while j < line.len() && ws(line[j])
        invariant
            i <= j <= line@.len(),
            skip_ws(line@, i as int) == skip_ws(line@, j as int),
        decreases line@.len() - j,
    {
        j = j + 1;
    }
    j
}

/// The first position from `i` on that holds white space.
fn end_of_word(line: &Vec<char>, i: usize) -> (r: usize)
    requires
        i <= line@.len(),
    ensures
        r == word_end(line@, i as int),
        i <= r <= line@.len(),
        i < line@.len() && !is_ws(line@[i as int]) ==> r > i,
{
    let mut j = i;
    while j < line.len() && !ws(line[j])
        invariant
            i <= j <= line@.len(),
            word_end(line@, i as int) == word_end(line@, j as int),
        decreases line@.len() - j,
    {
        j = j + 1;
    }
    j
}

/// The bounds of word `n` of `line` from position `i` on.
fn word(line: &Vec<char>, i: usize, n: usize) -> (r: Option<(usize, usize)>)
    requires
        i <= line@.len(),
    ensures
        r is None ==> nth_word(line@, i as int, n as nat) is None,
        r matches Some((x, y)) ==> x <= y <= line@.len() && nth_word(line@, i as int, n as nat) == Some(
            (x as int, y as int),
        ),
    decreases n,
{
    let a = skip_spaces(line, i);
    if a >= line.len() {
        return None;
    }
    let b = end_of_word(line, a);
    if n == 0 {
        return Some((a, b));
    }
    word(line, b, n - 1)
}

proof fn lemma_prefix_value(t: Seq<char>, n: int)
    requires
        0 <= n <= t.len(),
        forall|k: int| 0 <= k < t.len() ==> '0' <= #[trigger] t[k] && t[k] <= '9',
    ensures
        digits_value(t.take(n)) <= digits_value(t),
    decreases t.len(),
{
    if n < t.len() {
        let u = t.drop_last();
        assert forall|k: int| 0 <= k < u.len() implies '0' <= #[trigger] u[k] && u[k] <= '9' by {
            assert(u[k] == t[k]);
        }
        lemma_prefix_value(u, n);
        assert(u.take(n) =~= t.take(n));
        lemma_digits_grow(t);
    } else {
        assert(t.take(n) =~= t);
    }
}

proof fn lemma_digits_grow(t: Seq<char>)
    requires
        t.len() > 0,
        forall|k: int| 0 <= k < t.len() ==> '0' <= #[trigger] t[k] && t[k] <= '9',
    ensures
        digits_value(t.drop_last()) <= digits_value(t),
        digits_value(t.drop_last()) >= 0,
    decreases t.len(),
{
    if t.len() > 1 {
        let u = t.drop_last();
        assert forall|k: int| 0 <= k < u.len() implies '0' <= #[trigger] u[k] && u[k] <= '9' by {
            assert(u[k] == t[k]);
        }
        lemma_digits_grow(u);
    }
}

/// `u64::from_str` of the characters of `line` in `[a, b)`.
fn parse_word(line: &Vec<char>, a: usize, b: usize) -> (r: Option<u64>)
    requires
        a <= b <= line@.len(),
    ensures
        r == parse_u64(line@.subrange(a as int, b as int)),
{
    let ghost t = line@.subrange(a as int, b as int);
    let mut start = a;
    if a < b && line[a] == '+' {
        start = a + 1;
    }
    let ghost d = line@.subrange(start as int, b as int);
    assert(d =~= sign_stripped(t));
    if start == b {
        return None;
    }
    let mut v: u64 = 0;
    let mut i = start;
    while i < b
        invariant
            start <= i <= b <= line@.len(),
            a <= start,
            t == line@.subrange(a as int, b as int),
            d == line@.subrange(start as int, b as int),
            d == sign_stripped(t),
            forall|k: int| start <= k < i ==> '0' <= #[trigger] line@[k] && line@[k] <= '9',
            v == digits_value(line@.subrange(start as int, i as int)),
        decreases b - i,
    {
        let c = line[i];
        let ghost p = line@.subrange(start as int, i + 1);
        assert(p.drop_last() =~= line@.subrange(start as int, i as int));
        if c < '0' || c > '9' {
            assert(d[i - start] == c);
            assert(!all_digits(d));
            return None;
        }
        let digit = (c as u32 - '0' as u32) as u64;
        let next = match v.checked_mul(10) {
            Some(x) => x.checked_add(digit),
            None => None,
        };
        match next {
            Some(x) => {
                v = x;
            },
            None => {
                proof {
                    assert(digits_value(p) > u64::MAX);
                    if all_digits(d) {
                        lemma_prefix_value(d, i + 1 - start);
                        assert(d.take(i + 1 - start) =~= p);
                    }
                }
                return None;
            },
        }
        i = i + 1;
    }
    assert(line@.subrange(start as int, b as int) =~= d);
    Some(v)
}

/// The command `line` names.
fn command(line: Vec<char>) -> (r: ShellCommand)
    ensures
        match command_of(line@) {
            None => r matches ShellCommand::Echo(l) && l@ == line@,
            Some(c) => r == c,
        },
{
    if is_word(&line, &['o', 's', 'd', 't']) {
        return ShellCommand::PrintTree;
    }
    if is_word(&line, &['m', 's', 'g', 'p', 'a', 'r', 'e', 'n', 't']) {
        return ShellCommand::MessageParent;
    }
    if is_word(&line, &['a', 'c', 'c', 'e', 's', 's', 'i', 'n', 'v', 'a', 'l', 'i', 'd']) {
        return ShellCommand::AccessInvalid;
    }
    let first = word(&line, 0, 0);
    let is_msg = match first {
        Some((a, b)) => {
            let w = b - a == 3 && line[a] == 'm' && line[a + 1] == 's' && line[a + 2] == 'g';
            proof {
                let sub = line@.subrange(a as int, b as int);
                if w {
                    assert(sub =~= seq!['m', 's', 'g']);
                } else if sub == seq!['m', 's', 'g'] {
                    assert(sub.len() == 3);
                    assert(sub[0] == line@[a as int]);
                    assert(sub[1] == line@[a + 1]);
                    assert(sub[2] == line@[a + 2]);
                }
            }
            w
        },
        None => false,
    };
    if !is_msg {
        return ShellCommand::Echo(line);
    }
    let pid = match word(&line, 0, 1) {
        None => return ShellCommand::ExpectedPid,
        Some((a, b)) => match parse_word(&line, a, b) {
            None => return ShellCommand::ExpectedPid,
            Some(p) => p,
        },
    };
    match word(&line, 0, 2) {
        None => ShellCommand::ExpectedData,
        Some((a, b)) => match parse_word(&line, a, b) {
            None => ShellCommand::ExpectedData,
            Some(data) => ShellCommand::Message { pid, data },
        },
    }
}

} // verus!
