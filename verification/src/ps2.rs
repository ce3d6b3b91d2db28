//! The PS/2 keyboard controller: its configuration byte, status bits,
//! commands, and the scancodes the keyboard driver understands.

use vstd::prelude::*;
use crate::bits::{field_u8, get_u8, lemma_field_zero_u8, lemma_fits_u8, set_u8};

verus! {

/// Data port of the controller.
pub const PS2_DATA_PORT: u16 = 0x60;

/// Status (read) and command (write) port of the controller.
pub const PS2_STATUS_OR_CMD_PORT: u16 = 0x64;

/// Controller commands.
#[derive(Debug, Clone, Copy, PartialEq, Eq, Structural)]
pub enum PS2CtlCmd {
    ReadControllerCfg,
    WriteControllerCfg,
}

impl PS2CtlCmd {
    /// The command byte.
    pub fn code(self) -> (r: u8)
        ensures
            r == match self {
                PS2CtlCmd::ReadControllerCfg => 0x20u8,
                PS2CtlCmd::WriteControllerCfg => 0x60u8,
            },
    {
        match self {
            PS2CtlCmd::ReadControllerCfg => 0x20,
            PS2CtlCmd::WriteControllerCfg => 0x60,
        }
    }
}

/// Whether the status byte says a byte waits in the output buffer.
pub fn output_full(status: u8) -> (r: bool)
    ensures
        r == (status % 2 == 1),
{
    assert(status & 1u8 != 0 <==> status % 2 == 1) by (bit_vector);
    (status & 1) != 0
}

/// Whether the status byte says the input buffer is still full.
pub fn input_full(status: u8) -> (r: bool)
    ensures
        r == ((status / 2) % 2 == 1),
{
    assert(status & 2u8 != 0 <==> (status / 2) % 2 == 1) by (bit_vector);
    (status & 0b10) != 0
}
/// The configuration byte of the PS/2 controller.
#[derive(Debug, Clone, Copy, PartialEq, Eq, Structural)]
pub struct Ps2Cfg(pub u8);

impl Ps2Cfg {
    /// Interrupt on the first port.
    pub open spec fn spec_port1_intr(self) -> bool {
        field_u8(self.0, 0, 1) == 1
    }

    /// Interrupt on the second port.
    pub open spec fn spec_port2_intr(self) -> bool {
        field_u8(self.0, 1, 1) == 1
    }

    /// Whether the self test passed.
    pub open spec fn spec_post_pass(self) -> bool {
        field_u8(self.0, 2, 1) == 1
    }

    /// Reserved bit 3.
    pub open spec fn spec_reserved0(self) -> u8 {
        field_u8(self.0, 3, 1)
    }

    /// Clock of the first port disabled.
    pub open spec fn spec_port1_clock(self) -> bool {
        field_u8(self.0, 4, 1) == 1
    }

    /// Clock of the second port disabled.
    pub open spec fn spec_port2_clock(self) -> bool {
        field_u8(self.0, 5, 1) == 1
    }

    /// Scancode translation on the first port.
    pub open spec fn spec_port1_translation(self) -> bool {
        field_u8(self.0, 6, 1) == 1
    }

    /// Reserved bit 7.
    pub open spec fn spec_reserved1(self) -> u8 {
        field_u8(self.0, 7, 1)
    }

    /// The register with every field 0.
    pub fn new() -> (r: Ps2Cfg)
        ensures
            r.0 == 0,
            r.spec_port1_intr() == false,
            r.spec_port2_intr() == false,
            r.spec_post_pass() == false,
            r.spec_reserved0() == 0,
            r.spec_port1_clock() == false,
            r.spec_port2_clock() == false,
            r.spec_port1_translation() == false,
            r.spec_reserved1() == 0,
    {
        proof {
            lemma_field_zero_u8(0, 1);
            lemma_field_zero_u8(1, 1);
            lemma_field_zero_u8(2, 1);
            lemma_field_zero_u8(3, 1);
            lemma_field_zero_u8(4, 1);
            lemma_field_zero_u8(5, 1);
            lemma_field_zero_u8(6, 1);
            lemma_field_zero_u8(7, 1);
        }
        Ps2Cfg(0)
    }

    /// The register holding the raw bits.
    pub fn from_bits(bits: u8) -> (r: Ps2Cfg)
        ensures
            r.0 == bits,
    {
        Ps2Cfg(bits)
    }

    /// The raw bits of the register.
    pub fn into_bits(self) -> (r: u8)
        ensures
            r == self.0,
    {
        self.0
    }

    /// Interrupt on the first port.
    pub fn port1_intr(&self) -> (r: bool)
        ensures
            r == self.spec_port1_intr(),
    {
        get_u8(self.0, 0, 1) == 1
    }

    /// The register with this field set to `value`; the other fields are kept.
    pub fn with_port1_intr(self, value: bool) -> (r: Ps2Cfg)
        ensures
            r.spec_port1_intr() == value,
            r.spec_port2_intr() == self.spec_port2_intr(),
            r.spec_post_pass() == self.spec_post_pass(),
            r.spec_reserved0() == self.spec_reserved0(),
            r.spec_port1_clock() == self.spec_port1_clock(),
            r.spec_port2_clock() == self.spec_port2_clock(),
            r.spec_port1_translation() == self.spec_port1_translation(),
            r.spec_reserved1() == self.spec_reserved1(),
    {
        let x: u8 = if value { 1 } else { 0 };
        proof {
            lemma_fits_u8(1, x);
        }
        Ps2Cfg(set_u8(self.0, 0, 1, x))
    }

    /// Interrupt on the second port.
    pub fn port2_intr(&self) -> (r: bool)
        ensures
            r == self.spec_port2_intr(),
    {
        get_u8(self.0, 1, 1) == 1
    }

    /// The register with this field set to `value`; the other fields are kept.
    pub fn with_port2_intr(self, value: bool) -> (r: Ps2Cfg)
        ensures
            r.spec_port2_intr() == value,
            r.spec_port1_intr() == self.spec_port1_intr(),
            r.spec_post_pass() == self.spec_post_pass(),
            r.spec_reserved0() == self.spec_reserved0(),
            r.spec_port1_clock() == self.spec_port1_clock(),
            r.spec_port2_clock() == self.spec_port2_clock(),
            r.spec_port1_translation() == self.spec_port1_translation(),
            r.spec_reserved1() == self.spec_reserved1(),
    {
        let x: u8 = if value { 1 } else { 0 };
        proof {
            lemma_fits_u8(1, x);
        }
        Ps2Cfg(set_u8(self.0, 1, 1, x))
    }

    /// Whether the self test passed.
    pub fn post_pass(&self) -> (r: bool)
        ensures
            r == self.spec_post_pass(),
    {
        get_u8(self.0, 2, 1) == 1
    }

    /// The register with this field set to `value`; the other fields are kept.
    pub fn with_post_pass(self, value: bool) -> (r: Ps2Cfg)
        ensures
            r.spec_post_pass() == value,
            r.spec_port1_intr() == self.spec_port1_intr(),
            r.spec_port2_intr() == self.spec_port2_intr(),
            r.spec_reserved0() == self.spec_reserved0(),
            r.spec_port1_clock() == self.spec_port1_clock(),
            r.spec_port2_clock() == self.spec_port2_clock(),
            r.spec_port1_translation() == self.spec_port1_translation(),
            r.spec_reserved1() == self.spec_reserved1(),
    {
        let x: u8 = if value { 1 } else { 0 };
        proof {
            lemma_fits_u8(1, x);
        }
        Ps2Cfg(set_u8(self.0, 2, 1, x))
    }

    /// Clock of the first port disabled.
    pub fn port1_clock(&self) -> (r: bool)
        ensures
            r == self.spec_port1_clock(),
    {
        get_u8(self.0, 4, 1) == 1
    }

    /// The register with this field set to `value`; the other fields are kept.
    pub fn with_port1_clock(self, value: bool) -> (r: Ps2Cfg)
        ensures
            r.spec_port1_clock() == value,
            r.spec_port1_intr() == self.spec_port1_intr(),
            r.spec_port2_intr() == self.spec_port2_intr(),
            r.spec_post_pass() == self.spec_post_pass(),
            r.spec_reserved0() == self.spec_reserved0(),
            r.spec_port2_clock() == self.spec_port2_clock(),
            r.spec_port1_translation() == self.spec_port1_translation(),
            r.spec_reserved1() == self.spec_reserved1(),
    {
        let x: u8 = if value { 1 } else { 0 };
        proof {
            lemma_fits_u8(1, x);
        }
        Ps2Cfg(set_u8(self.0, 4, 1, x))
    }

    /// Clock of the second port disabled.
    pub fn port2_clock(&self) -> (r: bool)
        ensures
            r == self.spec_port2_clock(),
    {
        get_u8(self.0, 5, 1) == 1
    }

    /// The register with this field set to `value`; the other fields are kept.
    pub fn with_port2_clock(self, value: bool) -> (r: Ps2Cfg)
        ensures
            r.spec_port2_clock() == value,
            r.spec_port1_intr() == self.spec_port1_intr(),
            r.spec_port2_intr() == self.spec_port2_intr(),
            r.spec_post_pass() == self.spec_post_pass(),
            r.spec_reserved0() == self.spec_reserved0(),
            r.spec_port1_clock() == self.spec_port1_clock(),
            r.spec_port1_translation() == self.spec_port1_translation(),
            r.spec_reserved1() == self.spec_reserved1(),
    {
        let x: u8 = if value { 1 } else { 0 };
        proof {
            lemma_fits_u8(1, x);
        }
        Ps2Cfg(set_u8(self.0, 5, 1, x))
    }

    /// Scancode translation on the first port.
    pub fn port1_translation(&self) -> (r: bool)
        ensures
            r == self.spec_port1_translation(),
    {
        get_u8(self.0, 6, 1) == 1
    }

    /// The register with this field set to `value`; the other fields are kept.
    pub fn with_port1_translation(self, value: bool) -> (r: Ps2Cfg)
        ensures
            r.spec_port1_translation() == value,
            r.spec_port1_intr() == self.spec_port1_intr(),
            r.spec_port2_intr() == self.spec_port2_intr(),
            r.spec_post_pass() == self.spec_post_pass(),
            r.spec_reserved0() == self.spec_reserved0(),
            r.spec_port1_clock() == self.spec_port1_clock(),
            r.spec_port2_clock() == self.spec_port2_clock(),
            r.spec_reserved1() == self.spec_reserved1(),
    {
        let x: u8 = if value { 1 } else { 0 };
        proof {
            lemma_fits_u8(1, x);
        }
        Ps2Cfg(set_u8(self.0, 6, 1, x))
    }

}

/// The configuration the driver writes back: interrupts from the first
/// port only, with scancode translation; other bits as read.
pub fn driver_config(read: Ps2Cfg) -> (r: Ps2Cfg)
    ensures
        r.spec_port1_intr(),
        !r.spec_port2_intr(),
        r.spec_port1_translation(),
        r.spec_post_pass() == read.spec_post_pass(),
        r.spec_reserved0() == read.spec_reserved0(),
        r.spec_port1_clock() == read.spec_port1_clock(),
        r.spec_port2_clock() == read.spec_port2_clock(),
        r.spec_reserved1() == read.spec_reserved1(),
{
    read.with_port1_intr(true).with_port2_intr(false).with_port1_translation(true)
}

/// A keyboard event.
#[derive(Debug, Clone, Copy, PartialEq, Eq, Structural)]
pub enum Ps2Event {
    ArrowLeft,
    ArrowRight,
    ArrowUp,
    ArrowDown,
    BackSpace,
    Pressed(char),
    Released(char),
    Other(u8),
}

/// The number row, scancodes 0x02 to 0x0B.
pub open spec fn digit_row() -> Seq<char> {
    seq!['1', '2', '3', '4', '5', '6', '7', '8', '9', '0']
}

/// The top letter row, scancodes 0x10 to 0x19.
pub open spec fn top_row() -> Seq<char> {
    seq!['q', 'w', 'e', 'r', 't', 'y', 'u', 'i', 'o', 'p']
}

/// The home row, scancodes 0x1E to 0x26.
pub open spec fn home_row() -> Seq<char> {
    seq!['a', 's', 'd', 'f', 'g', 'h', 'j', 'k', 'l']
}

/// The bottom row, scancodes 0x2C to 0x32.
pub open spec fn bottom_row() -> Seq<char> {
    seq!['z', 'x', 'c', 'v', 'b', 'n', 'm']
}

/// The event a scancode (set 1, translated) stands for.
pub open spec fn spec_event(code: u8) -> Ps2Event {
    if code == 0x0E {
        Ps2Event::BackSpace
    } else if 0x02 <= code <= 0x0B {
        Ps2Event::Pressed(digit_row()[code - 0x02])
    } else if code == 0x1C {
        Ps2Event::Pressed('\n')
    } else if 0x10 <= code <= 0x1C {
        Ps2Event::Pressed(top_row()[code - 0x10])
    } else if 0x1E <= code <= 0x26 {
        Ps2Event::Pressed(home_row()[code - 0x1E])
    } else if code == 0x29 {
        Ps2Event::Pressed('0')
    } else if 0x2C <= code <= 0x32 {
        Ps2Event::Pressed(bottom_row()[code - 0x2C])
    } else if code == 0x39 {
        Ps2Event::Pressed(' ')
    } else {
        Ps2Event::Other(code)
    }
}

/// Maps a scancode to its event. The codes 0x1A and 0x1B fall in the top
/// row's range but past its ten letters, where the driver has no character.
pub fn event_for(code: u8) -> (r: Ps2Event)
    requires
        code != 0x1A,
        code != 0x1B,
    ensures
        r == spec_event(code),
{
    let digits: [char; 10] = ['1', '2', '3', '4', '5', '6', '7', '8', '9', '0'];
    let top: [char; 10] = ['q', 'w', 'e', 'r', 't', 'y', 'u', 'i', 'o', 'p'];
    let home: [char; 9] = ['a', 's', 'd', 'f', 'g', 'h', 'j', 'k', 'l'];
    let bottom: [char; 7] = ['z', 'x', 'c', 'v', 'b', 'n', 'm'];
    assert(digits@ =~= digit_row());
    assert(top@ =~= top_row());
    assert(home@ =~= home_row());
    assert(bottom@ =~= bottom_row());
    if code == 0x0E {
        Ps2Event::BackSpace
    } else if 0x02 <= code && code <= 0x0B {
        Ps2Event::Pressed(digits[(code - 0x02) as usize])
    } else if code == 0x1C {
        Ps2Event::Pressed('\n')
    } else if 0x10 <= code && code <= 0x1C {
        Ps2Event::Pressed(top[(code - 0x10) as usize])
    } else if 0x1E <= code && code <= 0x26 {
        Ps2Event::Pressed(home[(code - 0x1E) as usize])
    } else if code == 0x29 {
        Ps2Event::Pressed('0')
    } else if 0x2C <= code && code <= 0x32 {
        Ps2Event::Pressed(bottom[(code - 0x2C) as usize])
    } else if code == 0x39 {
        Ps2Event::Pressed(' ')
    } else {
        Ps2Event::Other(code)
    }
}

/// The keyboard's layout, key by key: the digits 1 to 0 on codes 0x02
/// to 0x0B, `qwertyuiop` on 0x10 to 0x19, `asdfghjkl` on 0x1E to 0x26,
/// `zxcvbnm` on 0x2C to 0x32; backspace on 0x0E, enter on 0x1C, `0` on
/// 0x29 and space on 0x39; every other code is passed on as it is.
pub proof fn law_scancode_layout(code: u8)
    ensures
        0x02 <= code <= 0x0B ==> spec_event(code) == Ps2Event::Pressed(
            seq!['1', '2', '3', '4', '5', '6', '7', '8', '9', '0'][code - 0x02],
        ),
        0x10 <= code <= 0x19 ==> spec_event(code) == Ps2Event::Pressed(
            seq!['q', 'w', 'e', 'r', 't', 'y', 'u', 'i', 'o', 'p'][code - 0x10],
        ),
        0x1E <= code <= 0x26 ==> spec_event(code) == Ps2Event::Pressed(
            seq!['a', 's', 'd', 'f', 'g', 'h', 'j', 'k', 'l'][code - 0x1E],
        ),
        0x2C <= code <= 0x32 ==> spec_event(code) == Ps2Event::Pressed(
            seq!['z', 'x', 'c', 'v', 'b', 'n', 'm'][code - 0x2C],
        ),
        code == 0x0E ==> spec_event(code) == Ps2Event::BackSpace,
        code == 0x1C ==> spec_event(code) == Ps2Event::Pressed('\n'),
        code == 0x29 ==> spec_event(code) == Ps2Event::Pressed('0'),
        code == 0x39 ==> spec_event(code) == Ps2Event::Pressed(' '),
        !(0x02 <= code <= 0x0B || 0x0E == code || 0x10 <= code <= 0x1C || 0x1E <= code <= 0x26 || code == 0x29
            || 0x2C <= code <= 0x32 || code == 0x39) ==> spec_event(code) == Ps2Event::Other(code),
{
}

/// Each letter and digit key of the layout gives a different character:
/// two codes in the letter or digit rows that give the same character are
/// the same code.
pub proof fn law_keys_are_distinct(a: u8, b: u8)
    requires
        0x02 <= a <= 0x0B || 0x10 <= a <= 0x19 || 0x1E <= a <= 0x26 || 0x2C <= a <= 0x32,
        0x02 <= b <= 0x0B || 0x10 <= b <= 0x19 || 0x1E <= b <= 0x26 || 0x2C <= b <= 0x32,
        spec_event(a) == spec_event(b),
    ensures
        a == b,
{
    law_scancode_layout(a);
    law_scancode_layout(b);
}

} // verus!
