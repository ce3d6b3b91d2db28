//! The AC'97 audio controller: register layouts, port addresses and the
//! playback buffer logic of the driver.

use vstd::prelude::*;
use crate::bits::{field_u16, field_u32, field_u8, get_u16, get_u32, get_u8, lemma_field_zero_u16, lemma_field_zero_u32, lemma_field_zero_u8, lemma_fits_u16, lemma_fits_u32, lemma_fits_u8, set_u16, set_u32, set_u8};
use std::collections::VecDeque;

verus! {

/// The PCM channel count field; two bits.
#[derive(Debug, Clone, Copy, PartialEq, Eq, Structural)]
pub enum PcmChannels {
    Two,
    Four,
    Six,
}

impl PcmChannels {
    /// The encoding of the channel count.
    pub open spec fn spec_bits(self) -> u32 {
        match self {
            PcmChannels::Two => 0,
            PcmChannels::Four => 1,
            PcmChannels::Six => 2,
        }
    }

    /// The encoding of the channel count.
    pub fn into_bits(self) -> (r: u32)
        ensures
            r == self.spec_bits(),
    {
        match self {
            PcmChannels::Two => 0,
            PcmChannels::Four => 1,
            PcmChannels::Six => 2,
        }
    }

    /// The channel count an encoding stands for; 3 stands for none.
    pub fn from_bits(value: u32) -> (r: PcmChannels)
        requires
            value < 3,
        ensures
            r.spec_bits() == value,
    {
        if value == 0 {
            PcmChannels::Two
        } else if value == 1 {
            PcmChannels::Four
        } else {
            PcmChannels::Six
        }
    }
}

/// The PCM output sample width field; two bits.
#[derive(Debug, Clone, Copy, PartialEq, Eq, Structural)]
pub enum PcmOutMode {
    SixteenSamples,
    TwentySamples,
}

impl PcmOutMode {
    /// The encoding of the mode.
    pub open spec fn spec_bits(self) -> u32 {
        match self {
            PcmOutMode::SixteenSamples => 0,
            PcmOutMode::TwentySamples => 1,
        }
    }

    /// The encoding of the mode.
    pub fn into_bits(self) -> (r: u32)
        ensures
            r == self.spec_bits(),
    {
        match self {
            PcmOutMode::SixteenSamples => 0,
            PcmOutMode::TwentySamples => 1,
        }
    }

    /// The mode an encoding stands for; 2 and 3 stand for none.
    pub fn from_bits(value: u32) -> (r: PcmOutMode)
        requires
            value < 2,
        ensures
            r.spec_bits() == value,
    {
        if value == 0 {
            PcmOutMode::SixteenSamples
        } else {
            PcmOutMode::TwentySamples
        }
    }
}
/// The master output volume register of the mixer.
#[derive(Debug, Clone, Copy, PartialEq, Eq, Structural)]
pub struct MasterOutputVolume(pub u16);

impl MasterOutputVolume {
    /// Right channel attenuation.
    pub open spec fn spec_right(self) -> u16 {
        field_u16(self.0, 0, 6)
    }

    /// Reserved bits 6-7.
    pub open spec fn spec_reserved0(self) -> u16 {
        field_u16(self.0, 6, 2)
    }

    /// Left channel attenuation.
    pub open spec fn spec_left(self) -> u16 {
        field_u16(self.0, 8, 6)
    }

    /// Reserved bit 14.
    pub open spec fn spec_reserved1(self) -> u16 {
        field_u16(self.0, 14, 1)
    }

    /// Whether the output is muted.
    pub open spec fn spec_mute(self) -> bool {
        field_u16(self.0, 15, 1) == 1
    }

    /// The register with every field 0.
    pub fn new() -> (r: MasterOutputVolume)
        ensures
            r.0 == 0,
            r.spec_right() == 0,
            r.spec_reserved0() == 0,
            r.spec_left() == 0,
            r.spec_reserved1() == 0,
            r.spec_mute() == false,
    {
        proof {
            lemma_field_zero_u16(0, 6);
            lemma_field_zero_u16(6, 2);
            lemma_field_zero_u16(8, 6);
            lemma_field_zero_u16(14, 1);
            lemma_field_zero_u16(15, 1);
        }
        MasterOutputVolume(0)
    }

    /// The register holding the raw bits.
    pub fn from_bits(bits: u16) -> (r: MasterOutputVolume)
        ensures
            r.0 == bits,
    {
        MasterOutputVolume(bits)
    }

    /// The raw bits of the register.
    pub fn into_bits(self) -> (r: u16)
        ensures
            r == self.0,
    {
        self.0
    }

    /// Right channel attenuation.
    pub fn right(&self) -> (r: usize)
        ensures
            r == self.spec_right(),
    {
        get_u16(self.0, 0, 6) as usize
    }

    /// The register with this field set to `value`, which must fit in 6 bits; the other fields are kept.
    pub fn with_right(self, value: usize) -> (r: MasterOutputVolume)
        requires
            value < 64,
        ensures
            r.spec_right() == value,
            r.spec_reserved0() == self.spec_reserved0(),
            r.spec_left() == self.spec_left(),
            r.spec_reserved1() == self.spec_reserved1(),
            r.spec_mute() == self.spec_mute(),
    {
        let x = value as u16;
        proof {
            lemma_fits_u16(6, x);
        }
        MasterOutputVolume(set_u16(self.0, 0, 6, x))
    }

    /// Left channel attenuation.
    pub fn left(&self) -> (r: usize)
        ensures
            r == self.spec_left(),
    {
        get_u16(self.0, 8, 6) as usize
    }

    /// The register with this field set to `value`, which must fit in 6 bits; the other fields are kept.
    pub fn with_left(self, value: usize) -> (r: MasterOutputVolume)
        requires
            value < 64,
        ensures
            r.spec_left() == value,
            r.spec_right() == self.spec_right(),
            r.spec_reserved0() == self.spec_reserved0(),
            r.spec_reserved1() == self.spec_reserved1(),
            r.spec_mute() == self.spec_mute(),
    {
        let x = value as u16;
        proof {
            lemma_fits_u16(6, x);
        }
        MasterOutputVolume(set_u16(self.0, 8, 6, x))
    }

    /// Whether the output is muted.
    pub fn mute(&self) -> (r: bool)
        ensures
            r == self.spec_mute(),
    {
        get_u16(self.0, 15, 1) == 1
    }

    /// The register with this field set to `value`; the other fields are kept.
    pub fn with_mute(self, value: bool) -> (r: MasterOutputVolume)
        ensures
            r.spec_mute() == value,
            r.spec_right() == self.spec_right(),
            r.spec_reserved0() == self.spec_reserved0(),
            r.spec_left() == self.spec_left(),
            r.spec_reserved1() == self.spec_reserved1(),
    {
        let x: u16 = if value { 1 } else { 0 };
        proof {
            lemma_fits_u16(1, x);
        }
        MasterOutputVolume(set_u16(self.0, 15, 1, x))
    }

}

/// The PCM output volume register of the mixer.
#[derive(Debug, Clone, Copy, PartialEq, Eq, Structural)]
pub struct PcmOutputVolume(pub u16);

impl PcmOutputVolume {
    /// Right channel attenuation.
    pub open spec fn spec_right(self) -> u16 {
        field_u16(self.0, 0, 5)
    }

    /// Reserved bits 5-7.
    pub open spec fn spec_reserved0(self) -> u16 {
        field_u16(self.0, 5, 3)
    }

    /// Left channel attenuation.
    pub open spec fn spec_left(self) -> u16 {
        field_u16(self.0, 8, 5)
    }

    /// Reserved bits 13-14.
    pub open spec fn spec_reserved1(self) -> u16 {
        field_u16(self.0, 13, 2)
    }

    /// Whether the output is muted.
    pub open spec fn spec_mute(self) -> bool {
        field_u16(self.0, 15, 1) == 1
    }

    /// The register with every field 0.
    pub fn new() -> (r: PcmOutputVolume)
        ensures
            r.0 == 0,
            r.spec_right() == 0,
            r.spec_reserved0() == 0,
            r.spec_left() == 0,
            r.spec_reserved1() == 0,
            r.spec_mute() == false,
    {
        proof {
            lemma_field_zero_u16(0, 5);
            lemma_field_zero_u16(5, 3);
            lemma_field_zero_u16(8, 5);
            lemma_field_zero_u16(13, 2);
            lemma_field_zero_u16(15, 1);
        }
        PcmOutputVolume(0)
    }

    /// The register holding the raw bits.
    pub fn from_bits(bits: u16) -> (r: PcmOutputVolume)
        ensures
            r.0 == bits,
    {
        PcmOutputVolume(bits)
    }

    /// The raw bits of the register.
    pub fn into_bits(self) -> (r: u16)
        ensures
            r == self.0,
    {
        self.0
    }

    /// Right channel attenuation.
    pub fn right(&self) -> (r: usize)
        ensures
            r == self.spec_right(),
    {
        get_u16(self.0, 0, 5) as usize
    }

    /// The register with this field set to `value`, which must fit in 5 bits; the other fields are kept.
    pub fn with_right(self, value: usize) -> (r: PcmOutputVolume)
        requires
            value < 32,
        ensures
            r.spec_right() == value,
            r.spec_reserved0() == self.spec_reserved0(),
            r.spec_left() == self.spec_left(),
            r.spec_reserved1() == self.spec_reserved1(),
            r.spec_mute() == self.spec_mute(),
    {
        let x = value as u16;
        proof {
            lemma_fits_u16(5, x);
        }
        PcmOutputVolume(set_u16(self.0, 0, 5, x))
    }

    /// Left channel attenuation.
    pub fn left(&self) -> (r: usize)
        ensures
            r == self.spec_left(),
    {
        get_u16(self.0, 8, 5) as usize
    }

    /// The register with this field set to `value`, which must fit in 5 bits; the other fields are kept.
    pub fn with_left(self, value: usize) -> (r: PcmOutputVolume)
        requires
            value < 32,
        ensures
            r.spec_left() == value,
            r.spec_right() == self.spec_right(),
            r.spec_reserved0() == self.spec_reserved0(),
            r.spec_reserved1() == self.spec_reserved1(),
            r.spec_mute() == self.spec_mute(),
    {
        let x = value as u16;
        proof {
            lemma_fits_u16(5, x);
        }
        PcmOutputVolume(set_u16(self.0, 8, 5, x))
    }

    /// Whether the output is muted.
    pub fn mute(&self) -> (r: bool)
        ensures
            r == self.spec_mute(),
    {
        get_u16(self.0, 15, 1) == 1
    }

    /// The register with this field set to `value`; the other fields are kept.
    pub fn with_mute(self, value: bool) -> (r: PcmOutputVolume)
        ensures
            r.spec_mute() == value,
            r.spec_right() == self.spec_right(),
            r.spec_reserved0() == self.spec_reserved0(),
            r.spec_left() == self.spec_left(),
            r.spec_reserved1() == self.spec_reserved1(),
    {
        let x: u16 = if value { 1 } else { 0 };
        proof {
            lemma_fits_u16(1, x);
        }
        PcmOutputVolume(set_u16(self.0, 15, 1, x))
    }

}

/// The transfer control register of a bus-master box.
#[derive(Debug, Clone, Copy, PartialEq, Eq, Structural)]
pub struct RegBoxTransfer(pub u8);

impl RegBoxTransfer {
    /// Whether the DMA engine runs.
    pub open spec fn spec_transfer_data(self) -> bool {
        field_u8(self.0, 0, 1) == 1
    }

    /// Whether the box is being reset.
    pub open spec fn spec_reset(self) -> bool {
        field_u8(self.0, 1, 1) == 1
    }

    /// Interrupt on the last valid buffer entry.
    pub open spec fn spec_last_ent_fire_intr(self) -> bool {
        field_u8(self.0, 2, 1) == 1
    }

    /// Interrupt on completion.
    pub open spec fn spec_ioc_intr(self) -> bool {
        field_u8(self.0, 3, 1) == 1
    }

    /// Interrupt on a FIFO error.
    pub open spec fn spec_fifo_err_intr(self) -> bool {
        field_u8(self.0, 4, 1) == 1
    }

    /// Reserved bits 5-7.
    pub open spec fn spec_reserved0(self) -> u8 {
        field_u8(self.0, 5, 3)
    }

    /// The register with every field 0.
    pub fn new() -> (r: RegBoxTransfer)
        ensures
            r.0 == 0,
            r.spec_transfer_data() == false,
            r.spec_reset() == false,
            r.spec_last_ent_fire_intr() == false,
            r.spec_ioc_intr() == false,
            r.spec_fifo_err_intr() == false,
            r.spec_reserved0() == 0,
    {
        proof {
            lemma_field_zero_u8(0, 1);
            lemma_field_zero_u8(1, 1);
            lemma_field_zero_u8(2, 1);
            lemma_field_zero_u8(3, 1);
            lemma_field_zero_u8(4, 1);
            lemma_field_zero_u8(5, 3);
        }
        RegBoxTransfer(0)
    }

    /// The register holding the raw bits.
    pub fn from_bits(bits: u8) -> (r: RegBoxTransfer)
        ensures
            r.0 == bits,
    {
        RegBoxTransfer(bits)
    }

    /// The raw bits of the register.
    pub fn into_bits(self) -> (r: u8)
        ensures
            r == self.0,
    {
        self.0
    }

    /// Whether the DMA engine runs.
    pub fn transfer_data(&self) -> (r: bool)
        ensures
            r == self.spec_transfer_data(),
    {
        get_u8(self.0, 0, 1) == 1
    }

    /// The register with this field set to `value`; the other fields are kept.
    pub fn with_transfer_data(self, value: bool) -> (r: RegBoxTransfer)
        ensures
            r.spec_transfer_data() == value,
            r.spec_reset() == self.spec_reset(),
            r.spec_last_ent_fire_intr() == self.spec_last_ent_fire_intr(),
            r.spec_ioc_intr() == self.spec_ioc_intr(),
            r.spec_fifo_err_intr() == self.spec_fifo_err_intr(),
            r.spec_reserved0() == self.spec_reserved0(),
    {
        let x: u8 = if value { 1 } else { 0 };
        proof {
            lemma_fits_u8(1, x);
        }
        RegBoxTransfer(set_u8(self.0, 0, 1, x))
    }

    /// Whether the box is being reset.
    pub fn reset(&self) -> (r: bool)
        ensures
            r == self.spec_reset(),
    {
        get_u8(self.0, 1, 1) == 1
    }

    /// The register with this field set to `value`; the other fields are kept.
    pub fn with_reset(self, value: bool) -> (r: RegBoxTransfer)
        ensures
            r.spec_reset() == value,
            r.spec_transfer_data() == self.spec_transfer_data(),
            r.spec_last_ent_fire_intr() == self.spec_last_ent_fire_intr(),
            r.spec_ioc_intr() == self.spec_ioc_intr(),
            r.spec_fifo_err_intr() == self.spec_fifo_err_intr(),
            r.spec_reserved0() == self.spec_reserved0(),
    {
        let x: u8 = if value { 1 } else { 0 };
        proof {
            lemma_fits_u8(1, x);
        }
        RegBoxTransfer(set_u8(self.0, 1, 1, x))
    }

    /// Interrupt on the last valid buffer entry.
    pub fn last_ent_fire_intr(&self) -> (r: bool)
        ensures
            r == self.spec_last_ent_fire_intr(),
    {
        get_u8(self.0, 2, 1) == 1
    }

    /// The register with this field set to `value`; the other fields are kept.
    pub fn with_last_ent_fire_intr(self, value: bool) -> (r: RegBoxTransfer)
        ensures
            r.spec_last_ent_fire_intr() == value,
            r.spec_transfer_data() == self.spec_transfer_data(),
            r.spec_reset() == self.spec_reset(),
            r.spec_ioc_intr() == self.spec_ioc_intr(),
            r.spec_fifo_err_intr() == self.spec_fifo_err_intr(),
            r.spec_reserved0() == self.spec_reserved0(),
    {
        let x: u8 = if value { 1 } else { 0 };
        proof {
            lemma_fits_u8(1, x);
        }
        RegBoxTransfer(set_u8(self.0, 2, 1, x))
    }

    /// Interrupt on completion.
    pub fn ioc_intr(&self) -> (r: bool)
        ensures
            r == self.spec_ioc_intr(),
    {
        get_u8(self.0, 3, 1) == 1
    }

    /// The register with this field set to `value`; the other fields are kept.
    pub fn with_ioc_intr(self, value: bool) -> (r: RegBoxTransfer)
        ensures
            r.spec_ioc_intr() == value,
            r.spec_transfer_data() == self.spec_transfer_data(),
            r.spec_reset() == self.spec_reset(),
            r.spec_last_ent_fire_intr() == self.spec_last_ent_fire_intr(),
            r.spec_fifo_err_intr() == self.spec_fifo_err_intr(),
            r.spec_reserved0() == self.spec_reserved0(),
    {
        let x: u8 = if value { 1 } else { 0 };
        proof {
            lemma_fits_u8(1, x);
        }
        RegBoxTransfer(set_u8(self.0, 3, 1, x))
    }

    /// Interrupt on a FIFO error.
    pub fn fifo_err_intr(&self) -> (r: bool)
        ensures
            r == self.spec_fifo_err_intr(),
    {
        get_u8(self.0, 4, 1) == 1
    }

    /// The register with this field set to `value`; the other fields are kept.
    pub fn with_fifo_err_intr(self, value: bool) -> (r: RegBoxTransfer)
        ensures
            r.spec_fifo_err_intr() == value,
            r.spec_transfer_data() == self.spec_transfer_data(),
            r.spec_reset() == self.spec_reset(),
            r.spec_last_ent_fire_intr() == self.spec_last_ent_fire_intr(),
            r.spec_ioc_intr() == self.spec_ioc_intr(),
            r.spec_reserved0() == self.spec_reserved0(),
    {
        let x: u8 = if value { 1 } else { 0 };
        proof {
            lemma_fits_u8(1, x);
        }
        RegBoxTransfer(set_u8(self.0, 4, 1, x))
    }

}

/// The status register of a bus-master box.
#[derive(Debug, Clone, Copy, PartialEq, Eq, Structural)]
pub struct RegBoxStatus(pub u16);

impl RegBoxStatus {
    /// Whether the DMA engine is halted.
    pub open spec fn spec_transfer_data(self) -> bool {
        field_u16(self.0, 0, 1) == 1
    }

    /// Whether the current entry is the last valid one.
    pub open spec fn spec_end_of_transfer(self) -> bool {
        field_u16(self.0, 1, 1) == 1
    }

    /// Last valid entry interrupt.
    pub open spec fn spec_last_ent_fire_intr(self) -> bool {
        field_u16(self.0, 2, 1) == 1
    }

    /// Completion interrupt.
    pub open spec fn spec_ioc_intr(self) -> bool {
        field_u16(self.0, 3, 1) == 1
    }

    /// FIFO error interrupt.
    pub open spec fn spec_fifo_err_intr(self) -> bool {
        field_u16(self.0, 4, 1) == 1
    }

    /// Reserved bits 5-15.
    pub open spec fn spec_reserved0(self) -> u16 {
        field_u16(self.0, 5, 11)
    }

    /// The register with every field 0.
    pub fn new() -> (r: RegBoxStatus)
        ensures
            r.0 == 0,
            r.spec_transfer_data() == false,
            r.spec_end_of_transfer() == false,
            r.spec_last_ent_fire_intr() == false,
            r.spec_ioc_intr() == false,
            r.spec_fifo_err_intr() == false,
            r.spec_reserved0() == 0,
    {
        proof {
            lemma_field_zero_u16(0, 1);
            lemma_field_zero_u16(1, 1);
            lemma_field_zero_u16(2, 1);
            lemma_field_zero_u16(3, 1);
            lemma_field_zero_u16(4, 1);
            lemma_field_zero_u16(5, 11);
        }
        RegBoxStatus(0)
    }

    /// The register holding the raw bits.
    pub fn from_bits(bits: u16) -> (r: RegBoxStatus)
        ensures
            r.0 == bits,
    {
        RegBoxStatus(bits)
    }

    /// The raw bits of the register.
    pub fn into_bits(self) -> (r: u16)
        ensures
            r == self.0,
    {
        self.0
    }

    /// Whether the DMA engine is halted.
    pub fn transfer_data(&self) -> (r: bool)
        ensures
            r == self.spec_transfer_data(),
    {
        get_u16(self.0, 0, 1) == 1
    }

    /// The register with this field set to `value`; the other fields are kept.
    pub fn with_transfer_data(self, value: bool) -> (r: RegBoxStatus)
        ensures
            r.spec_transfer_data() == value,
            r.spec_end_of_transfer() == self.spec_end_of_transfer(),
            r.spec_last_ent_fire_intr() == self.spec_last_ent_fire_intr(),
            r.spec_ioc_intr() == self.spec_ioc_intr(),
            r.spec_fifo_err_intr() == self.spec_fifo_err_intr(),
            r.spec_reserved0() == self.spec_reserved0(),
    {
        let x: u16 = if value { 1 } else { 0 };
        proof {
            lemma_fits_u16(1, x);
        }
        RegBoxStatus(set_u16(self.0, 0, 1, x))
    }

    /// Whether the current entry is the last valid one.
    pub fn end_of_transfer(&self) -> (r: bool)
        ensures
            r == self.spec_end_of_transfer(),
    {
        get_u16(self.0, 1, 1) == 1
    }

    /// The register with this field set to `value`; the other fields are kept.
    pub fn with_end_of_transfer(self, value: bool) -> (r: RegBoxStatus)
        ensures
            r.spec_end_of_transfer() == value,
            r.spec_transfer_data() == self.spec_transfer_data(),
            r.spec_last_ent_fire_intr() == self.spec_last_ent_fire_intr(),
            r.spec_ioc_intr() == self.spec_ioc_intr(),
            r.spec_fifo_err_intr() == self.spec_fifo_err_intr(),
            r.spec_reserved0() == self.spec_reserved0(),
    {
        let x: u16 = if value { 1 } else { 0 };
        proof {
            lemma_fits_u16(1, x);
        }
        RegBoxStatus(set_u16(self.0, 1, 1, x))
    }

    /// Last valid entry interrupt.
    pub fn last_ent_fire_intr(&self) -> (r: bool)
        ensures
            r == self.spec_last_ent_fire_intr(),
    {
        get_u16(self.0, 2, 1) == 1
    }

    /// The register with this field set to `value`; the other fields are kept.
    pub fn with_last_ent_fire_intr(self, value: bool) -> (r: RegBoxStatus)
        ensures
            r.spec_last_ent_fire_intr() == value,
            r.spec_transfer_data() == self.spec_transfer_data(),
            r.spec_end_of_transfer() == self.spec_end_of_transfer(),
            r.spec_ioc_intr() == self.spec_ioc_intr(),
            r.spec_fifo_err_intr() == self.spec_fifo_err_intr(),
            r.spec_reserved0() == self.spec_reserved0(),
    {
        let x: u16 = if value { 1 } else { 0 };
        proof {
            lemma_fits_u16(1, x);
        }
        RegBoxStatus(set_u16(self.0, 2, 1, x))
    }

    /// Completion interrupt.
    pub fn ioc_intr(&self) -> (r: bool)
        ensures
            r == self.spec_ioc_intr(),
    {
        get_u16(self.0, 3, 1) == 1
    }

    /// The register with this field set to `value`; the other fields are kept.
    pub fn with_ioc_intr(self, value: bool) -> (r: RegBoxStatus)
        ensures
            r.spec_ioc_intr() == value,
            r.spec_transfer_data() == self.spec_transfer_data(),
            r.spec_end_of_transfer() == self.spec_end_of_transfer(),
            r.spec_last_ent_fire_intr() == self.spec_last_ent_fire_intr(),
            r.spec_fifo_err_intr() == self.spec_fifo_err_intr(),
            r.spec_reserved0() == self.spec_reserved0(),
    {
        let x: u16 = if value { 1 } else { 0 };
        proof {
            lemma_fits_u16(1, x);
        }
        RegBoxStatus(set_u16(self.0, 3, 1, x))
    }

    /// FIFO error interrupt.
    pub fn fifo_err_intr(&self) -> (r: bool)
        ensures
            r == self.spec_fifo_err_intr(),
    {
        get_u16(self.0, 4, 1) == 1
    }

    /// The register with this field set to `value`; the other fields are kept.
    pub fn with_fifo_err_intr(self, value: bool) -> (r: RegBoxStatus)
        ensures
            r.spec_fifo_err_intr() == value,
            r.spec_transfer_data() == self.spec_transfer_data(),
            r.spec_end_of_transfer() == self.spec_end_of_transfer(),
            r.spec_last_ent_fire_intr() == self.spec_last_ent_fire_intr(),
            r.spec_ioc_intr() == self.spec_ioc_intr(),
            r.spec_reserved0() == self.spec_reserved0(),
    {
        let x: u16 = if value { 1 } else { 0 };
        proof {
            lemma_fits_u16(1, x);
        }
        RegBoxStatus(set_u16(self.0, 4, 1, x))
    }

}

/// The control word of a buffer descriptor.
#[derive(Debug, Clone, Copy, PartialEq, Eq, Structural)]
pub struct BufferDescCtl(pub u16);

impl BufferDescCtl {
    /// Reserved bits 0-13.
    pub open spec fn spec_reserved0(self) -> u16 {
        field_u16(self.0, 0, 14)
    }

    /// Whether this is the last entry of the list.
    pub open spec fn spec_last(self) -> bool {
        field_u16(self.0, 14, 1) == 1
    }

    /// Whether completing this entry raises an interrupt.
    pub open spec fn spec_fire_interrupt(self) -> bool {
        field_u16(self.0, 15, 1) == 1
    }

    /// The register with every field 0.
    pub fn new() -> (r: BufferDescCtl)
        ensures
            r.0 == 0,
            r.spec_reserved0() == 0,
            r.spec_last() == false,
            r.spec_fire_interrupt() == false,
    {
        proof {
            lemma_field_zero_u16(0, 14);
            lemma_field_zero_u16(14, 1);
            lemma_field_zero_u16(15, 1);
        }
        BufferDescCtl(0)
    }

    /// The register holding the raw bits.
    pub fn from_bits(bits: u16) -> (r: BufferDescCtl)
        ensures
            r.0 == bits,
    {
        BufferDescCtl(bits)
    }

    /// The raw bits of the register.
    pub fn into_bits(self) -> (r: u16)
        ensures
            r == self.0,
    {
        self.0
    }

    /// Whether this is the last entry of the list.
    pub fn last(&self) -> (r: bool)
        ensures
            r == self.spec_last(),
    {
        get_u16(self.0, 14, 1) == 1
    }

    /// The register with this field set to `value`; the other fields are kept.
    pub fn with_last(self, value: bool) -> (r: BufferDescCtl)
        ensures
            r.spec_last() == value,
            r.spec_reserved0() == self.spec_reserved0(),
            r.spec_fire_interrupt() == self.spec_fire_interrupt(),
    {
        let x: u16 = if value { 1 } else { 0 };
        proof {
            lemma_fits_u16(1, x);
        }
        BufferDescCtl(set_u16(self.0, 14, 1, x))
    }

    /// Whether completing this entry raises an interrupt.
    pub fn fire_interrupt(&self) -> (r: bool)
        ensures
            r == self.spec_fire_interrupt(),
    {
        get_u16(self.0, 15, 1) == 1
    }

    /// The register with this field set to `value`; the other fields are kept.
    pub fn with_fire_interrupt(self, value: bool) -> (r: BufferDescCtl)
        ensures
            r.spec_fire_interrupt() == value,
            r.spec_reserved0() == self.spec_reserved0(),
            r.spec_last() == self.spec_last(),
    {
        let x: u16 = if value { 1 } else { 0 };
        proof {
            lemma_fits_u16(1, x);
        }
        BufferDescCtl(set_u16(self.0, 15, 1, x))
    }

}

/// The global control register of the audio bus.
#[derive(Debug, Clone, Copy, PartialEq, Eq, Structural)]
pub struct GlobalControl(pub u32);

impl GlobalControl {
    /// Whether GPI interrupts are enabled.
    pub open spec fn spec_interrupts(self) -> bool {
        field_u32(self.0, 0, 1) == 1
    }

    /// Cold reset (active when clear).
    pub open spec fn spec_cold_reset(self) -> bool {
        field_u32(self.0, 1, 1) == 1
    }

    /// Warm reset.
    pub open spec fn spec_warm_reset(self) -> bool {
        field_u32(self.0, 2, 1) == 1
    }

    /// Shut the link down.
    pub open spec fn spec_shut_down(self) -> bool {
        field_u32(self.0, 3, 1) == 1
    }

    /// Reserved bits 4-19.
    pub open spec fn spec_reserved0(self) -> u32 {
        field_u32(self.0, 4, 16)
    }

    /// The encoded PCM channel count.
    pub open spec fn spec_channels_bits(self) -> u32 {
        field_u32(self.0, 20, 2)
    }

    /// The encoded PCM output mode.
    pub open spec fn spec_pcm_out_mode_bits(self) -> u32 {
        field_u32(self.0, 22, 2)
    }

    /// Reserved bits 24-31.
    pub open spec fn spec_reserved1(self) -> u32 {
        field_u32(self.0, 24, 8)
    }

    /// The register with every field 0.
    pub fn new() -> (r: GlobalControl)
        ensures
            r.0 == 0,
            r.spec_interrupts() == false,
            r.spec_cold_reset() == false,
            r.spec_warm_reset() == false,
            r.spec_shut_down() == false,
            r.spec_reserved0() == 0,
            r.spec_channels_bits() == 0,
            r.spec_pcm_out_mode_bits() == 0,
            r.spec_reserved1() == 0,
    {
        proof {
            lemma_field_zero_u32(0, 1);
            lemma_field_zero_u32(1, 1);
            lemma_field_zero_u32(2, 1);
            lemma_field_zero_u32(3, 1);
            lemma_field_zero_u32(4, 16);
            lemma_field_zero_u32(20, 2);
            lemma_field_zero_u32(22, 2);
            lemma_field_zero_u32(24, 8);
        }
        GlobalControl(0)
    }

    /// The register holding the raw bits.
    pub fn from_bits(bits: u32) -> (r: GlobalControl)
        ensures
            r.0 == bits,
    {
        GlobalControl(bits)
    }

    /// The raw bits of the register.
    pub fn into_bits(self) -> (r: u32)
        ensures
            r == self.0,
    {
        self.0
    }

    /// Whether GPI interrupts are enabled.
    pub fn interrupts(&self) -> (r: bool)
        ensures
            r == self.spec_interrupts(),
    {
        get_u32(self.0, 0, 1) == 1
    }

    /// The register with this field set to `value`; the other fields are kept.
    pub fn with_interrupts(self, value: bool) -> (r: GlobalControl)
        ensures
            r.spec_interrupts() == value,
            r.spec_cold_reset() == self.spec_cold_reset(),
            r.spec_warm_reset() == self.spec_warm_reset(),
            r.spec_shut_down() == self.spec_shut_down(),
            r.spec_reserved0() == self.spec_reserved0(),
            r.spec_channels_bits() == self.spec_channels_bits(),
            r.spec_pcm_out_mode_bits() == self.spec_pcm_out_mode_bits(),
            r.spec_reserved1() == self.spec_reserved1(),
    {
        let x: u32 = if value { 1 } else { 0 };
        proof {
            lemma_fits_u32(1, x);
        }
        GlobalControl(set_u32(self.0, 0, 1, x))
    }

    /// Cold reset (active when clear).
    pub fn cold_reset(&self) -> (r: bool)
        ensures
            r == self.spec_cold_reset(),
    {
        get_u32(self.0, 1, 1) == 1
    }

    /// The register with this field set to `value`; the other fields are kept.
    pub fn with_cold_reset(self, value: bool) -> (r: GlobalControl)
        ensures
            r.spec_cold_reset() == value,
            r.spec_interrupts() == self.spec_interrupts(),
            r.spec_warm_reset() == self.spec_warm_reset(),
            r.spec_shut_down() == self.spec_shut_down(),
            r.spec_reserved0() == self.spec_reserved0(),
            r.spec_channels_bits() == self.spec_channels_bits(),
            r.spec_pcm_out_mode_bits() == self.spec_pcm_out_mode_bits(),
            r.spec_reserved1() == self.spec_reserved1(),
    {
        let x: u32 = if value { 1 } else { 0 };
        proof {
            lemma_fits_u32(1, x);
        }
        GlobalControl(set_u32(self.0, 1, 1, x))
    }

    /// Warm reset.
    pub fn warm_reset(&self) -> (r: bool)
        ensures
            r == self.spec_warm_reset(),
    {
        get_u32(self.0, 2, 1) == 1
    }

    /// The register with this field set to `value`; the other fields are kept.
    pub fn with_warm_reset(self, value: bool) -> (r: GlobalControl)
        ensures
            r.spec_warm_reset() == value,
            r.spec_interrupts() == self.spec_interrupts(),
            r.spec_cold_reset() == self.spec_cold_reset(),
            r.spec_shut_down() == self.spec_shut_down(),
            r.spec_reserved0() == self.spec_reserved0(),
            r.spec_channels_bits() == self.spec_channels_bits(),
            r.spec_pcm_out_mode_bits() == self.spec_pcm_out_mode_bits(),
            r.spec_reserved1() == self.spec_reserved1(),
    {
        let x: u32 = if value { 1 } else { 0 };
        proof {
            lemma_fits_u32(1, x);
        }
        GlobalControl(set_u32(self.0, 2, 1, x))
    }

    /// Shut the link down.
    pub fn shut_down(&self) -> (r: bool)
        ensures
            r == self.spec_shut_down(),
    {
        get_u32(self.0, 3, 1) == 1
    }

    /// The register with this field set to `value`; the other fields are kept.
    pub fn with_shut_down(self, value: bool) -> (r: GlobalControl)
        ensures
            r.spec_shut_down() == value,
            r.spec_interrupts() == self.spec_interrupts(),
            r.spec_cold_reset() == self.spec_cold_reset(),
            r.spec_warm_reset() == self.spec_warm_reset(),
            r.spec_reserved0() == self.spec_reserved0(),
            r.spec_channels_bits() == self.spec_channels_bits(),
            r.spec_pcm_out_mode_bits() == self.spec_pcm_out_mode_bits(),
            r.spec_reserved1() == self.spec_reserved1(),
    {
        let x: u32 = if value { 1 } else { 0 };
        proof {
            lemma_fits_u32(1, x);
        }
        GlobalControl(set_u32(self.0, 3, 1, x))
    }

}

/// The global status register of the audio bus.
#[derive(Debug, Clone, Copy, PartialEq, Eq, Structural)]
pub struct GlobalStatus(pub u32);

impl GlobalStatus {
    /// Reserved bits 0-19.
    pub open spec fn spec_reserved0(self) -> u32 {
        field_u32(self.0, 0, 20)
    }

    /// The encoded channel capability.
    pub open spec fn spec_channel_caps_bits(self) -> u32 {
        field_u32(self.0, 20, 2)
    }

    /// The encoded sample capability.
    pub open spec fn spec_sample_caps_bits(self) -> u32 {
        field_u32(self.0, 22, 2)
    }

    /// Reserved bits 24-31.
    pub open spec fn spec_reserved1(self) -> u32 {
        field_u32(self.0, 24, 8)
    }

    /// The register with every field 0.
    pub fn new() -> (r: GlobalStatus)
        ensures
            r.0 == 0,
            r.spec_reserved0() == 0,
            r.spec_channel_caps_bits() == 0,
            r.spec_sample_caps_bits() == 0,
            r.spec_reserved1() == 0,
    {
        proof {
            lemma_field_zero_u32(0, 20);
            lemma_field_zero_u32(20, 2);
            lemma_field_zero_u32(22, 2);
            lemma_field_zero_u32(24, 8);
        }
        GlobalStatus(0)
    }

    /// The register holding the raw bits.
    pub fn from_bits(bits: u32) -> (r: GlobalStatus)
        ensures
            r.0 == bits,
    {
        GlobalStatus(bits)
    }

    /// The raw bits of the register.
    pub fn into_bits(self) -> (r: u32)
        ensures
            r == self.0,
    {
        self.0
    }

}

impl GlobalControl {
    /// The PCM channel count; the encoding 3 names no count.
    pub fn channels(&self) -> (r: PcmChannels)
        requires
            self.spec_channels_bits() < 3,
        ensures
            r.spec_bits() == self.spec_channels_bits(),
    {
        PcmChannels::from_bits(get_u32(self.0, 20, 2))
    }

    /// The register with the channel count set; the other fields are kept.
    pub fn with_channels(self, value: PcmChannels) -> (r: GlobalControl)
        ensures
            r.spec_channels_bits() == value.spec_bits(),
            r.spec_interrupts() == self.spec_interrupts(),
            r.spec_cold_reset() == self.spec_cold_reset(),
            r.spec_warm_reset() == self.spec_warm_reset(),
            r.spec_shut_down() == self.spec_shut_down(),
            r.spec_reserved0() == self.spec_reserved0(),
            r.spec_pcm_out_mode_bits() == self.spec_pcm_out_mode_bits(),
            r.spec_reserved1() == self.spec_reserved1(),
    {
        let x = value.into_bits();
        proof {
            lemma_fits_u32(2, x);
        }
        GlobalControl(set_u32(self.0, 20, 2, x))
    }

    /// The PCM output mode; the encodings 2 and 3 name no mode.
    pub fn pcm_out_mode(&self) -> (r: PcmOutMode)
        requires
            self.spec_pcm_out_mode_bits() < 2,
        ensures
            r.spec_bits() == self.spec_pcm_out_mode_bits(),
    {
        PcmOutMode::from_bits(get_u32(self.0, 22, 2))
    }

    /// The register with the output mode set; the other fields are kept.
    pub fn with_pcm_out_mode(self, value: PcmOutMode) -> (r: GlobalControl)
        ensures
            r.spec_pcm_out_mode_bits() == value.spec_bits(),
            r.spec_interrupts() == self.spec_interrupts(),
            r.spec_cold_reset() == self.spec_cold_reset(),
            r.spec_warm_reset() == self.spec_warm_reset(),
            r.spec_shut_down() == self.spec_shut_down(),
            r.spec_reserved0() == self.spec_reserved0(),
            r.spec_channels_bits() == self.spec_channels_bits(),
            r.spec_reserved1() == self.spec_reserved1(),
    {
        let x = value.into_bits();
        proof {
            lemma_fits_u32(2, x);
        }
        GlobalControl(set_u32(self.0, 22, 2, x))
    }
}

impl GlobalStatus {
    /// The channel counts the codec supports; the encoding 3 names none.
    pub fn channel_caps(&self) -> (r: PcmChannels)
        requires
            self.spec_channel_caps_bits() < 3,
        ensures
            r.spec_bits() == self.spec_channel_caps_bits(),
    {
        PcmChannels::from_bits(get_u32(self.0, 20, 2))
    }

    /// The sample widths the codec supports; the encodings 2 and 3 name none.
    pub fn sample_caps(&self) -> (r: PcmOutMode)
        requires
            self.spec_sample_caps_bits() < 2,
        ensures
            r.spec_bits() == self.spec_sample_caps_bits(),
    {
        PcmOutMode::from_bits(get_u32(self.0, 22, 2))
    }
}

/// An entry of the buffer descriptor list: a physical address, a sample
/// count and the control word.
#[derive(Debug, Clone, Copy, PartialEq, Eq, Structural)]
pub struct BufferDescriptor {
    pub addr: u32,
    pub samples: u16,
    pub ctl: BufferDescCtl,
}

impl Default for BufferDescriptor {
    /// An all-zero entry.
    fn default() -> (r: BufferDescriptor)
        ensures
            r.addr == 0,
            r.samples == 0,
            r.ctl.0 == 0,
    {
        BufferDescriptor { addr: 0, samples: 0, ctl: BufferDescCtl::new() }
    }
}

/// The registers of the mixer, by offset.
#[derive(Debug, Clone, Copy, PartialEq, Eq, Structural)]
pub enum MixerReg {
    Reset,
    MasterVolume,
    PCMOutVolume,
    SampleRate,
}

impl MixerReg {
    /// The register's offset from the mixer base port.
    pub open spec fn spec_offset(self) -> u16 {
        match self {
            MixerReg::Reset => 0x0,
            MixerReg::MasterVolume => 0x2,
            MixerReg::PCMOutVolume => 0x18,
            MixerReg::SampleRate => 0x2C,
        }
    }

    /// The register's offset from the mixer base port.
    pub fn offset(self) -> (r: u16)
        ensures
            r == self.spec_offset(),
    {
        match self {
            MixerReg::Reset => 0x0,
            MixerReg::MasterVolume => 0x2,
            MixerReg::PCMOutVolume => 0x18,
            MixerReg::SampleRate => 0x2C,
        }
    }
}

/// The registers of the bus master, by offset.
#[derive(Debug, Clone, Copy, PartialEq, Eq, Structural)]
pub enum AudioBusReg {
    PCMOutBDLAddr,
    PCMOutLastEnt,
    PCMOutStatus,
    PCMOutTransferControl,
    GlobalControl,
}

impl AudioBusReg {
    /// The register's offset from the bus-master base port.
    pub open spec fn spec_offset(self) -> u16 {
        match self {
            AudioBusReg::PCMOutBDLAddr => 0x10,
            AudioBusReg::PCMOutLastEnt => 0x15,
            AudioBusReg::PCMOutStatus => 0x16,
            AudioBusReg::PCMOutTransferControl => 0x1B,
            AudioBusReg::GlobalControl => 0x2C,
        }
    }

    /// The register's offset from the bus-master base port.
    pub fn offset(self) -> (r: u16)
        ensures
            r == self.spec_offset(),
    {
        match self {
            AudioBusReg::PCMOutBDLAddr => 0x10,
            AudioBusReg::PCMOutLastEnt => 0x15,
            AudioBusReg::PCMOutStatus => 0x16,
            AudioBusReg::PCMOutTransferControl => 0x1B,
            AudioBusReg::GlobalControl => 0x2C,
        }
    }
}

/// The I/O ports the driver uses, derived from the two base address registers.
#[derive(Debug, Clone, Copy, PartialEq, Eq, Structural)]
pub struct Ac97Ports {
    pub mixer: u16,
    pub audio_bus: u16,
    pub pcm_out_bdl_last_ent: u16,
    pub pcm_out_bdl_addr: u16,
    pub pcm_out_transf_ctl: u16,
    pub pcm_out_transf_status: u16,
}

impl Ac97Ports {
    /// The ports for BAR0 (mixer) and BAR1 (bus master); bit 0 of an I/O BAR
    /// only marks it as such and is cleared.
    pub fn new(bar0: u16, bar1: u16) -> (r: Ac97Ports)
        requires
            bar1 - bar1 % 2 + 0x1B <= u16::MAX,
        ensures
            r.mixer == bar0 - bar0 % 2,
            r.audio_bus == bar1 - bar1 % 2,
            r.pcm_out_bdl_last_ent == r.audio_bus + 0x15,
            r.pcm_out_bdl_addr == r.audio_bus + 0x10,
            r.pcm_out_transf_ctl == r.audio_bus + 0x1B,
            r.pcm_out_transf_status == r.audio_bus + 0x16,
    {
        let audio_bus = bar1 & !1u16;
        let mixer = bar0 & !1u16;
        assert(bar1 & !1u16 == bar1 - bar1 % 2) by (bit_vector);
        assert(bar0 & !1u16 == bar0 - bar0 % 2) by (bit_vector);
        Ac97Ports {
            mixer,
            audio_bus,
            pcm_out_bdl_last_ent: audio_bus + AudioBusReg::PCMOutLastEnt.offset(),
            pcm_out_bdl_addr: audio_bus + AudioBusReg::PCMOutBDLAddr.offset(),
            pcm_out_transf_ctl: audio_bus + AudioBusReg::PCMOutTransferControl.offset(),
            pcm_out_transf_status: audio_bus + AudioBusReg::PCMOutStatus.offset(),
        }
    }
}

/// The master volume the driver sets: both channels at attenuation 0x3F, not muted.
pub fn initial_master_volume() -> (r: MasterOutputVolume)
    ensures
        r.spec_right() == 0x3F,
        r.spec_left() == 0x3F,
        !r.spec_mute(),
        r.spec_reserved0() == 0,
        r.spec_reserved1() == 0,
{
    MasterOutputVolume::new().with_right(0x3F).with_left(0x3F).with_mute(false)
}

/// The PCM volume the driver sets: both channels at attenuation 0x1F, not muted.
pub fn initial_pcm_volume() -> (r: PcmOutputVolume)
    ensures
        r.spec_right() == 0x1F,
        r.spec_left() == 0x1F,
        !r.spec_mute(),
        r.spec_reserved0() == 0,
        r.spec_reserved1() == 0,
{
    PcmOutputVolume::new().with_right(0x1F).with_left(0x1F).with_mute(false)
}

/// The global control value the driver writes back: the value read with
/// the cold-reset and interrupt bits set.
pub fn reset_global_control(read: GlobalControl) -> (r: GlobalControl)
    ensures
        r.spec_cold_reset(),
        r.spec_interrupts(),
        r.spec_warm_reset() == read.spec_warm_reset(),
        r.spec_shut_down() == read.spec_shut_down(),
        r.spec_reserved0() == read.spec_reserved0(),
        r.spec_channels_bits() == read.spec_channels_bits(),
        r.spec_pcm_out_mode_bits() == read.spec_pcm_out_mode_bits(),
        r.spec_reserved1() == read.spec_reserved1(),
{
    read.with_cold_reset(true).with_interrupts(true)
}

/// Samples per buffer descriptor entry.
pub const SAMPLES_PER_ENTRY: u16 = 0xFFFE;

/// The single entry of the driver's buffer descriptor list: the largest
/// sample count, last entry, interrupt on completion; the address is set
/// when playback starts.
pub fn initial_descriptor() -> (r: BufferDescriptor)
    ensures
        r.addr == 0,
        r.samples == 0xFFFE,
        r.ctl.spec_last(),
        r.ctl.spec_fire_interrupt(),
        r.ctl.spec_reserved0() == 0,
{
    BufferDescriptor {
        addr: 0,
        samples: SAMPLES_PER_ENTRY,
        ctl: BufferDescCtl::new().with_last(true).with_fire_interrupt(true),
    }
}

/// Bytes one entry plays: 0xFFFE 16-bit samples.
pub const BYTES_PER_ENTRY: usize = 0x1FFFC;

/// What the driver does with the hardware after an interrupt.
#[derive(Debug, Clone, Copy, PartialEq, Eq, Structural)]
pub enum PlaybackStep {
    /// Nothing left to play: reset the output box.
    Stop,
    /// Clear the status bits, reset the box, point it at the buffer and start it.
    Continue,
}

/// The audio waiting to be played and whether the hardware plays it.
pub struct Playback {
    pub buf: VecDeque<u8>,
    pub playing: bool,
}

impl Playback {
    /// Nothing queued, not playing.
    pub fn new() -> (r: Playback)
        ensures
            r.buf@.len() == 0,
            !r.playing,
    {
        Playback { buf: VecDeque::new(), playing: false }
    }

    /// Starts the hardware unless it plays already or nothing is queued;
    /// returns whether it must be started.
    pub fn start_playback(&mut self) -> (start: bool)
        ensures
            start == (!old(self).playing && old(self).buf@.len() > 0),
            final(self).playing == (old(self).playing || start),
            final(self).buf@ == old(self).buf@,
    {
        if !self.playing && self.buf.len() > 0 {
            self.playing = true;
            true
        } else {
            false
        }
    }

    /// Queues `data` behind what is queued, then starts playback if it is
    /// not running; returns whether the hardware must be started.
    pub fn play_audio(&mut self, data: &[u8]) -> (start: bool)
        requires
            old(self).buf@.len() + data@.len() <= usize::MAX,
        ensures
            final(self).buf@ == old(self).buf@ + data@,
            start == (!old(self).playing && old(self).buf@.len() + data@.len() > 0),
            final(self).playing == (old(self).playing || start),
    {
        let ghost buf0 = self.buf@;
        let mut i: usize = 0;
        while i < data.len()
            invariant
                i <= data@.len(),
                self.buf@ == buf0 + data@.take(i as int),
                buf0.len() + data@.len() <= usize::MAX,
                self.playing == old(self).playing,
            decreases data@.len() - i,
        {
            self.buf.push_back(data[i]);
            proof {
                assert(self.buf@ =~= buf0 + data@.take(i + 1));
            }
            i = i + 1;
        }
        proof {
            assert(data@.take(data@.len() as int) =~= data@);
        }
        self.start_playback()
    }

    /// Handles the interrupt that marks the end of an entry: stops when
    /// nothing is left or playback was off; else pads the queue with
    /// silence to a whole entry, drops the entry just played, and goes on.
    pub fn on_entry_complete(&mut self) -> (step: PlaybackStep)
        ensures
            if old(self).buf@.len() == 0 || !old(self).playing {
                step == PlaybackStep::Stop && !final(self).playing && final(self).buf@ == old(self).buf@
            } else {
                &&& step == PlaybackStep::Continue
                &&& final(self).playing
                &&& final(self).buf@ == if old(self).buf@.len() < BYTES_PER_ENTRY {
                    Seq::<u8>::empty()
                } else {
                    old(self).buf@.skip(BYTES_PER_ENTRY as int)
                }
            },
    {
        if self.buf.len() == 0 || !self.playing {
            self.playing = false;
            return PlaybackStep::Stop;
        }
        if self.buf.len() < BYTES_PER_ENTRY {
            self.buf.resize(BYTES_PER_ENTRY, 0);
        }
        let ghost padded = self.buf@;
        let mut n: usize = 0;
        while n < BYTES_PER_ENTRY
            invariant
                n <= BYTES_PER_ENTRY,
                padded.len() >= BYTES_PER_ENTRY,
                self.buf@ == padded.skip(n as int),
                self.playing,
            decreases BYTES_PER_ENTRY - n,
        {
            self.buf.pop_front();
            proof {
                assert(self.buf@ =~= padded.skip(n + 1));
            }
            n = n + 1;
        }
        proof {
            if old(self).buf@.len() >= BYTES_PER_ENTRY {
                assert(padded == old(self).buf@);
            } else {
                assert(padded.len() == BYTES_PER_ENTRY);
                assert(padded.skip(BYTES_PER_ENTRY as int) =~= Seq::<u8>::empty());
            }
        }
        PlaybackStep::Continue
    }
}

} // verus!
