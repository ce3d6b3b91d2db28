//! The frame-buffer description the boot loader hands to the kernel, built
//! from the firmware's graphics mode.

use vstd::prelude::*;
use crate::pmm::PHYS_VIRT_OFFSET;

verus! {

/// The pixel layouts the firmware's graphics output reports.
#[derive(Debug, Clone, Copy, PartialEq, Eq, Structural)]
pub enum GopPixelFormat {
    Rgb,
    Bgr,
    Bitmask,
    BltOnly,
}

/// The pixel layouts the kernel's frame buffer supports.
#[derive(Debug, Clone, Copy, PartialEq, Eq, Structural)]
pub enum PixelFormat {
    RedGreenBlue,
    BlueGreenRed,
    Bitmask,
}

/// Which bits of a pixel hold each channel.
#[derive(Debug, Clone, Copy, PartialEq, Eq, Structural)]
pub struct PixelBitmask {
    pub red: u32,
    pub green: u32,
    pub blue: u32,
    pub alpha: u32,
}

/// The frame buffer: its address in the kernel's direct map, its size in
/// pixels, its pixel layout and the pixels per scan line.
#[derive(Debug, Clone, Copy, PartialEq, Eq, Structural)]
pub struct FrameBufferInfo {
    pub base: u64,
    pub width: usize,
    pub height: usize,
    pub pixel_format: PixelFormat,
    pub pixel_bitmask: PixelBitmask,
    pub pitch: usize,
}

/// The pixel layout the kernel uses for a firmware format.
pub open spec fn spec_pixel_format(f: GopPixelFormat) -> PixelFormat {
    match f {
        GopPixelFormat::Rgb => PixelFormat::RedGreenBlue,
        GopPixelFormat::Bgr => PixelFormat::BlueGreenRed,
        _ => PixelFormat::Bitmask,
    }
}

/// The channel masks of a firmware format; a bitmask mode brings its own.
pub open spec fn spec_pixel_bitmask(f: GopPixelFormat, mode_mask: Option<PixelBitmask>) -> PixelBitmask {
    match f {
        GopPixelFormat::Rgb => PixelBitmask {
            red: 0xFF00_0000,
            green: 0x00FF_0000,
            blue: 0x0000_FF00,
            alpha: 0x0000_00FF,
        },
        GopPixelFormat::Bgr => PixelBitmask {
            red: 0x0000_FF00,
            green: 0x00FF_0000,
            blue: 0xFF00_0000,
            alpha: 0x0000_00FF,
        },
        _ => mode_mask.unwrap(),
    }
}

/// Whether a firmware mode can back the kernel's frame buffer: it must
/// give pixel access, and a bitmask mode must report its masks.
pub open spec fn mode_supported(f: GopPixelFormat, mode_mask: Option<PixelBitmask>) -> bool {
    &&& f != GopPixelFormat::BltOnly
    &&& (f == GopPixelFormat::Bitmask ==> mode_mask is Some)
}

/// The frame-buffer description of the current graphics mode: the buffer
/// at physical address `fb_phys`, seen through the direct map; the mode's
/// resolution and stride; and its pixel layout with the channel masks of
/// that layout.
pub fn fbinfo_from_gop(
    fb_phys: u64,
    resolution: (usize, usize),
    format: GopPixelFormat,
    mode_mask: Option<PixelBitmask>,
    stride: usize,
) -> (r: FrameBufferInfo)
    requires
        fb_phys + PHYS_VIRT_OFFSET <= u64::MAX,
        mode_supported(format, mode_mask),
    ensures
        r.base == fb_phys + PHYS_VIRT_OFFSET,
        r.width == resolution.0,
        r.height == resolution.1,
        r.pixel_format == spec_pixel_format(format),
        r.pixel_bitmask == spec_pixel_bitmask(format, mode_mask),
        format == GopPixelFormat::Bgr ==> r.pixel_bitmask == (PixelBitmask {
            red: 0x0000_FF00,
            green: 0x00FF_0000,
            blue: 0xFF00_0000,
            alpha: 0x0000_00FF,
        }),
        format == GopPixelFormat::Rgb ==> r.pixel_bitmask == (PixelBitmask {
            red: 0xFF00_0000,
            green: 0x00FF_0000,
            blue: 0x0000_FF00,
            alpha: 0x0000_00FF,
        }),
        r.pitch == stride,
{
    let (pixel_format, pixel_bitmask) = match format {
        GopPixelFormat::Rgb => (
            PixelFormat::RedGreenBlue,
            PixelBitmask { red: 0xFF00_0000, green: 0x00FF_0000, blue: 0x0000_FF00, alpha: 0x0000_00FF },
        ),
        GopPixelFormat::Bgr => (
            PixelFormat::BlueGreenRed,
            PixelBitmask { red: 0x0000_FF00, green: 0x00FF_0000, blue: 0xFF00_0000, alpha: 0x0000_00FF },
        ),
        _ => (PixelFormat::Bitmask, mode_mask.unwrap()),
    };
    FrameBufferInfo {
        base: fb_phys + PHYS_VIRT_OFFSET,
        width: resolution.0,
        height: resolution.1,
        pixel_format,
        pixel_bitmask,
        pitch: stride,
    }
}

/// The fixed layouts put each channel in its own byte of the 32-bit
/// pixel: red, green, blue, alpha from the top byte down for RGB, and
/// blue, green, red, alpha for BGR, so BGR is RGB with red and blue
/// exchanged. A bitmask mode keeps the masks it reports.
pub proof fn law_fixed_channel_masks(m: Option<PixelBitmask>)
    ensures
        spec_pixel_bitmask(GopPixelFormat::Rgb, m) == (PixelBitmask {
            red: 0xFF00_0000,
            green: 0x00FF_0000,
            blue: 0x0000_FF00,
            alpha: 0x0000_00FF,
        }),
        spec_pixel_bitmask(GopPixelFormat::Bgr, m) == (PixelBitmask {
            red: 0x0000_FF00,
            green: 0x00FF_0000,
            blue: 0xFF00_0000,
            alpha: 0x0000_00FF,
        }),
        spec_pixel_bitmask(GopPixelFormat::Bgr, m).red == spec_pixel_bitmask(GopPixelFormat::Rgb, m).blue,
        spec_pixel_bitmask(GopPixelFormat::Bgr, m).blue == spec_pixel_bitmask(GopPixelFormat::Rgb, m).red,
        spec_pixel_bitmask(GopPixelFormat::Bgr, m).green == spec_pixel_bitmask(GopPixelFormat::Rgb, m).green,
        spec_pixel_bitmask(GopPixelFormat::Bgr, m).alpha == spec_pixel_bitmask(GopPixelFormat::Rgb, m).alpha,
        m is Some ==> spec_pixel_bitmask(GopPixelFormat::Bitmask, m) == m.unwrap(),
{
}

/// In the fixed layouts the four channel masks are disjoint and together
/// cover every bit of the pixel.
pub proof fn law_fixed_masks_partition_the_pixel(f: GopPixelFormat, m: Option<PixelBitmask>)
    requires
        f == GopPixelFormat::Rgb || f == GopPixelFormat::Bgr,
    ensures
        ({
            let k = spec_pixel_bitmask(f, m);
            &&& k.red & k.green == 0
            &&& k.red & k.blue == 0
            &&& k.red & k.alpha == 0
            &&& k.green & k.blue == 0
            &&& k.green & k.alpha == 0
            &&& k.blue & k.alpha == 0
            &&& k.red | k.green | k.blue | k.alpha == 0xFFFF_FFFF
        }),
{
    assert({
        &&& 0xFF00_0000u32 & 0x00FF_0000u32 == 0
        &&& 0xFF00_0000u32 & 0x0000_FF00u32 == 0
        &&& 0xFF00_0000u32 & 0x0000_00FFu32 == 0
        &&& 0x00FF_0000u32 & 0x0000_FF00u32 == 0
        &&& 0x00FF_0000u32 & 0x0000_00FFu32 == 0
        &&& 0x0000_FF00u32 & 0x0000_00FFu32 == 0
        &&& 0x00FF_0000u32 & 0xFF00_0000u32 == 0
        &&& 0x0000_FF00u32 & 0x00FF_0000u32 == 0
        &&& 0x0000_FF00u32 & 0xFF00_0000u32 == 0
        &&& 0xFF00_0000u32 | 0x00FF_0000u32 | 0x0000_FF00u32 | 0x0000_00FFu32 == 0xFFFF_FFFFu32
        &&& 0x0000_FF00u32 | 0x00FF_0000u32 | 0xFF00_0000u32 | 0x0000_00FFu32 == 0xFFFF_FFFFu32
    }) by (bit_vector);
}

} // verus!
