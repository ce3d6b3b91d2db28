//! Bit fields of device and descriptor registers: reading and replacing
//! the `w`-bit field at bit `lo` of an 8-, 16- or 32-bit word.

use vstd::prelude::*;

verus! {

/// The `w`-bit field at bit `lo` of a `u8`.
pub open spec fn field_u8(v: u8, lo: u8, w: u8) -> u8 {
    (v >> lo) & (u8::MAX >> ((8 - w) as u8))
}

/// `v` with the `w`-bit field at bit `lo` replaced by `x`.
pub open spec fn put_u8(v: u8, lo: u8, w: u8, x: u8) -> u8 {
    (v & !((u8::MAX >> ((8 - w) as u8)) << lo)) | ((x & (u8::MAX >> ((8 - w) as u8))) << lo)
}

/// Whether a field fits in a `u8` and `x` fits in the field.
pub open spec fn fits_u8(lo: u8, w: u8, x: u8) -> bool {
    1 <= w && lo + w <= 8 && x <= (u8::MAX >> ((8 - w) as u8))
}

/// Reads the field.
pub fn get_u8(v: u8, lo: u8, w: u8) -> (r: u8)
    requires
        1 <= w,
        lo + w <= 8,
    ensures
        r == field_u8(v, lo, w),
        r <= (u8::MAX >> ((8 - w) as u8)),
{
    let m = u8::MAX >> (8 - w);
    assert((v >> lo) & m <= m) by (bit_vector);
    (v >> lo) & m
}

/// Replaces the field.
pub fn set_u8(v: u8, lo: u8, w: u8, x: u8) -> (r: u8)
    requires
        fits_u8(lo, w, x),
    ensures
        r == put_u8(v, lo, w, x),
        field_u8(r, lo, w) == x,
        forall|lo2: u8, w2: u8|
            1 <= w2 && lo2 + w2 <= 8 && (lo2 + w2 <= lo || lo + w <= lo2) ==> #[trigger] field_u8(r, lo2, w2)
                == field_u8(v, lo2, w2),
{
    let m = u8::MAX >> (8 - w);
    proof {
        lemma_put_same_u8(v, lo, w, x);
        assert forall|lo2: u8, w2: u8|
            1 <= w2 && lo2 + w2 <= 8 && (lo2 + w2 <= lo || lo + w <= lo2) implies #[trigger] field_u8(
            put_u8(v, lo, w, x),
            lo2,
            w2,
        ) == field_u8(v, lo2, w2) by {
            lemma_put_other_u8(v, lo, w, x, lo2, w2);
        }
    }
    (v & !(m << lo)) | ((x & m) << lo)
}

proof fn lemma_put_same_u8(v: u8, lo: u8, w: u8, x: u8)
    requires
        fits_u8(lo, w, x),
    ensures
        field_u8(put_u8(v, lo, w, x), lo, w) == x,
{
    assert((((v & !((u8::MAX >> ((8 - w) as u8)) << lo)) | ((x & (u8::MAX >> ((8 - w) as u8)))
        << lo)) >> lo) & (u8::MAX >> ((8 - w) as u8)) == x) by (bit_vector)
        requires
            1 <= w,
            lo + w <= 8,
            x <= (u8::MAX >> ((8 - w) as u8)),
    ;
}

proof fn lemma_put_other_u8(v: u8, lo: u8, w: u8, x: u8, lo2: u8, w2: u8)
    requires
        fits_u8(lo, w, x),
        1 <= w2,
        lo2 + w2 <= 8,
        lo2 + w2 <= lo || lo + w <= lo2,
    ensures
        field_u8(put_u8(v, lo, w, x), lo2, w2) == field_u8(v, lo2, w2),
{
    assert((((v & !((u8::MAX >> ((8 - w) as u8)) << lo)) | ((x & (u8::MAX >> ((8 - w) as u8)))
        << lo)) >> lo2) & (u8::MAX >> ((8 - w2) as u8)) == (v >> lo2) & (u8::MAX >> ((8
        - w2) as u8))) by (bit_vector)
        requires
            1 <= w,
            lo + w <= 8,
            1 <= w2,
            lo2 + w2 <= 8,
            lo2 + w2 <= lo || lo + w <= lo2,
    ;
}

/// Every field of 0 is 0.
pub proof fn lemma_field_zero_u8(lo: u8, w: u8)
    requires
        1 <= w,
        lo + w <= 8,
    ensures
        field_u8(0, lo, w) == 0,
{
    assert((0u8 >> lo) & (u8::MAX >> ((8 - w) as u8)) == 0) by (bit_vector);
}

/// The `w`-bit field at bit `lo` of a `u16`.
pub open spec fn field_u16(v: u16, lo: u16, w: u16) -> u16 {
    (v >> lo) & (u16::MAX >> ((16 - w) as u16))
}

/// `v` with the `w`-bit field at bit `lo` replaced by `x`.
pub open spec fn put_u16(v: u16, lo: u16, w: u16, x: u16) -> u16 {
    (v & !((u16::MAX >> ((16 - w) as u16)) << lo)) | ((x & (u16::MAX >> ((16 - w) as u16))) << lo)
}

/// Whether a field fits in a `u16` and `x` fits in the field.
pub open spec fn fits_u16(lo: u16, w: u16, x: u16) -> bool {
    1 <= w && lo + w <= 16 && x <= (u16::MAX >> ((16 - w) as u16))
}

/// Reads the field.
pub fn get_u16(v: u16, lo: u16, w: u16) -> (r: u16)
    requires
        1 <= w,
        lo + w <= 16,
    ensures
        r == field_u16(v, lo, w),
        r <= (u16::MAX >> ((16 - w) as u16)),
{
    let m = u16::MAX >> (16 - w);
    assert((v >> lo) & m <= m) by (bit_vector);
    (v >> lo) & m
}

/// Replaces the field.
pub fn set_u16(v: u16, lo: u16, w: u16, x: u16) -> (r: u16)
    requires
        fits_u16(lo, w, x),
    ensures
        r == put_u16(v, lo, w, x),
        field_u16(r, lo, w) == x,
        forall|lo2: u16, w2: u16|
            1 <= w2 && lo2 + w2 <= 16 && (lo2 + w2 <= lo || lo + w <= lo2) ==> #[trigger] field_u16(r, lo2, w2)
                == field_u16(v, lo2, w2),
{
    let m = u16::MAX >> (16 - w);
    proof {
        lemma_put_same_u16(v, lo, w, x);
        assert forall|lo2: u16, w2: u16|
            1 <= w2 && lo2 + w2 <= 16 && (lo2 + w2 <= lo || lo + w <= lo2) implies #[trigger] field_u16(
            put_u16(v, lo, w, x),
            lo2,
            w2,
        ) == field_u16(v, lo2, w2) by {
            lemma_put_other_u16(v, lo, w, x, lo2, w2);
        }
    }
    (v & !(m << lo)) | ((x & m) << lo)
}

proof fn lemma_put_same_u16(v: u16, lo: u16, w: u16, x: u16)
    requires
        fits_u16(lo, w, x),
    ensures
        field_u16(put_u16(v, lo, w, x), lo, w) == x,
{
    assert((((v & !((u16::MAX >> ((16 - w) as u16)) << lo)) | ((x & (u16::MAX >> ((16 - w) as u16)))
        << lo)) >> lo) & (u16::MAX >> ((16 - w) as u16)) == x) by (bit_vector)
        requires
            1 <= w,
            lo + w <= 16,
            x <= (u16::MAX >> ((16 - w) as u16)),
    ;
}

proof fn lemma_put_other_u16(v: u16, lo: u16, w: u16, x: u16, lo2: u16, w2: u16)
    requires
        fits_u16(lo, w, x),
        1 <= w2,
        lo2 + w2 <= 16,
        lo2 + w2 <= lo || lo + w <= lo2,
    ensures
        field_u16(put_u16(v, lo, w, x), lo2, w2) == field_u16(v, lo2, w2),
{
    assert((((v & !((u16::MAX >> ((16 - w) as u16)) << lo)) | ((x & (u16::MAX >> ((16 - w) as u16)))
        << lo)) >> lo2) & (u16::MAX >> ((16 - w2) as u16)) == (v >> lo2) & (u16::MAX >> ((16
        - w2) as u16))) by (bit_vector)
        requires
            1 <= w,
            lo + w <= 16,
            1 <= w2,
            lo2 + w2 <= 16,
            lo2 + w2 <= lo || lo + w <= lo2,
    ;
}

/// Every field of 0 is 0.
pub proof fn lemma_field_zero_u16(lo: u16, w: u16)
    requires
        1 <= w,
        lo + w <= 16,
    ensures
        field_u16(0, lo, w) == 0,
{
    assert((0u16 >> lo) & (u16::MAX >> ((16 - w) as u16)) == 0) by (bit_vector);
}

/// The `w`-bit field at bit `lo` of a `u32`.
pub open spec fn field_u32(v: u32, lo: u32, w: u32) -> u32 {
    (v >> lo) & (u32::MAX >> ((32 - w) as u32))
}

/// `v` with the `w`-bit field at bit `lo` replaced by `x`.
pub open spec fn put_u32(v: u32, lo: u32, w: u32, x: u32) -> u32 {
    (v & !((u32::MAX >> ((32 - w) as u32)) << lo)) | ((x & (u32::MAX >> ((32 - w) as u32))) << lo)
}

/// Whether a field fits in a `u32` and `x` fits in the field.
pub open spec fn fits_u32(lo: u32, w: u32, x: u32) -> bool {
    1 <= w && lo + w <= 32 && x <= (u32::MAX >> ((32 - w) as u32))
}

/// Reads the field.
pub fn get_u32(v: u32, lo: u32, w: u32) -> (r: u32)
    requires
        1 <= w,
        lo + w <= 32,
    ensures
        r == field_u32(v, lo, w),
        r <= (u32::MAX >> ((32 - w) as u32)),
{
    let m = u32::MAX >> (32 - w);
    assert((v >> lo) & m <= m) by (bit_vector);
    (v >> lo) & m
}

/// Replaces the field.
pub fn set_u32(v: u32, lo: u32, w: u32, x: u32) -> (r: u32)
    requires
        fits_u32(lo, w, x),
    ensures
        r == put_u32(v, lo, w, x),
        field_u32(r, lo, w) == x,
        forall|lo2: u32, w2: u32|
            1 <= w2 && lo2 + w2 <= 32 && (lo2 + w2 <= lo || lo + w <= lo2) ==> #[trigger] field_u32(r, lo2, w2)
                == field_u32(v, lo2, w2),
{
    let m = u32::MAX >> (32 - w);
    proof {
        lemma_put_same_u32(v, lo, w, x);
        assert forall|lo2: u32, w2: u32|
            1 <= w2 && lo2 + w2 <= 32 && (lo2 + w2 <= lo || lo + w <= lo2) implies #[trigger] field_u32(
            put_u32(v, lo, w, x),
            lo2,
            w2,
        ) == field_u32(v, lo2, w2) by {
            lemma_put_other_u32(v, lo, w, x, lo2, w2);
        }
    }
    (v & !(m << lo)) | ((x & m) << lo)
}

proof fn lemma_put_same_u32(v: u32, lo: u32, w: u32, x: u32)
    requires
        fits_u32(lo, w, x),
    ensures
        field_u32(put_u32(v, lo, w, x), lo, w) == x,
{
    assert((((v & !((u32::MAX >> ((32 - w) as u32)) << lo)) | ((x & (u32::MAX >> ((32 - w) as u32)))
        << lo)) >> lo) & (u32::MAX >> ((32 - w) as u32)) == x) by (bit_vector)
        requires
            1 <= w,
            lo + w <= 32,
            x <= (u32::MAX >> ((32 - w) as u32)),
    ;
}

proof fn lemma_put_other_u32(v: u32, lo: u32, w: u32, x: u32, lo2: u32, w2: u32)
    requires
        fits_u32(lo, w, x),
        1 <= w2,
        lo2 + w2 <= 32,
        lo2 + w2 <= lo || lo + w <= lo2,
    ensures
        field_u32(put_u32(v, lo, w, x), lo2, w2) == field_u32(v, lo2, w2),
{
    assert((((v & !((u32::MAX >> ((32 - w) as u32)) << lo)) | ((x & (u32::MAX >> ((32 - w) as u32)))
        << lo)) >> lo2) & (u32::MAX >> ((32 - w2) as u32)) == (v >> lo2) & (u32::MAX >> ((32
        - w2) as u32))) by (bit_vector)
        requires
            1 <= w,
            lo + w <= 32,
            1 <= w2,
            lo2 + w2 <= 32,
            lo2 + w2 <= lo || lo + w <= lo2,
    ;
}

/// Every field of 0 is 0.
pub proof fn lemma_field_zero_u32(lo: u32, w: u32)
    requires
        1 <= w,
        lo + w <= 32,
    ensures
        field_u32(0, lo, w) == 0,
{
    assert((0u32 >> lo) & (u32::MAX >> ((32 - w) as u32)) == 0) by (bit_vector);
}

/// 2 to the power `w`, for field widths 1 to 8.
pub open spec fn pow2_u8(w: u8) -> u64 {
    if w == 1 {
        2
    } else if w == 2 {
        4
    } else if w == 3 {
        8
    } else if w == 4 {
        16
    } else if w == 5 {
        32
    } else if w == 6 {
        64
    } else if w == 7 {
        128
    } else {
        256
    }
}

/// A value below 2^`w` fits in a `w`-bit field.
pub proof fn lemma_fits_u8(w: u8, x: u8)
    requires
        1 <= w <= 8,
        (x as u64) < pow2_u8(w),
    ensures
        x <= (u8::MAX >> ((8 - w) as u8)),
{
    assert(x <= (u8::MAX >> ((8 - w) as u8))) by (bit_vector)
        requires
            1 <= w <= 8,
            (x as u64) < pow2_u8(w),
    ;
}

/// 2 to the power `w`, for field widths 1 to 16.
pub open spec fn pow2_u16(w: u16) -> u64 {
    if w == 1 {
        2
    } else if w == 2 {
        4
    } else if w == 3 {
        8
    } else if w == 4 {
        16
    } else if w == 5 {
        32
    } else if w == 6 {
        64
    } else if w == 7 {
        128
    } else if w == 8 {
        256
    } else if w == 9 {
        512
    } else if w == 10 {
        1024
    } else if w == 11 {
        2048
    } else if w == 12 {
        4096
    } else if w == 13 {
        8192
    } else if w == 14 {
        16384
    } else if w == 15 {
        32768
    } else {
        65536
    }
}

/// A value below 2^`w` fits in a `w`-bit field.
pub proof fn lemma_fits_u16(w: u16, x: u16)
    requires
        1 <= w <= 16,
        (x as u64) < pow2_u16(w),
    ensures
        x <= (u16::MAX >> ((16 - w) as u16)),
{
    assert(x <= (u16::MAX >> ((16 - w) as u16))) by (bit_vector)
        requires
            1 <= w <= 16,
            (x as u64) < pow2_u16(w),
    ;
}

/// 2 to the power `w`, for field widths 1 to 32.
pub open spec fn pow2_u32(w: u32) -> u64 {
    if w == 1 {
        2
    } else if w == 2 {
        4
    } else if w == 3 {
        8
    } else if w == 4 {
        16
    } else if w == 5 {
        32
    } else if w == 6 {
        64
    } else if w == 7 {
        128
    } else if w == 8 {
        256
    } else if w == 9 {
        512
    } else if w == 10 {
        1024
    } else if w == 11 {
        2048
    } else if w == 12 {
        4096
    } else if w == 13 {
        8192
    } else if w == 14 {
        16384
    } else if w == 15 {
        32768
    } else if w == 16 {
        65536
    } else if w == 17 {
        131072
    } else if w == 18 {
        262144
    } else if w == 19 {
        524288
    } else if w == 20 {
        1048576
    } else if w == 21 {
        2097152
    } else if w == 22 {
        4194304
    } else if w == 23 {
        8388608
    } else if w == 24 {
        16777216
    } else if w == 25 {
        33554432
    } else if w == 26 {
        67108864
    } else if w == 27 {
        134217728
    } else if w == 28 {
        268435456
    } else if w == 29 {
        536870912
    } else if w == 30 {
        1073741824
    } else if w == 31 {
        2147483648
    } else {
        4294967296
    }
}

/// A value below 2^`w` fits in a `w`-bit field.
pub proof fn lemma_fits_u32(w: u32, x: u32)
    requires
        1 <= w <= 32,
        (x as u64) < pow2_u32(w),
    ensures
        x <= (u32::MAX >> ((32 - w) as u32)),
{
    assert(x <= (u32::MAX >> ((32 - w) as u32))) by (bit_vector)
        requires
            1 <= w <= 32,
            (x as u64) < pow2_u32(w),
    ;
}

} // verus!
