//! Bit-level access to a bitmap stored as 64-bit words.

use vstd::prelude::*;

verus! {

/// Bit `b` of the word `w`.
pub open spec fn word_bit(w: u64, b: u64) -> bool {
    (w >> b) & 1u64 == 1u64
}

/// Bit `i` of a bitmap: bit `i % 64` of word `i / 64`.
pub open spec fn bitmap_bit(bm: Seq<u64>, i: int) -> bool {
    word_bit(bm[i / 64], (i % 64) as u64)
}

/// The bitmap as a sequence of bits, 64 per word.
pub open spec fn bits(bm: Seq<u64>) -> Seq<bool> {
    Seq::new(bm.len() * 64, |i: int| bitmap_bit(bm, i))
}

proof fn lemma_word_set(w: u64, b: u64, c: u64)
    requires
        b < 64,
        c < 64,
    ensures
        word_bit(w | (1u64 << b), c) == (c == b || word_bit(w, c)),
{
    assert(((w | (1u64 << b)) >> c) & 1u64 == 1u64 <==> (c == b || (w >> c) & 1u64 == 1u64))
        by (bit_vector)
        requires
            b < 64,
            c < 64,
    ;
}

proof fn lemma_word_clear(w: u64, b: u64, c: u64)
    requires
        b < 64,
        c < 64,
    ensures
        word_bit(w & !(1u64 << b), c) == (c != b && word_bit(w, c)),
{
    assert(((w & !(1u64 << b)) >> c) & 1u64 == 1u64 <==> (c != b && (w >> c) & 1u64 == 1u64))
        by (bit_vector)
        requires
            b < 64,
            c < 64,
    ;
}

/// Every bit of a word of all ones is set.
pub proof fn lemma_word_ones(c: u64)
    requires
        c < 64,
    ensures
        word_bit(!0u64, c),
{
    assert((!0u64 >> c) & 1u64 == 1u64) by (bit_vector)
        requires
            c < 64,
    ;
}

/// Whether bit `i` of the bitmap is set.
pub fn bit_test(bm: &Vec<u64>, i: u64) -> (r: bool)
    requires
        (i as int) < bm@.len() * 64,
    ensures
        r == bits(bm@)[i as int],
{
    let n = bm.len();
    assert(i / 64 < n as u64);
    let q = (i / 64) as usize;
    let w = bm[q];
    (w >> (i % 64)) & 1 == 1
}

/// Sets bit `i` of the bitmap and leaves every other bit as it was.
pub fn bit_set(bm: &mut Vec<u64>, i: u64)
    requires
        (i as int) < old(bm)@.len() * 64,
    ensures
        final(bm)@.len() == old(bm)@.len(),
        bits(final(bm)@) == bits(old(bm)@).update(i as int, true),
{
    let n = bm.len();
    assert(i / 64 < n as u64);
    let q = (i / 64) as usize;
    let b = i % 64;
    let w = bm[q];
    bm.set(q, w | (1u64 << b));
    proof {
        assert forall|j: int| 0 <= j < bm@.len() * 64 implies bitmap_bit(bm@, j) == (if j == i {
            true
        } else {
            bitmap_bit(old(bm)@, j)
        }) by {
            if j / 64 == q as int {
                lemma_word_set(w, b, (j % 64) as u64);
                assert((j % 64 == b as int) <==> (j == i as int));
            } else {
                assert(j != i as int);
            }
        }
        assert(bits(bm@) =~= bits(old(bm)@).update(i as int, true));
    }
}

/// Clears bit `i` of the bitmap and leaves every other bit as it was.
pub fn bit_reset(bm: &mut Vec<u64>, i: u64)
    requires
        (i as int) < old(bm)@.len() * 64,
    ensures
        final(bm)@.len() == old(bm)@.len(),
        bits(final(bm)@) == bits(old(bm)@).update(i as int, false),
{
    let n = bm.len();
    assert(i / 64 < n as u64);
    let q = (i / 64) as usize;
    let b = i % 64;
    let w = bm[q];
    bm.set(q, w & !(1u64 << b));
    proof {
        assert forall|j: int| 0 <= j < bm@.len() * 64 implies bitmap_bit(bm@, j) == (if j == i {
            false
        } else {
            bitmap_bit(old(bm)@, j)
        }) by {
            if j / 64 == q as int {
                lemma_word_clear(w, b, (j % 64) as u64);
                assert((j % 64 == b as int) <==> (j == i as int));
            } else {
                assert(j != i as int);
            }
        }
        assert(bits(bm@) =~= bits(old(bm)@).update(i as int, false));
    }
}

} // verus!
