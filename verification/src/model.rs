//! The mathematical model of PNG filter-method-0 reconstruction.
//!
//! Each spec function here gives the exact value of one reconstructed byte
//! (or one whole reconstructed row) as a function of the filtered bytes and
//! the already-reconstructed previous row. The executable kernels in
//! [`crate::fallbacks`] are proved to compute these functions byte for byte.

use vstd::prelude::*;

verus! {

/// Wrapping 8-bit addition: the modulo-256 sum that every filter type uses
/// for its final "add the predictor" step.
pub open spec fn byte_add(x: u8, y: u8) -> u8 {
    ((x + y) % 256) as u8
}

/// Floor of the average of two bytes, computed without 8-bit overflow.
pub open spec fn avg_floor(a: u8, b: u8) -> u8 {
    ((a + b) / 2) as u8
}

/// The Paeth predictor: whichever of `a` (left), `b` (above), `c` (above
/// left) is closest to `a + b - c`, with ties broken in the fixed order
/// `a`, then `b`, then `c`, using `<=` comparisons.
pub open spec fn paeth_predictor(a: u8, b: u8, c: u8) -> u8 {
    let p = a + b - c;
    let pa = vstd::math::abs(p - a);
    let pb = vstd::math::abs(p - b);
    let pc = vstd::math::abs(p - c);
    if pa <= pb && pa <= pc {
        a
    } else if pb <= pc {
        b
    } else {
        c
    }
}

/// Byte `i` of a Sub-filtered row after reconstruction:
/// `Recon(x) = Filt(x) + Recon(a)`, where `a` is the byte one pixel group
/// (`bpp` bytes) to the left, taken as zero for the first group.
pub open spec fn sub_byte(bpp: nat, filt: Seq<u8>, i: int) -> u8
    decreases i when bpp >= 1
{
    if i < bpp {
        filt[i]
    } else {
        byte_add(filt[i], sub_byte(bpp, filt, i - bpp))
    }
}

/// Byte `i` of an Up-filtered row after reconstruction:
/// `Recon(x) = Filt(x) + Recon(b)`, where `b` is the byte directly above.
pub open spec fn up_byte(filt: Seq<u8>, prev: Seq<u8>, i: int) -> u8 {
    byte_add(filt[i], prev[i])
}

/// Byte `i` of an Average-filtered row after reconstruction:
/// `Recon(x) = Filt(x) + floor((Recon(a) + Recon(b)) / 2)`.
pub open spec fn average_byte(bpp: nat, filt: Seq<u8>, prev: Seq<u8>, i: int) -> u8
    decreases i when bpp >= 1
{
    let a = if i < bpp { 0u8 } else { average_byte(bpp, filt, prev, i - bpp) };
    byte_add(filt[i], avg_floor(a, prev[i]))
}

/// Byte `i` of an Average-filtered top row after reconstruction: the row
/// above is implicitly all zero, so the formula collapses to
/// `Recon(x) = Filt(x) + floor(Recon(a) / 2)`.
pub open spec fn average_top_byte(bpp: nat, filt: Seq<u8>, i: int) -> u8
    decreases i when bpp >= 1
{
    let a = if i < bpp { 0u8 } else { average_top_byte(bpp, filt, i - bpp) };
    byte_add(filt[i], avg_floor(a, 0))
}

/// Byte `i` of a Paeth-filtered row after reconstruction:
/// `Recon(x) = Filt(x) + PaethPredictor(Recon(a), Recon(b), Recon(c))`,
/// where `a` and `c` are zero within the first pixel group.
pub open spec fn paeth_byte(bpp: nat, filt: Seq<u8>, prev: Seq<u8>, i: int) -> u8
    decreases i when bpp >= 1
{
    let a = if i < bpp { 0u8 } else { paeth_byte(bpp, filt, prev, i - bpp) };
    let c = if i < bpp { 0u8 } else { prev[i - bpp] };
    byte_add(filt[i], paeth_predictor(a, prev[i], c))
}

/// A whole Sub-filtered row after reconstruction.
pub open spec fn recon_sub_seq(bpp: nat, filt: Seq<u8>) -> Seq<u8> {
    Seq::new(filt.len(), |i: int| sub_byte(bpp, filt, i))
}

/// A whole Up-filtered row after reconstruction.
pub open spec fn recon_up_seq(filt: Seq<u8>, prev: Seq<u8>) -> Seq<u8> {
    Seq::new(filt.len(), |i: int| up_byte(filt, prev, i))
}

/// A whole Average-filtered row after reconstruction.
pub open spec fn recon_average_seq(bpp: nat, filt: Seq<u8>, prev: Seq<u8>) -> Seq<u8> {
    Seq::new(filt.len(), |i: int| average_byte(bpp, filt, prev, i))
}

/// A whole Average-filtered top row after reconstruction.
pub open spec fn recon_average_top_seq(bpp: nat, filt: Seq<u8>) -> Seq<u8> {
    Seq::new(filt.len(), |i: int| average_top_byte(bpp, filt, i))
}

/// A whole Paeth-filtered row after reconstruction.
pub open spec fn recon_paeth_seq(bpp: nat, filt: Seq<u8>, prev: Seq<u8>) -> Seq<u8> {
    Seq::new(filt.len(), |i: int| paeth_byte(bpp, filt, prev, i))
}

/// An all-zero row of `n` bytes, standing for the row conceptually above
/// the top row of an image.
pub open spec fn zero_row(n: nat) -> Seq<u8> {
    Seq::new(n, |i: int| 0u8)
}

/// Adding the all-zero row above the top of an image is a no-op: Up on the
/// top row leaves every byte unchanged.
pub proof fn lemma_up_on_top_row_is_noop(filt: Seq<u8>)
    ensures
        recon_up_seq(filt, zero_row(filt.len())) == filt,
{
    assert(recon_up_seq(filt, zero_row(filt.len())) =~= filt);
}

/// With the all-zero row above the top of an image, Average collapses to its
/// top-row form `Recon(x) = Filt(x) + floor(Recon(a) / 2)`.
pub proof fn lemma_average_on_top_row_is_average_top(bpp: nat, filt: Seq<u8>)
    requires
        1 <= bpp,
    ensures
        recon_average_seq(bpp, filt, zero_row(filt.len())) == recon_average_top_seq(bpp, filt),
{
    let average = recon_average_seq(bpp, filt, zero_row(filt.len()));
    let top = recon_average_top_seq(bpp, filt);
    assert forall|i: int| 0 <= i < filt.len() implies average[i] == top[i] by {
        lemma_average_byte_zero_above(bpp, filt, i);
    }
    assert(average =~= top);
}

/// One byte of the Average top-row collapse.
proof fn lemma_average_byte_zero_above(bpp: nat, filt: Seq<u8>, i: int)
    requires
        1 <= bpp,
        0 <= i < filt.len(),
    ensures
        average_byte(bpp, filt, zero_row(filt.len()), i) == average_top_byte(bpp, filt, i),
    decreases i,
{
    if i >= bpp {
        lemma_average_byte_zero_above(bpp, filt, i - bpp);
    }
}

/// With both upper neighbors zero, the Paeth predictor always picks the left
/// neighbor: `p = a + 0 - 0 = a`, so `pa = 0` is minimal and the `a`-first
/// tie-break resolves to `a`.
pub proof fn lemma_paeth_predictor_zero_above(a: u8)
    ensures
        paeth_predictor(a, 0, 0) == a,
{
}

/// One byte of the top-row reduction: on a row whose previous row is all
/// zero, Paeth reconstruction computes exactly what Sub reconstruction does.
proof fn lemma_paeth_byte_zero_above(bpp: nat, filt: Seq<u8>, i: int)
    requires
        1 <= bpp,
        0 <= i < filt.len(),
    ensures
        paeth_byte(bpp, filt, zero_row(filt.len()), i) == sub_byte(bpp, filt, i),
    decreases i,
{
    let prev = zero_row(filt.len());
    if i < bpp {
        assert(paeth_predictor(0, 0, 0) == 0);
        assert(byte_add(filt[i], 0) == filt[i]);
    } else {
        lemma_paeth_byte_zero_above(bpp, filt, i - bpp);
        lemma_paeth_predictor_zero_above(paeth_byte(bpp, filt, prev, i - bpp));
    }
}

/// Applying Paeth to the top row of an image (previous row conceptually all
/// zero) yields the same bytes as applying Sub to that row, for every
/// bytes-per-pixel value and every payload.
pub proof fn lemma_paeth_on_top_row_is_sub(bpp: nat, filt: Seq<u8>)
    requires
        1 <= bpp,
    ensures
        recon_paeth_seq(bpp, filt, zero_row(filt.len())) == recon_sub_seq(bpp, filt),
{
    let paeth = recon_paeth_seq(bpp, filt, zero_row(filt.len()));
    let sub = recon_sub_seq(bpp, filt);
    assert forall|i: int| 0 <= i < filt.len() implies paeth[i] == sub[i] by {
        lemma_paeth_byte_zero_above(bpp, filt, i);
    }
    assert(paeth =~= sub);
}

} // verus!
