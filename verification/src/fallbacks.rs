//! Scalar reconstruction kernels. They are architecture independent and are
//! the implementations that [`crate::unfilter_lines`] dispatches to.

use vstd::prelude::*;

use crate::model::{
    average_byte, average_top_byte, paeth_byte, recon_average_seq, recon_average_top_seq,
    recon_paeth_seq, recon_sub_seq, recon_up_seq, sub_byte, up_byte,
};

verus! {

/// `Recon(x) = Filt(x) + Recon(a)`
///
/// Reconstructs a Sub-filtered row in place. `a` is the already-reconstructed
/// byte one pixel group to the left, zero for the first group.
pub fn recon_sub<const BYTES_PER_PIXEL: usize>(filtered_row: &mut [u8])
    requires
        1 <= BYTES_PER_PIXEL <= 8,
        old(filtered_row)@.len() % (BYTES_PER_PIXEL as nat) == 0,
    ensures
        final(filtered_row)@ == recon_sub_seq(BYTES_PER_PIXEL as nat, old(filtered_row)@),
{
    let len = filtered_row.len();
    let mut i: usize = 0;
    while i < len
        invariant
            1 <= BYTES_PER_PIXEL <= 8,
            i <= len,
            len == filtered_row@.len(),
            filtered_row@.len() == old(filtered_row)@.len(),
            forall|j: int|
                0 <= j < i ==> filtered_row@[j] == sub_byte(
                    BYTES_PER_PIXEL as nat,
                    old(filtered_row)@,
                    j,
                ),
            forall|j: int| i <= j < len ==> filtered_row@[j] == old(filtered_row)@[j],
        decreases len - i,
    {
        if i >= BYTES_PER_PIXEL {
            let a = filtered_row[i - BYTES_PER_PIXEL];
            let x = filtered_row[i];
            filtered_row[i] = x.wrapping_add(a);
        }
        i += 1;
    }
    proof {
        assert(filtered_row@ =~= recon_sub_seq(BYTES_PER_PIXEL as nat, old(filtered_row)@));
    }
}

/// `Recon(x) = Filt(x) + Recon(b)`
///
/// Reconstructs an Up-filtered row in place. `b` is the byte directly above,
/// in the already-reconstructed previous row. There is no grouping by pixel
/// here, so no bytes-per-pixel parameter, and no "top" variant: a wrapping
/// add of zero has no effect.
pub fn recon_up(filtered_row: &mut [u8], previous_row: &[u8])
    requires
        old(filtered_row)@.len() == previous_row@.len(),
    ensures
        final(filtered_row)@ == recon_up_seq(old(filtered_row)@, previous_row@),
{
    let len = filtered_row.len();
    let mut i: usize = 0;
    while i < len
        invariant
            i <= len,
            len == filtered_row@.len(),
            filtered_row@.len() == old(filtered_row)@.len(),
            previous_row@.len() == len,
            forall|j: int|
                0 <= j < i ==> filtered_row@[j] == up_byte(old(filtered_row)@, previous_row@, j),
            forall|j: int| i <= j < len ==> filtered_row@[j] == old(filtered_row)@[j],
        decreases len - i,
    {
        let x = filtered_row[i];
        filtered_row[i] = x.wrapping_add(previous_row[i]);
        i += 1;
    }
    proof {
        assert(filtered_row@ =~= recon_up_seq(old(filtered_row)@, previous_row@));
    }
}

/// `Recon(x) = Filt(x) + floor((Recon(a) + Recon(b)) / 2)`
///
/// Reconstructs an Average-filtered row in place. The sum of the left and
/// above neighbors is widened to 16 bits before the floor division, so it
/// cannot overflow; only the final add wraps.
pub fn recon_average<const BYTES_PER_PIXEL: usize>(filtered_row: &mut [u8], previous_row: &[u8])
    requires
        1 <= BYTES_PER_PIXEL <= 8,
        old(filtered_row)@.len() % (BYTES_PER_PIXEL as nat) == 0,
        old(filtered_row)@.len() == previous_row@.len(),
    ensures
        final(filtered_row)@ == recon_average_seq(
            BYTES_PER_PIXEL as nat,
            old(filtered_row)@,
            previous_row@,
        ),
{
    let len = filtered_row.len();
    let mut i: usize = 0;
    while i < len
        invariant
            1 <= BYTES_PER_PIXEL <= 8,
            i <= len,
            len == filtered_row@.len(),
            filtered_row@.len() == old(filtered_row)@.len(),
            previous_row@.len() == len,
            forall|j: int|
                0 <= j < i ==> filtered_row@[j] == average_byte(
                    BYTES_PER_PIXEL as nat,
                    old(filtered_row)@,
                    previous_row@,
                    j,
                ),
            forall|j: int| i <= j < len ==> filtered_row@[j] == old(filtered_row)@[j],
        decreases len - i,
    {
        let a: u8 = if i >= BYTES_PER_PIXEL {
            filtered_row[i - BYTES_PER_PIXEL]
        } else {
            0
        };
        let b: u8 = previous_row[i];
        let average: u8 = ((a as i16 + b as i16) / 2) as u8;
        let x = filtered_row[i];
        filtered_row[i] = x.wrapping_add(average);
        i += 1;
    }
    proof {
        assert(filtered_row@ =~= recon_average_seq(
            BYTES_PER_PIXEL as nat,
            old(filtered_row)@,
            previous_row@,
        ));
    }
}

/// As [`recon_average`], but for the top row of a PNG, where the row above
/// is implicitly all zero: `Recon(x) = Filt(x) + floor(Recon(a) / 2)`.
pub fn recon_average_top<const BYTES_PER_PIXEL: usize>(filtered_row: &mut [u8])
    requires
        1 <= BYTES_PER_PIXEL <= 8,
        old(filtered_row)@.len() % (BYTES_PER_PIXEL as nat) == 0,
    ensures
        final(filtered_row)@ == recon_average_top_seq(
            BYTES_PER_PIXEL as nat,
            old(filtered_row)@,
        ),
{
    let len = filtered_row.len();
    let mut i: usize = 0;
    while i < len
        invariant
            1 <= BYTES_PER_PIXEL <= 8,
            i <= len,
            len == filtered_row@.len(),
            filtered_row@.len() == old(filtered_row)@.len(),
            forall|j: int|
                0 <= j < i ==> filtered_row@[j] == average_top_byte(
                    BYTES_PER_PIXEL as nat,
                    old(filtered_row)@,
                    j,
                ),
            forall|j: int| i <= j < len ==> filtered_row@[j] == old(filtered_row)@[j],
        decreases len - i,
    {
        let a: u8 = if i >= BYTES_PER_PIXEL {
            filtered_row[i - BYTES_PER_PIXEL]
        } else {
            0
        };
        let x = filtered_row[i];
        filtered_row[i] = x.wrapping_add(a / 2);
        i += 1;
    }
    proof {
        assert(filtered_row@ =~= recon_average_top_seq(
            BYTES_PER_PIXEL as nat,
            old(filtered_row)@,
        ));
    }
}

/// `Recon(x) = Filt(x) + PaethPredictor(Recon(a), Recon(b), Recon(c))`
///
/// Reconstructs a Paeth-filtered row in place. The predictor picks whichever
/// of the left, above, and above-left neighbors is closest to `a + b - c`
/// (computed in signed 16-bit arithmetic), breaking ties in the fixed order
/// `a`, then `b`, then `c`.
///
/// There is no "top" variant: with the row above all zero the predictor
/// always resolves to `a`, so a Paeth top row reduces to [`recon_sub`]; see
/// [`crate::model::lemma_paeth_on_top_row_is_sub`].
#[verifier::rlimit(50)]
pub fn recon_paeth<const BYTES_PER_PIXEL: usize>(filtered_row: &mut [u8], previous_row: &[u8])
    requires
        1 <= BYTES_PER_PIXEL <= 8,
        old(filtered_row)@.len() % (BYTES_PER_PIXEL as nat) == 0,
        old(filtered_row)@.len() == previous_row@.len(),
    ensures
        final(filtered_row)@ == recon_paeth_seq(
            BYTES_PER_PIXEL as nat,
            old(filtered_row)@,
            previous_row@,
        ),
{
    let len = filtered_row.len();
    let mut i: usize = 0;
    while i < len
        invariant
            1 <= BYTES_PER_PIXEL <= 8,
            i <= len,
            len == filtered_row@.len(),
            filtered_row@.len() == old(filtered_row)@.len(),
            previous_row@.len() == len,
            forall|j: int|
                0 <= j < i ==> filtered_row@[j] == paeth_byte(
                    BYTES_PER_PIXEL as nat,
                    old(filtered_row)@,
                    previous_row@,
                    j,
                ),
            forall|j: int| i <= j < len ==> filtered_row@[j] == old(filtered_row)@[j],
        decreases len - i,
    {
        let (a, c): (u8, u8) = if i >= BYTES_PER_PIXEL {
            (filtered_row[i - BYTES_PER_PIXEL], previous_row[i - BYTES_PER_PIXEL])
        } else {
            (0, 0)
        };
        let b: u8 = previous_row[i];
        let p: i16 = a as i16 + b as i16 - c as i16;
        let pa: i16 = if p >= a as i16 { p - a as i16 } else { a as i16 - p };
        let pb: i16 = if p >= b as i16 { p - b as i16 } else { b as i16 - p };
        let pc: i16 = if p >= c as i16 { p - c as i16 } else { c as i16 - p };
        let predictor: u8 = if pa <= pb && pa <= pc {
            a
        } else if pb <= pc {
            b
        } else {
            c
        };
        let x = filtered_row[i];
        filtered_row[i] = x.wrapping_add(predictor);
        i += 1;
    }
    proof {
        assert(filtered_row@ =~= recon_paeth_seq(
            BYTES_PER_PIXEL as nat,
            old(filtered_row)@,
            previous_row@,
        ));
    }
}

} // verus!
