//! Removal of [PNG filters][png-filters] from encoded scanlines, verified.
//!
//! [png-filters]: https://www.w3.org/TR/png/#9Filter-types
//!
//! A PNG stores each row of pixel data behind a one-byte filter-type tag;
//! the payload bytes are transformed relative to neighboring
//! already-reconstructed bytes. This crate reconstructs ("unfilters") the
//! original bytes in place. The per-filter kernels live in [`fallbacks`];
//! [`model`] holds the specification they are verified against.

use vstd::prelude::*;

pub mod fallbacks;
pub mod model;

use crate::model::{
    lemma_average_on_top_row_is_average_top, lemma_paeth_on_top_row_is_sub,
    lemma_up_on_top_row_is_noop, recon_average_seq, recon_paeth_seq, recon_sub_seq, recon_up_seq,
    zero_row,
};

verus! {

/// The sequence of row contents of a partitioned buffer.
pub open spec fn rows_view(lines: Seq<Vec<u8>>) -> Seq<Seq<u8>> {
    Seq::new(lines.len(), |i: int| lines[i]@)
}

/// The partition invariant that [`unfilter_lines`] relies on: every row has
/// the same length, one tag byte followed by a payload of whole pixel groups.
pub open spec fn wf_rows(bpp: nat, rows: Seq<Seq<u8>>) -> bool {
    &&& forall|i: int| 0 <= i < rows.len() ==> (#[trigger] rows[i].len()) == rows[0].len()
    &&& rows.len() > 0 ==> rows[0].len() >= 1 && (rows[0].len() - 1) % (bpp as int) == 0
}

/// One row's payload reconstructed against a given previous-row payload,
/// dispatching on the row's tag byte: 1 is Sub, 2 is Up, 3 is Average, 4 is
/// Paeth, and every other tag (0 or unrecognized) leaves the payload
/// unchanged.
pub open spec fn recon_payload(bpp: nat, tag: u8, filt: Seq<u8>, prev: Seq<u8>) -> Seq<u8> {
    if tag == 1 {
        recon_sub_seq(bpp, filt)
    } else if tag == 2 {
        recon_up_seq(filt, prev)
    } else if tag == 3 {
        recon_average_seq(bpp, filt, prev)
    } else if tag == 4 {
        recon_paeth_seq(bpp, filt, prev)
    } else {
        filt
    }
}

/// The payload of row `i` after reconstruction of rows `0..=i`. Each row is
/// reconstructed against the already-reconstructed payload of the row above
/// it; above the top row stands a conceptual all-zero row, so there Up is a
/// no-op, Average collapses to its top variant, and Paeth reduces to Sub
/// (see the top-row lemmas in [`crate::model`]).
pub open spec fn unfiltered_payload(bpp: nat, rows: Seq<Seq<u8>>, i: int) -> Seq<u8>
    decreases i,
{
    let prev = if i <= 0 {
        zero_row((rows[i].len() - 1) as nat)
    } else {
        unfiltered_payload(bpp, rows, i - 1)
    };
    recon_payload(bpp, rows[i][0], rows[i].skip(1), prev)
}

/// Row `i` of the buffer after a call to [`unfilter_lines`]: the tag byte
/// forced to zero, followed by the reconstructed payload.
pub open spec fn unfiltered_row(bpp: nat, rows: Seq<Seq<u8>>, i: int) -> Seq<u8> {
    seq![0u8] + unfiltered_payload(bpp, rows, i)
}

/// Reconstruction never changes a payload's length.
pub proof fn lemma_unfiltered_payload_len(bpp: nat, rows: Seq<Seq<u8>>, i: int)
    requires
        0 <= i < rows.len(),
        rows[i].len() >= 1,
    ensures
        unfiltered_payload(bpp, rows, i).len() == rows[i].len() - 1,
{
}

/// A tag byte of 0 or of an unrecognized value (outside 0 through 4) leaves
/// the row's payload bytes unchanged; only the tag byte itself is rewritten.
pub proof fn lemma_unrecognized_tag_is_noop(bpp: nat, rows: Seq<Seq<u8>>, i: int)
    requires
        0 <= i < rows.len(),
        rows[i][0] == 0 || rows[i][0] > 4,
    ensures
        unfiltered_payload(bpp, rows, i) == rows[i].skip(1),
{
}

/// Given the bytes for each filtered line, unfilters the data in place.
///
/// On each line, the first byte is the filter-type tag and the following
/// bytes are image data; the number of following bytes must evenly divide by
/// `BYTES_PER_PIXEL`. Rows are processed strictly top to bottom, each row
/// reconstructed against the already-reconstructed row above it, and every
/// row's tag byte is forced to 0 afterwards.
#[verifier::loop_isolation(false)]
pub fn unfilter_lines<const BYTES_PER_PIXEL: usize>(lines: &mut Vec<Vec<u8>>)
    requires
        1 <= BYTES_PER_PIXEL <= 8,
        wf_rows(BYTES_PER_PIXEL as nat, rows_view(old(lines)@)),
    ensures
        final(lines)@.len() == old(lines)@.len(),
        forall|i: int|
            0 <= i < old(lines)@.len() ==> (#[trigger] final(lines)@[i]@) == unfiltered_row(
                BYTES_PER_PIXEL as nat,
                rows_view(old(lines)@),
                i,
            ),
        forall|i: int| 0 <= i < final(lines)@.len() ==> (#[trigger] final(lines)@[i]@)[0] == 0,
        forall|i: int|
            0 <= i < old(lines)@.len() && (old(lines)@[i]@[0] == 0 || old(lines)@[i]@[0] > 4)
                ==> (#[trigger] final(lines)@[i]@).skip(1) == old(lines)@[i]@.skip(1),
{
    let ghost rows = rows_view(old(lines)@);
    let n = lines.len();
    let mut prev: Vec<u8> = Vec::new();
    let mut i: usize = 0;
    while i < n
        invariant
            i <= n,
            lines@.len() == n,
            forall|j: int| i <= j < n ==> (#[trigger] lines@[j]@) == rows[j],
            forall|j: int|
                0 <= j < i ==> (#[trigger] lines@[j]@) == unfiltered_row(
                    BYTES_PER_PIXEL as nat,
                    rows,
                    j,
                ),
            i >= 1 ==> prev@ == unfiltered_payload(BYTES_PER_PIXEL as nat, rows, i - 1),
        decreases n - i,
    {
        proof {
            assert(rows[i as int].len() == rows[0].len());
            if i >= 1 {
                assert(rows[i - 1].len() == rows[0].len());
                lemma_unfiltered_payload_len(BYTES_PER_PIXEL as nat, rows, i - 1);
            }
        }
        let row: &mut Vec<u8> = &mut lines[i];
        let tag: u8 = row[0];
        let row_slice: &mut [u8] = row.as_mut_slice();
        let (tag_slice, payload) = row_slice.split_at_mut(1);
        proof {
            assert(payload@ =~= rows[i as int].skip(1));
        }
        if i == 0 {
            if tag == 1 {
                fallbacks::recon_sub::<BYTES_PER_PIXEL>(payload);
            } else if tag == 3 {
                fallbacks::recon_average_top::<BYTES_PER_PIXEL>(payload);
            } else if tag == 4 {
                fallbacks::recon_sub::<BYTES_PER_PIXEL>(payload);
            }
        } else {
            if tag == 1 {
                fallbacks::recon_sub::<BYTES_PER_PIXEL>(payload);
            } else if tag == 2 {
                fallbacks::recon_up(payload, prev.as_slice());
            } else if tag == 3 {
                fallbacks::recon_average::<BYTES_PER_PIXEL>(payload, prev.as_slice());
            } else if tag == 4 {
                fallbacks::recon_paeth::<BYTES_PER_PIXEL>(payload, prev.as_slice());
            }
        }
        tag_slice[0] = 0;
        let next_prev: Vec<u8> = vstd::slice::slice_to_vec(payload);
        proof {
            if i == 0 {
                let filt = rows[0].skip(1);
                assert(zero_row((rows[0].len() - 1) as nat) =~= zero_row(filt.len()));
                if tag == 2 {
                    lemma_up_on_top_row_is_noop(filt);
                } else if tag == 3 {
                    lemma_average_on_top_row_is_average_top(BYTES_PER_PIXEL as nat, filt);
                } else if tag == 4 {
                    lemma_paeth_on_top_row_is_sub(BYTES_PER_PIXEL as nat, filt);
                }
            }
            assert(next_prev@ == unfiltered_payload(BYTES_PER_PIXEL as nat, rows, i as int));
            assert(final(tag_slice)@ =~= seq![0u8]);
        }
        prev = next_prev;
        i += 1;
    }
    proof {
        assert forall|j: int| 0 <= j < n implies (#[trigger] lines@[j]@)[0] == 0 by {
            assert(lines@[j]@ == unfiltered_row(BYTES_PER_PIXEL as nat, rows, j));
        }
        assert forall|j: int|
            0 <= j < n && (rows[j][0] == 0 || rows[j][0] > 4) implies (#[trigger] lines@[j]@).skip(
                1,
            ) == rows[j].skip(1) by {
            lemma_unrecognized_tag_is_noop(BYTES_PER_PIXEL as nat, rows, j);
            assert(lines@[j]@ == unfiltered_row(BYTES_PER_PIXEL as nat, rows, j));
            assert(lines@[j]@.skip(1) =~= unfiltered_payload(BYTES_PER_PIXEL as nat, rows, j));
        }
    }
}

} // verus!
