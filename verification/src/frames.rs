//! Layout of sampled video frames in a composite preview: the tile grid
//! for a frame count, and the balanced distribution of frames over tiles.
use vstd::prelude::*;

use std::collections::VecDeque;

verus! {

/// The tile grid (columns, rows) that a composite preview uses for the
/// given number of sampled frames.
pub fn get_cols_and_rows(nframes: usize) -> (r: (usize, usize))
    ensures
        nframes >= 100 ==> r == (10usize, 10usize),
        64 <= nframes < 100 ==> r == (8usize, 8usize),
        49 <= nframes < 64 ==> r == (7usize, 7usize),
        36 <= nframes < 49 ==> r == (6usize, 6usize),
        25 <= nframes < 36 ==> r == (5usize, 5usize),
        16 <= nframes < 25 ==> r == (4usize, 4usize),
        9 <= nframes < 16 ==> r == (3usize, 3usize),
        4 <= nframes < 9 ==> r == (2usize, 2usize),
        nframes < 4 ==> r == (3usize, 1usize),
{
    if nframes >= 100 {
        (10, 10)
    } else if nframes >= 64 {
        (8, 8)
    } else if nframes >= 49 {
        (7, 7)
    } else if nframes >= 36 {
        (6, 6)
    } else if nframes >= 25 {
        (5, 5)
    } else if nframes >= 16 {
        (4, 4)
    } else if nframes >= 9 {
        (3, 3)
    } else if nframes >= 4 {
        (2, 2)
    } else {
        (3, 1)
    }
}

/// Spreads `nframes` over `nparts` parts as evenly as possible: every part
/// gets the integer share, and the remainder is handed out one frame each
/// to the leading parts. Zero parts is rejected.
pub fn distribute_frames(nframes: usize, nparts: usize) -> (r: Option<VecDeque<usize>>)
    ensures
        r is Some <==> nparts > 0,
        r matches Some(d) ==> d@.len() == nparts && forall|i: int|
            0 <= i < nparts ==> d@[i] == nframes / nparts + (if i < nframes % nparts {
                1int
            } else {
                0int
            }),
{
    if nparts == 0 {
        return None;
    }
    let base = nframes / nparts;
    let remainder = nframes % nparts;
    let mut distribution: VecDeque<usize> = VecDeque::new();
    let mut i: usize = 0;
    while i < nparts
        invariant
            nparts > 0,
            base == nframes / nparts,
            remainder == nframes % nparts,
            remainder < nparts,
            i <= nparts,
            distribution@.len() == i,
            forall|j: int|
                0 <= j < i ==> distribution@[j] == base + (if j < remainder {
                    1int
                } else {
                    0int
                }),
        decreases nparts - i,
    {
        if i < remainder {
            proof {
                vstd::arithmetic::div_mod::lemma_fundamental_div_mod(
                    nframes as int,
                    nparts as int,
                );
                assert(nparts * base + remainder == nframes);
                assert(base <= nparts * base) by (nonlinear_arith)
                    requires
                        nparts >= 1 && base >= 0,
                ;
            }
            distribution.push_back(base + 1);
        } else {
            distribution.push_back(base);
        }
        i = i + 1;
    }
    Some(distribution)
}

} // verus!
