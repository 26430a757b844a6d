//! The fixed table of two-subset pixel partitions tried by the BC7 encoder.
//!
//! Each entry assigns every one of the 16 pixel positions (raster order
//! inside the 4x4 tile) to subset 0 or subset 1.  Both subsets of every
//! entry are non-empty, so each always has samples to fit endpoints through.

use vstd::prelude::*;

verus! {

/// Number of partitions in the table.
pub const PARTITION_COUNT: usize = 8;

/// Subset assignment of table entry `p`, one value in {0, 1} per pixel.
pub open spec fn spec_pattern(p: int) -> Seq<u8> {
    if p == 0 {
        seq![0u8, 1, 0, 1, 1, 0, 1, 0, 0, 1, 0, 1, 1, 0, 1, 0]
    } else if p == 1 {
        seq![0u8, 0, 1, 1, 0, 0, 1, 1, 0, 0, 1, 1, 0, 0, 1, 1]
    } else if p == 2 {
        seq![0u8, 0, 0, 0, 0, 0, 0, 0, 1, 1, 1, 1, 1, 1, 1, 1]
    } else if p == 3 {
        seq![0u8, 0, 0, 0, 1, 0, 0, 0, 1, 1, 0, 0, 1, 1, 1, 0]
    } else if p == 4 {
        seq![0u8, 0, 0, 1, 0, 0, 1, 1, 0, 1, 1, 1, 1, 1, 1, 1]
    } else if p == 5 {
        seq![0u8, 1, 0, 1, 0, 1, 0, 1, 0, 1, 0, 1, 0, 1, 0, 1]
    } else if p == 6 {
        seq![0u8, 0, 0, 0, 1, 1, 1, 1, 0, 0, 0, 0, 1, 1, 1, 1]
    } else {
        seq![0u8, 0, 1, 1, 0, 0, 1, 1, 1, 1, 1, 1, 1, 1, 1, 1]
    }
}

/// Looks a table entry up: the checkerboard, vertical and horizontal half
/// splits, two diagonal wedges, column and row stripes, and a corner block.
pub fn partition_pattern(p: usize) -> (r: [u8; 16])
    requires
        p < PARTITION_COUNT,
    ensures
        r@ == spec_pattern(p as int),
        forall|i: int| 0 <= i < 16 ==> r@[i] < 2,
        exists|i: int| 0 <= i < 16 && r@[i] == 0,
        exists|i: int| 0 <= i < 16 && r@[i] == 1,
{
    let r: [u8; 16] = match p {
        0 => [0, 1, 0, 1, 1, 0, 1, 0, 0, 1, 0, 1, 1, 0, 1, 0],
        1 => [0, 0, 1, 1, 0, 0, 1, 1, 0, 0, 1, 1, 0, 0, 1, 1],
        2 => [0, 0, 0, 0, 0, 0, 0, 0, 1, 1, 1, 1, 1, 1, 1, 1],
        3 => [0, 0, 0, 0, 1, 0, 0, 0, 1, 1, 0, 0, 1, 1, 1, 0],
        4 => [0, 0, 0, 1, 0, 0, 1, 1, 0, 1, 1, 1, 1, 1, 1, 1],
        5 => [0, 1, 0, 1, 0, 1, 0, 1, 0, 1, 0, 1, 0, 1, 0, 1],
        6 => [0, 0, 0, 0, 1, 1, 1, 1, 0, 0, 0, 0, 1, 1, 1, 1],
        _ => [0, 0, 1, 1, 0, 0, 1, 1, 1, 1, 1, 1, 1, 1, 1, 1],
    };
    proof {
        assert(r@ =~= spec_pattern(p as int));
        assert(r@[0] == 0);
        assert(spec_pattern(p as int)[0] == 0);
        if p == 2 {
            assert(r@[8] == 1);
        } else if p == 3 || p == 6 {
            assert(r@[4] == 1);
        } else if p == 4 {
            assert(r@[3] == 1);
        } else {
            assert(r@[2] == 1 || r@[1] == 1);
        }
    }
    r
}

} // verus!
