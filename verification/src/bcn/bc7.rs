//! Restricted BC7 encoding, mode 3 only: every 4x4 RGB tile is split in two
//! pixel subsets by the best entry of a fixed partition table, each subset
//! gets its own fitted endpoint pair and 4-color palette, and the result is
//! packed into a 128-bit block.

use crate::bcn::bc4::EncodeError;
use crate::bcn::bc7::partitions::{partition_pattern, spec_pattern, PARTITION_COUNT};
use crate::bcn::util::{
    absdiff, channel_seq, generate_palette3d_rgb, lemma_pol_endpoints, lemma_pol_in_range, pol,
    spec_endpoints, spec_pol,
};
use vstd::prelude::*;

pub mod partitions;

verus! {

/// An 8-bit RGB color sample.
#[derive(Debug, Clone, Copy, PartialEq, Eq, Structural)]
pub struct Rgb {
    pub r: u8,
    pub g: u8,
    pub b: u8,
}

/// The color of pixel `px` in a 48-byte interleaved RGB tile.
pub open spec fn spec_px(block: Seq<u8>, px: int) -> Rgb {
    Rgb { r: block[3 * px], g: block[3 * px + 1], b: block[3 * px + 2] }
}

/// Squared Euclidean distance between two colors.  Comparisons of squared
/// distances order colors exactly as true Euclidean distance does, ties
/// included, so the mapper below is a Euclidean nearest-neighbour search.
pub open spec fn spec_dist2(x: Rgb, y: Rgb) -> int {
    (x.r - y.r) * (x.r - y.r) + (x.g - y.g) * (x.g - y.g) + (x.b - y.b) * (x.b - y.b)
}

pub proof fn lemma_dist2_bound(x: Rgb, y: Rgb)
    ensures
        0 <= spec_dist2(x, y) <= 195075,
{
    assert(0 <= (x.r - y.r) * (x.r - y.r) <= 65025 && 0 <= (x.g - y.g) * (x.g - y.g) <= 65025 && 0
        <= (x.b - y.b) * (x.b - y.b) <= 65025) by (nonlinear_arith)
        requires
            x.r <= 255 && y.r <= 255 && x.g <= 255 && y.g <= 255 && x.b <= 255 && y.b <= 255,
    ;
}

/// Squared distance between two colors, the block mapper's metric.
pub fn cmp_color(x: Rgb, y: Rgb) -> (r: u32)
    ensures
        r == spec_dist2(x, y),
{
    let dr = absdiff(x.r, y.r) as u32;
    let dg = absdiff(x.g, y.g) as u32;
    let db = absdiff(x.b, y.b) as u32;
    proof {
        assert(dr * dr == (x.r - y.r) * (x.r - y.r) && dr * dr <= 65025) by (nonlinear_arith)
            requires
                dr == x.r - y.r || dr == y.r - x.r,
                dr <= 255,
        ;
        assert(dg * dg == (x.g - y.g) * (x.g - y.g) && dg * dg <= 65025) by (nonlinear_arith)
            requires
                dg == x.g - y.g || dg == y.g - x.g,
                dg <= 255,
        ;
        assert(db * db == (x.b - y.b) * (x.b - y.b) && db * db <= 65025) by (nonlinear_arith)
            requires
                db == x.b - y.b || db == y.b - x.b,
                db <= 255,
        ;
    }
    dr * dr + dg * dg + db * db
}

/// Interpolation step of palette slot `i`: the palette stores endpoint `a`,
/// endpoint `b`, then the two interior thirds in order.
pub open spec fn spec_entry_step(i: int) -> u8 {
    if i == 0 {
        0
    } else if i == 1 {
        3
    } else if i == 2 {
        1
    } else {
        2
    }
}

/// Entry `i` of the 4-color palette spanned by an endpoint pair, each
/// channel interpolated in fixed point over thirds.
pub open spec fn spec_entry(a: Rgb, b: Rgb, i: int) -> Rgb {
    Rgb {
        r: spec_pol(a.r, b.r, spec_entry_step(i), 3) as u8,
        g: spec_pol(a.g, b.g, spec_entry_step(i), 3) as u8,
        b: spec_pol(a.b, b.b, spec_entry_step(i), 3) as u8,
    }
}

/// Expands an endpoint pair into the 4-color palette.  Entries 0 and 1 are
/// exactly the endpoints; entries 2 and 3 interpolate at one and two thirds.
pub fn palette(a: Rgb, b: Rgb) -> (r: [Rgb; 4])
    ensures
        forall|i: int| 0 <= i < 4 ==> r@[i] == spec_entry(a, b, i),
{
    proof {
        lemma_pol_endpoints(a.r, b.r, 3);
        lemma_pol_endpoints(a.g, b.g, 3);
        lemma_pol_endpoints(a.b, b.b, 3);
        lemma_pol_in_range(a.r, b.r, 1, 3);
        lemma_pol_in_range(a.g, b.g, 1, 3);
        lemma_pol_in_range(a.b, b.b, 1, 3);
        lemma_pol_in_range(a.r, b.r, 2, 3);
        lemma_pol_in_range(a.g, b.g, 2, 3);
        lemma_pol_in_range(a.b, b.b, 2, 3);
    }
    let e2 = Rgb { r: pol(a.r, b.r, 1, 3), g: pol(a.g, b.g, 1, 3), b: pol(a.b, b.b, 1, 3) };
    let e3 = Rgb { r: pol(a.r, b.r, 2, 3), g: pol(a.g, b.g, 2, 3), b: pol(a.b, b.b, 2, 3) };
    let r = [a, b, e2, e3];
    assert(r@[0] == spec_entry(a, b, 0));
    assert(r@[1] == spec_entry(a, b, 1));
    r
}

/// Entries 0 and 1 of the 4-color palette are exactly the endpoints.
pub proof fn lemma_palette_endpoints_rgb(a: Rgb, b: Rgb)
    ensures
        spec_entry(a, b, 0) == a,
        spec_entry(a, b, 1) == b,
{
    lemma_pol_endpoints(a.r, b.r, 3);
    lemma_pol_endpoints(a.g, b.g, 3);
    lemma_pol_endpoints(a.b, b.b, 3);
}

/// Index of the first palette entry of minimum squared distance to `col`
/// among the first `k` entries; ties keep the lower index.
pub open spec fn best_color_idx(a: Rgb, b: Rgb, col: Rgb, k: int) -> int
    decreases k,
{
    if k <= 1 {
        0
    } else {
        let prev = best_color_idx(a, b, col, k - 1);
        if spec_dist2(spec_entry(a, b, k - 1), col) < spec_dist2(spec_entry(a, b, prev), col) {
            k - 1
        } else {
            prev
        }
    }
}

/// The color mapper is a true nearest-neighbour search: no palette entry
/// lies strictly closer to the sample than the chosen one.
pub proof fn lemma_index_nearest(a: Rgb, b: Rgb, col: Rgb, k: int, j: int)
    requires
        1 <= k,
        0 <= j < k,
    ensures
        spec_dist2(spec_entry(a, b, best_color_idx(a, b, col, k)), col) <= spec_dist2(
            spec_entry(a, b, j),
            col,
        ),
    decreases k,
{
    if k > 1 && j < k - 1 {
        lemma_index_nearest(a, b, col, k - 1, j);
    }
}

/// Maps one color to the first nearest entry of the palette spanned by the
/// endpoint pair.
pub fn index(col: Rgb, a: Rgb, b: Rgb) -> (r: u8)
    ensures
        r == best_color_idx(a, b, col, 4),
        r < 4,
{
    let pal = palette(a, b);
    let mut best: usize = 0;
    for i in 1..4usize
        invariant
            forall|j: int| 0 <= j < 4 ==> pal@[j] == spec_entry(a, b, j),
            best == best_color_idx(a, b, col, i as int),
            best < i,
    {
        if cmp_color(pal[i], col) < cmp_color(pal[best], col) {
            best = i;
        }
    }
    best as u8
}

/// The interleaved RGB bytes of the pixels that partition `p` assigns to
/// subset `s`, among the first `k` pixels, in pixel order.
pub open spec fn subset_bytes(block: Seq<u8>, p: int, s: int, k: int) -> Seq<u8>
    decreases k,
{
    if k <= 0 {
        Seq::empty()
    } else {
        subset_bytes(block, p, s, k - 1) + if spec_pattern(p)[k - 1] == s {
            seq![block[3 * (k - 1)], block[3 * (k - 1) + 1], block[3 * (k - 1) + 2]]
        } else {
            Seq::empty()
        }
    }
}

pub proof fn lemma_subset_bytes_mod3(block: Seq<u8>, p: int, s: int, k: int)
    requires
        k >= 0,
    ensures
        subset_bytes(block, p, s, k).len() % 3 == 0,
    decreases k,
{
    if k > 0 {
        lemma_subset_bytes_mod3(block, p, s, k - 1);
    }
}

pub proof fn lemma_subset_bytes_nonempty(block: Seq<u8>, p: int, s: int, k: int, i: int)
    requires
        0 <= i < k,
        spec_pattern(p)[i] == s,
    ensures
        subset_bytes(block, p, s, k).len() >= 3,
    decreases k,
{
    if i < k - 1 {
        lemma_subset_bytes_nonempty(block, p, s, k - 1, i);
    }
}

/// The endpoint pair fitted through one subset of one partition: each
/// channel of the subset's samples regressed independently, low ends first.
pub open spec fn spec_subset_ep(block: Seq<u8>, p: int, s: int) -> (Rgb, Rgb) {
    let bytes = subset_bytes(block, p, s, 16);
    (
        Rgb {
            r: spec_endpoints(channel_seq(bytes, 0)).0,
            g: spec_endpoints(channel_seq(bytes, 1)).0,
            b: spec_endpoints(channel_seq(bytes, 2)).0,
        },
        Rgb {
            r: spec_endpoints(channel_seq(bytes, 0)).1,
            g: spec_endpoints(channel_seq(bytes, 1)).1,
            b: spec_endpoints(channel_seq(bytes, 2)).1,
        },
    )
}

fn subset_endpoints(block: &[u8], pat: &[u8; 16], p: usize, s: u8) -> (r: (Rgb, Rgb))
    requires
        block@.len() == 48,
        p < PARTITION_COUNT,
        pat@ == spec_pattern(p as int),
        exists|i: int| 0 <= i < 16 && spec_pattern(p as int)[i] == s,
    ensures
        r == spec_subset_ep(block@, p as int, s as int),
{
    let mut buf: Vec<u8> = Vec::new();
    for px in 0..16usize
        invariant
            block@.len() == 48,
            pat@ == spec_pattern(p as int),
            buf@ == subset_bytes(block@, p as int, s as int, px as int),
    {
        if pat[px] == s {
            buf.push(block[3 * px]);
            buf.push(block[3 * px + 1]);
            buf.push(block[3 * px + 2]);
            assert(buf@ =~= subset_bytes(block@, p as int, s as int, px + 1));
        } else {
            assert(buf@ =~= subset_bytes(block@, p as int, s as int, px + 1));
        }
    }
    proof {
        let i = choose|i: int| 0 <= i < 16 && spec_pattern(p as int)[i] == s;
        lemma_subset_bytes_nonempty(block@, p as int, s as int, 16, i);
        lemma_subset_bytes_mod3(block@, p as int, s as int, 16);
    }
    let (lo, hi) = generate_palette3d_rgb(buf.as_slice());
    (Rgb { r: lo[0], g: lo[1], b: lo[2] }, Rgb { r: hi[0], g: hi[1], b: hi[2] })
}

/// Fits both subsets' endpoint pairs for one partition table entry.
pub fn gen_partition_palette(block: &[u8], p: usize) -> (r: ((Rgb, Rgb), (Rgb, Rgb)))
    requires
        block@.len() == 48,
        p < PARTITION_COUNT,
    ensures
        r.0 == spec_subset_ep(block@, p as int, 0),
        r.1 == spec_subset_ep(block@, p as int, 1),
{
    let pat = partition_pattern(p);
    let ep0 = subset_endpoints(block, &pat, p, 0);
    let ep1 = subset_endpoints(block, &pat, p, 1);
    (ep0, ep1)
}

/// The endpoint pair pixel `px` is quantized against under partition `p`:
/// its own subset's pair.
pub open spec fn spec_px_ep(block: Seq<u8>, p: int, px: int) -> (Rgb, Rgb) {
    if spec_pattern(p)[px] == 0 {
        spec_subset_ep(block, p, 0)
    } else {
        spec_subset_ep(block, p, 1)
    }
}

/// The palette index chosen for pixel `px` under partition `p`.
pub open spec fn spec_px_index(block: Seq<u8>, p: int, px: int) -> int {
    let ep = spec_px_ep(block, p, px);
    best_color_idx(ep.0, ep.1, spec_px(block, px), 4)
}

/// Pixel `px`'s squared distance to its chosen palette entry under
/// partition `p`.
pub open spec fn spec_px_err(block: Seq<u8>, p: int, px: int) -> int {
    let ep = spec_px_ep(block, p, px);
    spec_dist2(spec_entry(ep.0, ep.1, spec_px_index(block, p, px)), spec_px(block, px))
}

/// Summed error of the first `k` pixels under partition `p`.
pub open spec fn part_err_upto(block: Seq<u8>, p: int, k: int) -> int
    decreases k,
{
    if k <= 0 {
        0
    } else {
        part_err_upto(block, p, k - 1) + spec_px_err(block, p, k - 1)
    }
}

/// Total reported error of a partition: the summed squared distance of all
/// 16 pixels to their chosen palette entries.
pub open spec fn spec_partition_error(block: Seq<u8>, p: int) -> int {
    part_err_upto(block, p, 16)
}

pub proof fn lemma_part_err_bounds(block: Seq<u8>, p: int, k: int)
    requires
        0 <= k <= 16,
    ensures
        0 <= part_err_upto(block, p, k) <= 195075 * k,
    decreases k,
{
    if k > 0 {
        lemma_part_err_bounds(block, p, k - 1);
        let ep = spec_px_ep(block, p, k - 1);
        lemma_dist2_bound(spec_entry(ep.0, ep.1, spec_px_index(block, p, k - 1)), spec_px(block, k - 1));
    }
}

/// Maps every pixel of the tile to its subset's nearest palette entry under
/// partition `p`, returning the 16 indices in pixel order and the summed
/// error.
pub fn map_partition(block: &[u8], p: usize, eps: ((Rgb, Rgb), (Rgb, Rgb))) -> (r: (Vec<u8>, u32))
    requires
        block@.len() == 48,
        p < PARTITION_COUNT,
        eps.0 == spec_subset_ep(block@, p as int, 0),
        eps.1 == spec_subset_ep(block@, p as int, 1),
    ensures
        r.0@.len() == 16,
        forall|px: int|
            0 <= px < 16 ==> r.0@[px] == spec_px_index(block@, p as int, px) && r.0@[px] < 4,
        r.1 == spec_partition_error(block@, p as int),
{
    let pat = partition_pattern(p);
    let mut idxs: Vec<u8> = Vec::new();
    let mut err: u32 = 0;
    for px in 0..16usize
        invariant
            block@.len() == 48,
            p < PARTITION_COUNT,
            pat@ == spec_pattern(p as int),
            eps.0 == spec_subset_ep(block@, p as int, 0),
            eps.1 == spec_subset_ep(block@, p as int, 1),
            idxs@.len() == px,
            forall|j: int|
                0 <= j < px ==> idxs@[j] == spec_px_index(block@, p as int, j) && idxs@[j] < 4,
            err == part_err_upto(block@, p as int, px as int),
            err <= 195075 * px,
    {
        let col = Rgb { r: block[3 * px], g: block[3 * px + 1], b: block[3 * px + 2] };
        let ep = if pat[px] == 0 {
            eps.0
        } else {
            eps.1
        };
        proof {
            assert(ep == spec_px_ep(block@, p as int, px as int));
            assert(col == spec_px(block@, px as int));
        }
        let i = index(col, ep.0, ep.1);
        let pal = palette(ep.0, ep.1);
        let e = cmp_color(pal[i as usize], col);
        proof {
            lemma_dist2_bound(pal@[i as int], col);
        }
        idxs.push(i);
        err = err + e;
    }
    (idxs, err)
}

/// Index of the first partition attaining the minimum total error: a later
/// entry replaces the incumbent only with strictly lower error.
pub open spec fn best_part_upto(block: Seq<u8>, k: int) -> int
    decreases k,
{
    if k <= 1 {
        0
    } else {
        let prev = best_part_upto(block, k - 1);
        if spec_partition_error(block, k - 1) < spec_partition_error(block, prev) {
            k - 1
        } else {
            prev
        }
    }
}

/// The partition the encoder selects for a tile.
pub open spec fn spec_best_partition(block: Seq<u8>) -> int {
    best_part_upto(block, PARTITION_COUNT as int)
}

pub proof fn lemma_best_part_in_range(block: Seq<u8>, k: int)
    requires
        k >= 1,
    ensures
        0 <= best_part_upto(block, k) < k,
    decreases k,
{
    if k > 1 {
        lemma_best_part_in_range(block, k - 1);
    }
}

/// Partition selection is an argmin over the whole table: substituting any
/// other table entry never yields a strictly lower total error.
pub proof fn lemma_partition_argmin(block: Seq<u8>, k: int, q: int)
    requires
        1 <= k,
        0 <= q < k,
    ensures
        spec_partition_error(block, best_part_upto(block, k)) <= spec_partition_error(block, q),
    decreases k,
{
    if k > 1 && q < k - 1 {
        lemma_partition_argmin(block, k - 1, q);
    }
}

/// The 2-bit indices of the first `k` entries of an index stream packed
/// little-endian into a 32-bit word.
pub open spec fn pack2_upto(idxs: Seq<u8>, k: int) -> u32
    decreases k,
{
    if k <= 0 {
        0
    } else {
        pack2_upto(idxs, k - 1) | ((idxs[k - 1] as u32) << ((2 * (k - 1)) as u32))
    }
}

/// The index stream of a tile under partition `p`, in pixel order.
pub open spec fn spec_px_indices(block: Seq<u8>, p: int) -> Seq<u8> {
    Seq::new(16, |px: int| spec_px_index(block, p, px) as u8)
}

/// The full 32-bit packed index word of a tile under partition `p`.
pub open spec fn spec_pack2(block: Seq<u8>, p: int) -> u32 {
    pack2_upto(spec_px_indices(block, p), 16)
}

fn pack2(idxs: &Vec<u8>) -> (r: u32)
    requires
        idxs@.len() == 16,
    ensures
        r == pack2_upto(idxs@, 16),
{
    let mut data: u32 = 0;
    for px in 0..16usize
        invariant
            idxs@.len() == 16,
            data == pack2_upto(idxs@, px as int),
    {
        proof {
            assert((2 * (px as u32)) as u32 == (2 * (px as int)) as u32);
        }
        data = data | ((idxs[px] as u32) << (2 * (px as u32)));
    }
    data
}

/// One encoded BC7 mode-3 block, held as plain fields; `block_bytes` packs
/// them into the 128-bit layout.  The channel arrays hold the 7-bit
/// quantized endpoints in the order subset 0 low, subset 0 high, subset 1
/// low, subset 1 high.
#[derive(Debug, Copy, Clone)]
pub struct Bc7Mode3Block {
    pub partition: u8,
    pub red: [u8; 4],
    pub green: [u8; 4],
    pub blue: [u8; 4],
    pub idx: u32,
}

/// Field ranges every encoded block satisfies: a 6-bit partition id, 7-bit
/// endpoint channels and a 30-bit index word.
pub open spec fn spec_block_wf(blk: Bc7Mode3Block) -> bool {
    &&& blk.partition < 64
    &&& forall|j: int| 0 <= j < 4 ==> blk.red@[j] < 128 && blk.green@[j] < 128 && blk.blue@[j] < 128
    &&& blk.idx < 0x4000_0000
}

/// What it means for a block record to encode a tile: the partition is the
/// argmin entry, the channels hold its subsets' endpoints quantized to 7
/// bits, and the index word packs the pixels' palette indices with pixel
/// 15's bits truncated away.
pub open spec fn encodes(blk: Bc7Mode3Block, block: Seq<u8>) -> bool {
    let p = spec_best_partition(block);
    let ep0 = spec_subset_ep(block, p, 0);
    let ep1 = spec_subset_ep(block, p, 1);
    &&& blk.partition == p
    &&& blk.red@ == seq![
        (ep0.0.r / 2) as u8,
        (ep0.1.r / 2) as u8,
        (ep1.0.r / 2) as u8,
        (ep1.1.r / 2) as u8,
    ]
    &&& blk.green@ == seq![
        (ep0.0.g / 2) as u8,
        (ep0.1.g / 2) as u8,
        (ep1.0.g / 2) as u8,
        (ep1.1.g / 2) as u8,
    ]
    &&& blk.blue@ == seq![
        (ep0.0.b / 2) as u8,
        (ep0.1.b / 2) as u8,
        (ep1.0.b / 2) as u8,
        (ep1.1.b / 2) as u8,
    ]
    &&& blk.idx == spec_pack2(block, p) & 0x3FFF_FFFF
}

/// Tries every partition table entry in order and keeps the first one of
/// minimum total error: its id, its subsets' endpoint pairs, the 16 chosen
/// indices and that error.
fn select_partition(block: &[u8]) -> (r: (usize, ((Rgb, Rgb), (Rgb, Rgb)), Vec<u8>, u32))
    requires
        block@.len() == 48,
    ensures
        r.0 == spec_best_partition(block@),
        r.0 < PARTITION_COUNT,
        r.1.0 == spec_subset_ep(block@, r.0 as int, 0),
        r.1.1 == spec_subset_ep(block@, r.0 as int, 1),
        r.2@.len() == 16,
        forall|px: int|
            0 <= px < 16 ==> r.2@[px] == spec_px_index(block@, r.0 as int, px) && r.2@[px] < 4,
        r.3 == spec_partition_error(block@, r.0 as int),
{
    let mut bp: usize = 0;
    let mut beps = gen_partition_palette(block, 0);
    let mut bmap = map_partition(block, 0, beps);
    for p in 1..PARTITION_COUNT
        invariant
            block@.len() == 48,
            bp == best_part_upto(block@, p as int),
            bp < p <= PARTITION_COUNT,
            beps.0 == spec_subset_ep(block@, bp as int, 0),
            beps.1 == spec_subset_ep(block@, bp as int, 1),
            bmap.0@.len() == 16,
            forall|px: int|
                0 <= px < 16 ==> bmap.0@[px] == spec_px_index(block@, bp as int, px) && bmap.0@[px]
                    < 4,
            bmap.1 == spec_partition_error(block@, bp as int),
    {
        let eps = gen_partition_palette(block, p);
        let m = map_partition(block, p, eps);
        if m.1 < bmap.1 {
            bp = p;
            beps = eps;
            bmap = m;
        }
    }
    (bp, beps, bmap.0, bmap.1)
}

/// Encodes one 48-byte RGB tile: tries every partition table entry, keeps
/// the first one of minimum total error, quantizes its subsets' endpoints
/// to 7 bits per channel and packs the 2-bit index stream.
pub fn encode_block(block: &[u8]) -> (r: Bc7Mode3Block)
    requires
        block@.len() == 48,
    ensures
        encodes(r, block@),
        spec_block_wf(r),
        forall|q: int|
            0 <= q < PARTITION_COUNT ==> spec_partition_error(block@, r.partition as int)
                <= #[trigger] spec_partition_error(block@, q),
{
    let (bp, beps, bidx, _berr) = select_partition(block);
    proof {
        assert forall|q: int|
            0 <= q < PARTITION_COUNT implies spec_partition_error(block@, bp as int)
            <= #[trigger] spec_partition_error(block@, q) by {
            lemma_partition_argmin(block@, PARTITION_COUNT as int, q);
        }
    }
    let red: [u8; 4] = [beps.0.0.r / 2, beps.0.1.r / 2, beps.1.0.r / 2, beps.1.1.r / 2];
    let green: [u8; 4] = [beps.0.0.g / 2, beps.0.1.g / 2, beps.1.0.g / 2, beps.1.1.g / 2];
    let blue: [u8; 4] = [beps.0.0.b / 2, beps.0.1.b / 2, beps.1.0.b / 2, beps.1.1.b / 2];
    proof {
        assert(red@ =~= seq![
            (beps.0.0.r / 2) as u8,
            (beps.0.1.r / 2) as u8,
            (beps.1.0.r / 2) as u8,
            (beps.1.1.r / 2) as u8,
        ]);
        assert(green@ =~= seq![
            (beps.0.0.g / 2) as u8,
            (beps.0.1.g / 2) as u8,
            (beps.1.0.g / 2) as u8,
            (beps.1.1.g / 2) as u8,
        ]);
        assert(blue@ =~= seq![
            (beps.0.0.b / 2) as u8,
            (beps.0.1.b / 2) as u8,
            (beps.1.0.b / 2) as u8,
            (beps.1.1.b / 2) as u8,
        ]);
        assert(bidx@ =~= spec_px_indices(block@, bp as int));
    }
    let data = pack2(&bidx);
    let idx = data & 0x3FFF_FFFF;
    proof {
        assert(idx < 0x4000_0000 && idx == data & 0x3FFF_FFFF) by (bit_vector)
            requires
                idx == data & 0x3FFF_FFFF,
        ;
    }
    let blk = Bc7Mode3Block { partition: bp as u8, red, green, blue, idx };
    proof {
        assert(blk.partition == spec_best_partition(block@));
        assert(blk.idx == spec_pack2(block@, spec_best_partition(block@)) & 0x3FFF_FFFF);
        assert(encodes(blk, block@));
        assert(spec_block_wf(blk));
    }
    blk
}

/// The 128-bit layout of an encoded block, low bits first: the 4-bit mode
/// tag 0b1000, the 6-bit partition id, four 7-bit red endpoints, four green,
/// four blue, four zero parity bits, then the 30-bit packed index word.
pub open spec fn spec_bc7_bits(blk: Bc7Mode3Block) -> u128 {
    8u128 | (((blk.partition & 0x3F) as u128) << 4u128) | (((blk.red@[0] & 0x7F) as u128)
        << 10u128) | (((blk.red@[1] & 0x7F) as u128) << 17u128) | (((blk.red@[2] & 0x7F) as u128)
        << 24u128) | (((blk.red@[3] & 0x7F) as u128) << 31u128) | (((blk.green@[0] & 0x7F) as u128)
        << 38u128) | (((blk.green@[1] & 0x7F) as u128) << 45u128) | (((blk.green@[2]
        & 0x7F) as u128) << 52u128) | (((blk.green@[3] & 0x7F) as u128) << 59u128) | (((blk.blue@[0]
        & 0x7F) as u128) << 66u128) | (((blk.blue@[1] & 0x7F) as u128) << 73u128) | (((blk.blue@[2]
        & 0x7F) as u128) << 80u128) | (((blk.blue@[3] & 0x7F) as u128) << 87u128) | (((blk.idx
        & 0x3FFF_FFFF) as u128) << 98u128)
}

/// The sixteen little-endian bytes of the 128-bit block.
pub open spec fn spec_bc7_bytes(blk: Bc7Mode3Block) -> Seq<u8> {
    let bits = spec_bc7_bits(blk);
    seq![
        (bits & 0xff) as u8,
        ((bits >> 8u128) & 0xff) as u8,
        ((bits >> 16u128) & 0xff) as u8,
        ((bits >> 24u128) & 0xff) as u8,
        ((bits >> 32u128) & 0xff) as u8,
        ((bits >> 40u128) & 0xff) as u8,
        ((bits >> 48u128) & 0xff) as u8,
        ((bits >> 56u128) & 0xff) as u8,
        ((bits >> 64u128) & 0xff) as u8,
        ((bits >> 72u128) & 0xff) as u8,
        ((bits >> 80u128) & 0xff) as u8,
        ((bits >> 88u128) & 0xff) as u8,
        ((bits >> 96u128) & 0xff) as u8,
        ((bits >> 104u128) & 0xff) as u8,
        ((bits >> 112u128) & 0xff) as u8,
        ((bits >> 120u128) & 0xff) as u8,
    ]
}

/// Serializes the block record into its 128-bit hardware layout.
pub fn block_bytes(blk: &Bc7Mode3Block) -> (r: [u8; 16])
    ensures
        r@ == spec_bc7_bytes(*blk),
{
    let bits: u128 = 8u128 | (((blk.partition & 0x3F) as u128) << 4) | (((blk.red[0]
        & 0x7F) as u128) << 10) | (((blk.red[1] & 0x7F) as u128) << 17) | (((blk.red[2]
        & 0x7F) as u128) << 24) | (((blk.red[3] & 0x7F) as u128) << 31) | (((blk.green[0]
        & 0x7F) as u128) << 38) | (((blk.green[1] & 0x7F) as u128) << 45) | (((blk.green[2]
        & 0x7F) as u128) << 52) | (((blk.green[3] & 0x7F) as u128) << 59) | (((blk.blue[0]
        & 0x7F) as u128) << 66) | (((blk.blue[1] & 0x7F) as u128) << 73) | (((blk.blue[2]
        & 0x7F) as u128) << 80) | (((blk.blue[3] & 0x7F) as u128) << 87) | (((blk.idx
        & 0x3FFF_FFFF) as u128) << 98);
    assert(bits == spec_bc7_bits(*blk));
    let r = [
        (bits & 0xff) as u8,
        ((bits >> 8) & 0xff) as u8,
        ((bits >> 16) & 0xff) as u8,
        ((bits >> 24) & 0xff) as u8,
        ((bits >> 32) & 0xff) as u8,
        ((bits >> 40) & 0xff) as u8,
        ((bits >> 48) & 0xff) as u8,
        ((bits >> 56) & 0xff) as u8,
        ((bits >> 64) & 0xff) as u8,
        ((bits >> 72) & 0xff) as u8,
        ((bits >> 80) & 0xff) as u8,
        ((bits >> 88) & 0xff) as u8,
        ((bits >> 96) & 0xff) as u8,
        ((bits >> 104) & 0xff) as u8,
        ((bits >> 112) & 0xff) as u8,
        ((bits >> 120) & 0xff) as u8,
    ];
    proof {
        assert(r@ =~= spec_bc7_bytes(*blk));
    }
    r
}

/// Encodes an interleaved RGB buffer of whole 48-byte tiles, in order.
/// Rejects a buffer that does not split into whole tiles; never truncates
/// or pads.
pub fn encode_blocks(samples: &[u8]) -> (r: Result<Vec<Bc7Mode3Block>, EncodeError>)
    ensures
        samples@.len() % 48 == 0 <==> r is Ok,
        r matches Ok(blocks) ==> blocks@.len() == samples@.len() / 48 && forall|b: int|
            0 <= b < blocks@.len() ==> encodes(
                #[trigger] blocks@[b],
                samples@.subrange(48 * b, 48 * b + 48),
            ) && spec_block_wf(blocks@[b]),
        samples@.len() % 48 != 0 ==> r == Result::<Vec<Bc7Mode3Block>, EncodeError>::Err(
            EncodeError::PartialBlock,
        ),
{
    if samples.len() % 48 != 0 {
        return Err(EncodeError::PartialBlock);
    }
    let nb = samples.len() / 48;
    proof {
        vstd::arithmetic::div_mod::lemma_fundamental_div_mod(samples@.len() as int, 48);
    }
    let mut blocks: Vec<Bc7Mode3Block> = Vec::new();
    for b in 0..nb
        invariant
            nb == samples@.len() / 48,
            48 * nb == samples@.len(),
            samples@.len() <= usize::MAX,
            blocks@.len() == b,
            forall|k: int|
                0 <= k < b ==> encodes(
                    #[trigger] blocks@[k],
                    samples@.subrange(48 * k, 48 * k + 48),
                ) && spec_block_wf(blocks@[k]),
    {
        let base = 48 * b;
        let tile = &samples[base..base + 48];
        proof {
            assert(tile@ =~= samples@.subrange(48 * (b as int), 48 * (b as int) + 48));
        }
        blocks.push(encode_block(tile));
    }
    Ok(blocks)
}

} // verus!
