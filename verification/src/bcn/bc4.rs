//! Single-channel BC4 block encoding: two 8-bit endpoints followed by a
//! 48-bit field of 16 packed 3-bit palette indices.

use crate::bcn::util::{
    absdiff, generate_palette, lemma_distinct_constant, lemma_pol_endpoints, lemma_pol_in_range,
    lemma_pol_monotonic, pol, spec_absdiff, spec_endpoints, spec_pol,
};
use vstd::prelude::*;

verus! {

/// One encoded BC4 block: endpoint bytes `a` and `b`, then six bytes holding
/// sixteen 3-bit indices packed little-endian.
#[derive(Debug, Copy, Clone)]
pub struct Bc4Block {
    pub a: u8,
    pub b: u8,
    pub data: [u8; 6],
}

/// The block's endpoint pair: the high extremity of the fitted line first,
/// so that distinct endpoints select the 8-level palette.
pub open spec fn spec_bc4_endpoints(s: Seq<u8>) -> (u8, u8) {
    let e = spec_endpoints(s);
    (e.1, e.0)
}

/// Endpoint pair fitted through a channel's samples, high end first.
pub fn palette(colors: &[u8]) -> (r: (u8, u8))
    requires
        colors@.len() >= 1,
    ensures
        r == spec_bc4_endpoints(colors@),
{
    let pal = generate_palette(colors);
    (pal.1, pal.0)
}

/// The 8-entry palette generated from an endpoint pair.  Entries 0 and 1 are
/// the endpoints themselves; with `a > b` the remaining six interpolate
/// between them, otherwise four interpolants are followed by the fixed
/// anchors 0 and 255.
pub open spec fn spec_interpolate(a: u8, b: u8) -> Seq<u8> {
    if a > b {
        seq![
            a,
            b,
            spec_pol(a, b, 1, 7) as u8,
            spec_pol(a, b, 2, 7) as u8,
            spec_pol(a, b, 3, 7) as u8,
            spec_pol(a, b, 4, 7) as u8,
            spec_pol(a, b, 5, 7) as u8,
            spec_pol(a, b, 6, 7) as u8,
        ]
    } else {
        seq![
            a,
            b,
            spec_pol(a, b, 1, 5) as u8,
            spec_pol(a, b, 2, 5) as u8,
            spec_pol(a, b, 3, 5) as u8,
            spec_pol(a, b, 4, 5) as u8,
            0u8,
            255u8,
        ]
    }
}

/// Expands an endpoint pair into the full 8-entry palette.
pub fn interpolate(a: u8, b: u8) -> (r: [u8; 8])
    ensures
        r@ == spec_interpolate(a, b),
{
    proof {
        lemma_pol_in_range(a, b, 1, 7);
        lemma_pol_in_range(a, b, 2, 7);
        lemma_pol_in_range(a, b, 3, 7);
        lemma_pol_in_range(a, b, 4, 7);
        lemma_pol_in_range(a, b, 5, 7);
        lemma_pol_in_range(a, b, 6, 7);
        lemma_pol_in_range(a, b, 1, 5);
        lemma_pol_in_range(a, b, 2, 5);
        lemma_pol_in_range(a, b, 3, 5);
        lemma_pol_in_range(a, b, 4, 5);
    }
    if a > b {
        let r = [
            a,
            b,
            pol(a, b, 1, 7),
            pol(a, b, 2, 7),
            pol(a, b, 3, 7),
            pol(a, b, 4, 7),
            pol(a, b, 5, 7),
            pol(a, b, 6, 7),
        ];
        assert(r@ =~= spec_interpolate(a, b));
        r
    } else {
        let r = [
            a,
            b,
            pol(a, b, 1, 5),
            pol(a, b, 2, 5),
            pol(a, b, 3, 5),
            pol(a, b, 4, 5),
            0,
            255,
        ];
        assert(r@ =~= spec_interpolate(a, b));
        r
    }
}

/// Entries 0 and 1 of the expanded palette are exactly the endpoint pair,
/// whatever their order; together with the monotonicity of the
/// interpolation in its step, the palette runs between its endpoints.
pub proof fn lemma_expander_endpoints(a: u8, b: u8)
    ensures
        spec_interpolate(a, b)[0] == a,
        spec_interpolate(a, b)[1] == b,
{
}

/// With `a < b` the expander takes the 6-level branch, and its interpolated
/// entries (slots 2 to 5) are monotonic between the endpoints: each lies
/// between `a` and `b`, and later slots never fall below earlier ones.
pub proof fn lemma_expander_monotonic(a: u8, b: u8, i: int, j: int)
    requires
        a < b,
        2 <= i <= j <= 5,
    ensures
        a <= spec_interpolate(a, b)[i] <= spec_interpolate(a, b)[j] <= b,
{
    let pal = spec_interpolate(a, b);
    lemma_pol_in_range(a, b, (i - 1) as u8, 5);
    lemma_pol_in_range(a, b, (j - 1) as u8, 5);
    assert(pal[i] == spec_pol(a, b, (i - 1) as u8, 5));
    assert(pal[j] == spec_pol(a, b, (j - 1) as u8, 5));
    lemma_pol_endpoints(a, b, 5);
    lemma_pol_monotonic(a, b, 0, (i - 1) as u8, 5);
    lemma_pol_monotonic(a, b, (i - 1) as u8, (j - 1) as u8, 5);
    lemma_pol_monotonic(a, b, (j - 1) as u8, 5, 5);
}

/// Index of the first palette entry of minimum distance to `c` among the
/// first `k` entries: a strictly smaller distance is needed to displace an
/// earlier entry, so ties keep the lower index.
pub open spec fn best_idx(pal: Seq<u8>, c: u8, k: int) -> int
    decreases k,
{
    if k <= 1 {
        0
    } else {
        let prev = best_idx(pal, c, k - 1);
        if spec_absdiff(pal[k - 1], c) < spec_absdiff(pal[prev], c) {
            k - 1
        } else {
            prev
        }
    }
}

pub proof fn lemma_best_idx_in_range(pal: Seq<u8>, c: u8, k: int)
    requires
        k >= 1,
    ensures
        0 <= best_idx(pal, c, k) < k,
    decreases k,
{
    if k > 1 {
        lemma_best_idx_in_range(pal, c, k - 1);
    }
}

/// The mapper is a true nearest-neighbour search: no palette entry lies
/// strictly closer to the sample than the chosen one.
pub proof fn lemma_best_idx_nearest(pal: Seq<u8>, c: u8, k: int, j: int)
    requires
        1 <= k,
        0 <= j < k,
    ensures
        spec_absdiff(pal[best_idx(pal, c, k)], c) <= spec_absdiff(pal[j], c),
    decreases k,
{
    if k > 1 && j < k - 1 {
        lemma_best_idx_nearest(pal, c, k - 1, j);
    }
}

/// First nearest palette entry for one sample, scanning all 8 entries.
pub fn best_index(pal: &[u8; 8], c: u8) -> (r: usize)
    ensures
        r == best_idx(pal@, c, 8),
        r < 8,
{
    let mut best: usize = 0;
    for i in 1..8usize
        invariant
            best == best_idx(pal@, c, i as int),
            best < i,
    {
        if absdiff(pal[i], c) < absdiff(pal[best], c) {
            best = i;
        }
    }
    best
}

/// The 3-bit indices of a packed 48-bit field, one per sample position.
pub open spec fn spec_idx_at(data: u64, px: int) -> u64 {
    (data >> ((3 * px) as u64)) & 7
}

/// The first `k` indices packed little-endian, three bits each.
pub open spec fn pack_upto(idxs: Seq<u8>, k: int) -> u64
    decreases k,
{
    if k <= 0 {
        0
    } else {
        pack_upto(idxs, k - 1) | ((idxs[k - 1] as u64) << ((3 * (k - 1)) as u64))
    }
}

/// All 16 indices packed into the 48-bit field.
pub open spec fn spec_pack_indices(idxs: Seq<u8>) -> u64 {
    pack_upto(idxs, 16)
}

proof fn lemma_pack_step_read(d: u64, v: u64, k: u64)
    by (bit_vector)
    requires
        v < 8,
        k <= 45,
        d < (1u64 << k),
    ensures
        ((d | (v << k)) >> k) & 7 == v,
        (d | (v << k)) < (1u64 << ((k + 3) as u64)),
{
}

proof fn lemma_pack_step_keep(d: u64, v: u64, k: u64, j: u64)
    by (bit_vector)
    requires
        j + 3 <= k,
        k <= 45,
    ensures
        ((d | (v << k)) >> j) & 7 == (d >> j) & 7,
{
}

proof fn lemma_pack_upto_props(idxs: Seq<u8>, k: int)
    requires
        idxs.len() == 16,
        forall|px: int| 0 <= px < 16 ==> idxs[px] < 8,
        0 <= k <= 16,
    ensures
        pack_upto(idxs, k) < (1u64 << ((3 * k) as u64)),
        forall|j: int| 0 <= j < k ==> spec_idx_at(pack_upto(idxs, k), j) == idxs[j],
    decreases k,
{
    if k == 0 {
        assert(0u64 < (1u64 << 0u64)) by (bit_vector);
    } else {
        lemma_pack_upto_props(idxs, k - 1);
        let d = pack_upto(idxs, k - 1);
        let v = idxs[k - 1] as u64;
        let sh = (3 * (k - 1)) as u64;
        lemma_pack_step_read(d, v, sh);
        assert forall|j: int|
            0 <= j < k - 1 implies spec_idx_at(pack_upto(idxs, k), j) == idxs[j] by {
            lemma_pack_step_keep(d, v, sh, (3 * j) as u64);
        }
    }
}

/// Packing then unpacking the 48-bit index field recovers every index, in
/// order: the field is a faithful record of the index stream.
pub proof fn lemma_pack_unpack_indices(idxs: Seq<u8>)
    requires
        idxs.len() == 16,
        forall|px: int| 0 <= px < 16 ==> idxs[px] < 8,
    ensures
        forall|px: int| 0 <= px < 16 ==> spec_idx_at(spec_pack_indices(idxs), px) == idxs[px],
        spec_pack_indices(idxs) < (1u64 << 48u64),
{
    lemma_pack_upto_props(idxs, 16);
}

/// The six little-endian bytes of a 48-bit value.
pub open spec fn spec_bytes48(data: u64) -> Seq<u8> {
    seq![
        (data & 0xff) as u8,
        ((data >> 8u64) & 0xff) as u8,
        ((data >> 16u64) & 0xff) as u8,
        ((data >> 24u64) & 0xff) as u8,
        ((data >> 32u64) & 0xff) as u8,
        ((data >> 40u64) & 0xff) as u8,
    ]
}

/// The 48-bit value read back from six little-endian bytes.
pub open spec fn spec_read48(bytes: Seq<u8>) -> u64
    recommends
        bytes.len() == 6,
{
    (bytes[0] as u64) | ((bytes[1] as u64) << 8u64) | ((bytes[2] as u64) << 16u64) | ((
    bytes[3] as u64) << 24u64) | ((bytes[4] as u64) << 32u64) | ((bytes[5] as u64) << 40u64)
}

/// Splitting a 48-bit value into bytes loses nothing.
pub proof fn lemma_bytes48_roundtrip(data: u64)
    requires
        data < (1u64 << 48u64),
    ensures
        spec_read48(spec_bytes48(data)) == data,
{
    let b0 = (data & 0xff) as u8;
    let b1 = ((data >> 8u64) & 0xff) as u8;
    let b2 = ((data >> 16u64) & 0xff) as u8;
    let b3 = ((data >> 24u64) & 0xff) as u8;
    let b4 = ((data >> 32u64) & 0xff) as u8;
    let b5 = ((data >> 40u64) & 0xff) as u8;
    assert((b0 as u64) | ((b1 as u64) << 8u64) | ((b2 as u64) << 16u64) | ((b3 as u64) << 24u64) | (
    (b4 as u64) << 32u64) | ((b5 as u64) << 40u64) == data) by (bit_vector)
        requires
            data < (1u64 << 48u64),
            b0 == (data & 0xff) as u8,
            b1 == ((data >> 8u64) & 0xff) as u8,
            b2 == ((data >> 16u64) & 0xff) as u8,
            b3 == ((data >> 24u64) & 0xff) as u8,
            b4 == ((data >> 32u64) & 0xff) as u8,
            b5 == ((data >> 40u64) & 0xff) as u8,
    ;
}

/// The pack/unpack inverse law through the stored bytes: packing sixteen
/// 3-bit indices into the 48-bit field, storing it as six bytes and reading
/// the field back recovers every index, in order.
pub proof fn lemma_index_field_roundtrip(idxs: Seq<u8>)
    requires
        idxs.len() == 16,
        forall|px: int| 0 <= px < 16 ==> idxs[px] < 8,
    ensures
        forall|px: int|
            0 <= px < 16 ==> spec_idx_at(
                spec_read48(spec_bytes48(spec_pack_indices(idxs))),
                px,
            ) == idxs[px],
{
    lemma_pack_unpack_indices(idxs);
    lemma_bytes48_roundtrip(spec_pack_indices(idxs));
}

/// Packs 16 3-bit indices little-endian into six bytes.
pub fn pack_indices(idxs: &[u8; 16]) -> (r: [u8; 6])
    requires
        forall|px: int| 0 <= px < 16 ==> idxs@[px] < 8,
    ensures
        r@ == spec_bytes48(spec_pack_indices(idxs@)),
{
    let mut data: u64 = 0;
    for px in 0..16usize
        invariant
            forall|p: int| 0 <= p < 16 ==> idxs@[p] < 8,
            data == pack_upto(idxs@, px as int),
    {
        proof {
            lemma_pack_upto_props(idxs@, px as int);
            assert((3 * (px as u64)) as u64 == (3 * (px as int)) as u64);
        }
        data = data | ((idxs[px] as u64) << (3 * (px as u64)));
    }
    [
        (data & 0xff) as u8,
        ((data >> 8) & 0xff) as u8,
        ((data >> 16) & 0xff) as u8,
        ((data >> 24) & 0xff) as u8,
        ((data >> 32) & 0xff) as u8,
        ((data >> 40) & 0xff) as u8,
    ]
}

/// Reads the 16 3-bit indices back out of the six packed bytes.
pub fn unpack_indices(data: &[u8; 6]) -> (r: [u8; 16])
    ensures
        forall|px: int| 0 <= px < 16 ==> r@[px] == spec_idx_at(spec_read48(data@), px),
{
    let d: u64 = (data[0] as u64) | ((data[1] as u64) << 8) | ((data[2] as u64) << 16) | ((
    data[3] as u64) << 24) | ((data[4] as u64) << 32) | ((data[5] as u64) << 40);
    assert(d == spec_read48(data@));
    let mut out: Vec<u8> = Vec::new();
    for px in 0..16usize
        invariant
            d == spec_read48(data@),
            out@.len() == px,
            forall|p: int| 0 <= p < px ==> out@[p] == spec_idx_at(d, p),
    {
        proof {
            assert(((d >> (3 * (px as u64))) & 7) < 8) by (bit_vector);
            assert((3 * (px as u64)) as u64 == (3 * (px as int)) as u64);
        }
        out.push(((d >> (3 * (px as u64))) & 7) as u8);
    }
    let r = [
        out[0], out[1], out[2], out[3], out[4], out[5], out[6], out[7], out[8], out[9], out[10],
        out[11], out[12], out[13], out[14], out[15],
    ];
    r
}

/// The block's palette index for the sample at position `px`.
pub open spec fn spec_bc4_index(s: Seq<u8>, px: int) -> int {
    let e = spec_bc4_endpoints(s);
    best_idx(spec_interpolate(e.0, e.1), s[px], 8)
}

/// The full index stream of a block, in sample order.
pub open spec fn spec_bc4_indices(s: Seq<u8>) -> Seq<u8> {
    Seq::new(16, |px: int| spec_bc4_index(s, px) as u8)
}

/// What it means for a block record to encode a 16-sample block: the
/// endpoints are the fitted pair and the data bytes hold the packed stream
/// of first-nearest palette indices.
pub open spec fn encodes(blk: Bc4Block, s: Seq<u8>) -> bool {
    &&& (blk.a, blk.b) == spec_bc4_endpoints(s)
    &&& blk.data@ == spec_bytes48(spec_pack_indices(spec_bc4_indices(s)))
}

/// Encodes one 16-sample block: fits the endpoints, expands the palette,
/// maps every sample to its first nearest entry and packs the index stream.
#[verifier::rlimit(30)]
pub fn gen_block(block: &[u8; 16]) -> (r: Bc4Block)
    ensures
        encodes(r, block@),
{
    let end_points = palette(vstd::array::array_as_slice(block));
    let pal = interpolate(end_points.0, end_points.1);
    let mut idxs: Vec<u8> = Vec::new();
    for px in 0..16usize
        invariant
            pal@ == spec_interpolate(end_points.0, end_points.1),
            (end_points.0, end_points.1) == spec_bc4_endpoints(block@),
            idxs@.len() == px,
            forall|p: int| 0 <= p < px ==> idxs@[p] == spec_bc4_index(block@, p) && idxs@[p] < 8,
    {
        proof {
            lemma_best_idx_in_range(pal@, block@[px as int], 8);
        }
        let i = best_index(&pal, block[px]);
        idxs.push(i as u8);
    }
    let idx_arr: [u8; 16] = [
        idxs[0], idxs[1], idxs[2], idxs[3], idxs[4], idxs[5], idxs[6], idxs[7], idxs[8], idxs[9],
        idxs[10], idxs[11], idxs[12], idxs[13], idxs[14], idxs[15],
    ];
    proof {
        assert(idx_arr@ =~= spec_bc4_indices(block@));
    }
    let data = pack_indices(&idx_arr);
    Bc4Block { a: end_points.0, b: end_points.1, data }
}

/// The eight bytes of an encoded block: endpoints first, then the packed
/// index field.
pub open spec fn spec_bc4_bytes(blk: Bc4Block) -> Seq<u8> {
    seq![blk.a, blk.b] + blk.data@
}

/// Serializes the block record.
pub fn block_bytes(blk: &Bc4Block) -> (r: [u8; 8])
    ensures
        r@ == spec_bc4_bytes(*blk),
{
    let r = [
        blk.a,
        blk.b,
        blk.data[0],
        blk.data[1],
        blk.data[2],
        blk.data[3],
        blk.data[4],
        blk.data[5],
    ];
    proof {
        assert(r@ =~= spec_bc4_bytes(*blk));
    }
    r
}

/// A block of one repeated value encodes exactly: both endpoints equal the
/// value and every index selects entry 0, whose palette value is the sample
/// itself, so the quantization error is zero.
pub proof fn lemma_constant_block_exact(s: Seq<u8>, v: u8)
    requires
        s.len() == 16,
        forall|k: int| 0 <= k < 16 ==> s[k] == v,
    ensures
        spec_bc4_endpoints(s) == (v, v),
        forall|px: int| 0 <= px < 16 ==> spec_bc4_index(s, px) == 0,
        forall|px: int|
            0 <= px < 16 ==> spec_interpolate(v, v)[spec_bc4_index(s, px)] == s[px],
        spec_pack_indices(spec_bc4_indices(s)) == 0,
{
    lemma_distinct_constant(s, v);
    let pal = spec_interpolate(v, v);
    assert(pal[0] == v);
    assert forall|px: int| 0 <= px < 16 implies spec_bc4_index(s, px) == 0 by {
        lemma_best_idx_zero_when_exact(pal, v, 8);
    }
    let idxs = spec_bc4_indices(s);
    assert forall|k: int| 0 <= k <= 16 implies pack_upto(idxs, k) == 0 by {
        lemma_pack_zero(idxs, k);
    }
}

proof fn lemma_best_idx_zero_when_exact(pal: Seq<u8>, c: u8, k: int)
    requires
        1 <= k <= pal.len(),
        pal[0] == c,
    ensures
        best_idx(pal, c, k) == 0,
    decreases k,
{
    if k > 1 {
        lemma_best_idx_zero_when_exact(pal, c, k - 1);
    }
}

proof fn lemma_pack_zero(idxs: Seq<u8>, k: int)
    requires
        0 <= k <= 16,
        forall|p: int| 0 <= p < k ==> idxs[p] == 0,
    ensures
        pack_upto(idxs, k) == 0,
    decreases k,
{
    if k > 0 {
        lemma_pack_zero(idxs, k - 1);
        let sh = (3 * (k - 1)) as u64;
        assert(0u64 | (0u64 << sh) == 0) by (bit_vector);
    }
}

/// Error raised when a caller hands the encoder sample buffers of the wrong
/// shape: buffers must split into whole 16-sample blocks, and paired channel
/// buffers must have equal lengths.
#[derive(Debug, Copy, Clone, PartialEq, Eq, Structural)]
pub enum EncodeError {
    PartialBlock,
    ChannelMismatch,
}

/// Encodes a single-channel buffer of whole 16-sample blocks, in order.
/// Rejects a buffer that does not split into whole blocks; never truncates
/// or pads.
pub fn encode_blocks(samples: &[u8]) -> (r: Result<Vec<Bc4Block>, EncodeError>)
    ensures
        samples@.len() % 16 == 0 <==> r is Ok,
        r matches Ok(blocks) ==> blocks@.len() == samples@.len() / 16 && forall|b: int|
            0 <= b < blocks@.len() ==> encodes(
                #[trigger] blocks@[b],
                samples@.subrange(16 * b, 16 * b + 16),
            ),
        samples@.len() % 16 != 0 ==> r == Result::<Vec<Bc4Block>, EncodeError>::Err(
            EncodeError::PartialBlock,
        ),
{
    if samples.len() % 16 != 0 {
        return Err(EncodeError::PartialBlock);
    }
    let nb = samples.len() / 16;
    proof {
        vstd::arithmetic::div_mod::lemma_fundamental_div_mod(samples@.len() as int, 16);
    }
    let mut blocks: Vec<Bc4Block> = Vec::new();
    for b in 0..nb
        invariant
            nb == samples@.len() / 16,
            16 * nb == samples@.len(),
            samples@.len() <= usize::MAX,
            blocks@.len() == b,
            forall|k: int|
                0 <= k < b ==> encodes(#[trigger] blocks@[k], samples@.subrange(16 * k, 16 * k + 16)),
    {
        let base = 16 * b;
        let tile: [u8; 16] = [
            samples[base],
            samples[base + 1],
            samples[base + 2],
            samples[base + 3],
            samples[base + 4],
            samples[base + 5],
            samples[base + 6],
            samples[base + 7],
            samples[base + 8],
            samples[base + 9],
            samples[base + 10],
            samples[base + 11],
            samples[base + 12],
            samples[base + 13],
            samples[base + 14],
            samples[base + 15],
        ];
        proof {
            assert(tile@ =~= samples@.subrange(16 * (b as int), 16 * (b as int) + 16));
        }
        blocks.push(gen_block(&tile));
    }
    Ok(blocks)
}

} // verus!
