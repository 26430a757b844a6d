//! Dual-channel BC5 block encoding: two independent BC4 blocks laid out back
//! to back, one per caller-supplied channel.

use crate::bcn::bc4::{encodes, gen_block, spec_bc4_bytes, Bc4Block, EncodeError};
use vstd::prelude::*;

verus! {

/// One encoded BC5 block: a BC4 block for the first channel followed by one
/// for the second.
#[derive(Debug, Copy, Clone)]
pub struct Bc5Block {
    pub l: Bc4Block,
    pub a: Bc4Block,
}

/// Encodes one 16-sample block per channel; each channel runs the full BC4
/// pipeline independently.
pub fn encode_block_pair(c0: &[u8; 16], c1: &[u8; 16]) -> (r: Bc5Block)
    ensures
        encodes(r.l, c0@),
        encodes(r.a, c1@),
{
    Bc5Block { l: gen_block(c0), a: gen_block(c1) }
}

/// Encodes two parallel channel buffers of whole 16-sample blocks.  Buffers
/// of unequal length are rejected as mismatched channels; a pair that does
/// not split into whole blocks is rejected as a partial block.  Nothing is
/// ever truncated or padded.
pub fn encode_planes(c0: &[u8], c1: &[u8]) -> (r: Result<Vec<Bc5Block>, EncodeError>)
    ensures
        r is Ok <==> (c0@.len() == c1@.len() && c0@.len() % 16 == 0),
        r matches Ok(blocks) ==> blocks@.len() == c0@.len() / 16 && forall|b: int|
            0 <= b < blocks@.len() ==> encodes(
                (#[trigger] blocks@[b]).l,
                c0@.subrange(16 * b, 16 * b + 16),
            ) && encodes(blocks@[b].a, c1@.subrange(16 * b, 16 * b + 16)),
        c0@.len() != c1@.len() ==> r == Result::<Vec<Bc5Block>, EncodeError>::Err(
            EncodeError::ChannelMismatch,
        ),
        c0@.len() == c1@.len() && c0@.len() % 16 != 0 ==> r == Result::<
            Vec<Bc5Block>,
            EncodeError,
        >::Err(EncodeError::PartialBlock),
{
    if c0.len() != c1.len() {
        return Err(EncodeError::ChannelMismatch);
    }
    if c0.len() % 16 != 0 {
        return Err(EncodeError::PartialBlock);
    }
    let nb = c0.len() / 16;
    proof {
        vstd::arithmetic::div_mod::lemma_fundamental_div_mod(c0@.len() as int, 16);
    }
    let mut blocks: Vec<Bc5Block> = Vec::new();
    for b in 0..nb
        invariant
            nb == c0@.len() / 16,
            16 * nb == c0@.len(),
            c0@.len() == c1@.len(),
            c0@.len() <= usize::MAX,
            blocks@.len() == b,
            forall|k: int|
                0 <= k < b ==> encodes(
                    (#[trigger] blocks@[k]).l,
                    c0@.subrange(16 * k, 16 * k + 16),
                ) && encodes(blocks@[k].a, c1@.subrange(16 * k, 16 * k + 16)),
    {
        let base = 16 * b;
        let t0: [u8; 16] = [
            c0[base],
            c0[base + 1],
            c0[base + 2],
            c0[base + 3],
            c0[base + 4],
            c0[base + 5],
            c0[base + 6],
            c0[base + 7],
            c0[base + 8],
            c0[base + 9],
            c0[base + 10],
            c0[base + 11],
            c0[base + 12],
            c0[base + 13],
            c0[base + 14],
            c0[base + 15],
        ];
        let t1: [u8; 16] = [
            c1[base],
            c1[base + 1],
            c1[base + 2],
            c1[base + 3],
            c1[base + 4],
            c1[base + 5],
            c1[base + 6],
            c1[base + 7],
            c1[base + 8],
            c1[base + 9],
            c1[base + 10],
            c1[base + 11],
            c1[base + 12],
            c1[base + 13],
            c1[base + 14],
            c1[base + 15],
        ];
        proof {
            assert(t0@ =~= c0@.subrange(16 * (b as int), 16 * (b as int) + 16));
            assert(t1@ =~= c1@.subrange(16 * (b as int), 16 * (b as int) + 16));
        }
        blocks.push(encode_block_pair(&t0, &t1));
    }
    Ok(blocks)
}

/// The sixteen bytes of an encoded BC5 block: the first channel's BC4 bytes,
/// then the second channel's.
pub open spec fn spec_bc5_bytes(blk: Bc5Block) -> Seq<u8> {
    spec_bc4_bytes(blk.l) + spec_bc4_bytes(blk.a)
}

/// Serializes the block record.
pub fn block_bytes(blk: &Bc5Block) -> (r: [u8; 16])
    ensures
        r@ == spec_bc5_bytes(*blk),
{
    let r = [
        blk.l.a,
        blk.l.b,
        blk.l.data[0],
        blk.l.data[1],
        blk.l.data[2],
        blk.l.data[3],
        blk.l.data[4],
        blk.l.data[5],
        blk.a.a,
        blk.a.b,
        blk.a.data[0],
        blk.a.data[1],
        blk.a.data[2],
        blk.a.data[3],
        blk.a.data[4],
        blk.a.data[5],
    ];
    proof {
        assert(r@ =~= spec_bc5_bytes(*blk));
    }
    r
}

} // verus!
