use asset_formats::bcn::bc4::{
    best_index, block_bytes, encode_blocks, gen_block, interpolate, pack_indices, palette,
    unpack_indices, EncodeError,
};

/// A block of sixteen identical values encodes with both endpoints equal to
/// that value and an all-zero index field.
#[test]
fn constant_block_is_exact() {
    for v in [0u8, 7, 128, 255] {
        let block = [v; 16];
        let blk = gen_block(&block);
        assert_eq!(blk.a, v);
        assert_eq!(blk.b, v);
        assert_eq!(blk.data, [0u8; 6]);
    }
}

/// An all-red 4x4 tile on the red channel alone: endpoints 255/255, all-zero
/// index field, zero quantization error.
#[test]
fn all_red_channel_scenario() {
    let block = [255u8; 16];
    let blk = gen_block(&block);
    assert_eq!(blk.a, 255);
    assert_eq!(blk.b, 255);
    assert_eq!(blk.data, [0u8; 6]);
    // the palette entry every index selects reproduces the sample exactly
    let pal = interpolate(blk.a, blk.b);
    for c in block {
        assert_eq!(pal[0], c);
    }
}

/// A perfectly linear ramp fits its own line: endpoints 255 and 0, and the
/// exact index stream and packed bytes.
#[test]
fn linear_ramp_block() {
    let mut block = [0u8; 16];
    for i in 0..16 {
        block[i] = (i as u8) * 17;
    }
    let blk = gen_block(&block);
    assert_eq!(blk.a, 255);
    assert_eq!(blk.b, 0);
    assert_eq!(blk.data, [201, 111, 183, 228, 38, 1]);
}

#[test]
fn endpoint_pair_order() {
    // the high extremity comes first, selecting the 8-level palette
    let samples = [0u8, 17, 34, 51, 68, 85, 102, 119, 136, 153, 170, 187, 204, 221, 238, 255];
    assert_eq!(palette(&samples), (255, 0));
    assert_eq!(palette(&[9, 9, 9]), (9, 9));
}

/// With distinct endpoints (a > b) the palette is the endpoints followed by
/// six interpolants; entries 0 and 1 equal the inputs exactly.
#[test]
fn interpolate_eight_level() {
    assert_eq!(interpolate(200, 100), [200, 100, 185, 171, 157, 142, 128, 114]);
}

/// With a <= b the palette carries four interpolants and the fixed anchors
/// 0 and 255; the interpolants are monotonic between the endpoints.
#[test]
fn interpolate_six_level() {
    let pal = interpolate(10, 20);
    assert_eq!(pal, [10, 20, 12, 14, 16, 18, 0, 255]);
    for w in pal[2..6].windows(2) {
        assert!(w[0] <= w[1]);
    }
}

/// The mapper returns a global nearest neighbour: checked against a
/// brute-force scan on generated blocks.
#[test]
fn best_index_is_nearest() {
    let mut seed: u32 = 0x1234_5678;
    let mut next = move || {
        seed = seed.wrapping_mul(1664525).wrapping_add(1013904223);
        (seed >> 24) as u8
    };
    for _ in 0..64 {
        let a = next();
        let b = next();
        let pal = interpolate(a, b);
        for _ in 0..16 {
            let c = next();
            let idx = best_index(&pal, c);
            for j in 0..8 {
                assert!(pal[idx].abs_diff(c) <= pal[j].abs_diff(c));
            }
        }
    }
}

/// Exact ties keep the lower index.
#[test]
fn best_index_tie_prefers_lower() {
    // entries 0 and 1 equidistant from the sample
    let pal = [10u8, 30, 0, 0, 0, 0, 0, 0];
    assert_eq!(best_index(&pal, 20), 0);
}

/// Packing then unpacking the 48-bit index field recovers all 16 indices in
/// order.
#[test]
fn pack_unpack_round_trip() {
    let idxs = [0u8, 1, 2, 3, 4, 5, 6, 7, 7, 6, 5, 4, 3, 2, 1, 0];
    assert_eq!(unpack_indices(&pack_indices(&idxs)), idxs);
    let idxs2 = [7u8; 16];
    assert_eq!(unpack_indices(&pack_indices(&idxs2)), idxs2);
}

#[test]
fn block_serialization() {
    let block = [255u8; 16];
    let blk = gen_block(&block);
    assert_eq!(block_bytes(&blk), [255, 255, 0, 0, 0, 0, 0, 0]);
}

#[test]
fn encode_blocks_rejects_partial_block() {
    assert!(matches!(encode_blocks(&[0u8; 17]), Err(EncodeError::PartialBlock)));
    let blocks = encode_blocks(&[5u8; 32]).unwrap();
    assert_eq!(blocks.len(), 2);
    assert_eq!(blocks[0].a, 5);
    assert_eq!(blocks[1].b, 5);
    assert_eq!(encode_blocks(&[]).unwrap().len(), 0);
}
