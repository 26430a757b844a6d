use asset_formats::bcn::bc4::EncodeError;
use asset_formats::bcn::bc7::partitions::{partition_pattern, PARTITION_COUNT};
use asset_formats::bcn::bc7::{
    block_bytes, cmp_color, encode_block, encode_blocks, gen_partition_palette, index,
    map_partition, palette, Rgb,
};

fn rgb(r: u8, g: u8, b: u8) -> Rgb {
    Rgb { r, g, b }
}

/// A 48-byte tile colored per pixel by a closure over (x, y).
fn tile(f: impl Fn(usize, usize) -> (u8, u8, u8)) -> Vec<u8> {
    let mut out = Vec::new();
    for y in 0..4 {
        for x in 0..4 {
            let (r, g, b) = f(x, y);
            out.push(r);
            out.push(g);
            out.push(b);
        }
    }
    out
}

#[test]
fn squared_distance() {
    assert_eq!(cmp_color(rgb(1, 2, 3), rgb(4, 6, 3)), 25);
    assert_eq!(cmp_color(rgb(255, 0, 255), rgb(0, 255, 0)), 3 * 65025);
    assert_eq!(cmp_color(rgb(9, 9, 9), rgb(9, 9, 9)), 0);
}

/// Entries 0 and 1 of the 4-color palette are the endpoints themselves;
/// entries 2 and 3 interpolate at thirds.
#[test]
fn palette_entries() {
    let pal = palette(rgb(0, 0, 0), rgb(255, 255, 255));
    assert_eq!(pal[0], rgb(0, 0, 0));
    assert_eq!(pal[1], rgb(255, 255, 255));
    assert_eq!(pal[2], rgb(85, 85, 85));
    assert_eq!(pal[3], rgb(170, 170, 170));
}

/// The color mapper picks the globally nearest palette entry, brute-checked.
#[test]
fn index_is_nearest() {
    let a = rgb(0, 10, 20);
    let b = rgb(200, 150, 100);
    let pal = palette(a, b);
    let mut seed: u32 = 0xBEEF;
    let mut next = move || {
        seed = seed.wrapping_mul(1664525).wrapping_add(1013904223);
        (seed >> 24) as u8
    };
    for _ in 0..64 {
        let col = rgb(next(), next(), next());
        let i = index(col, a, b) as usize;
        for j in 0..4 {
            assert!(cmp_color(pal[i], col) <= cmp_color(pal[j], col));
        }
    }
    // an exact mid sample maps to the interior entry that reproduces it
    assert_eq!(index(rgb(85, 85, 85), rgb(0, 0, 0), rgb(255, 255, 255)), 2);
}

/// Every table entry assigns both subsets at least one pixel, and entry 0 is
/// the checkerboard.
#[test]
fn partition_table_shape() {
    for p in 0..PARTITION_COUNT {
        let pat = partition_pattern(p);
        assert!(pat.iter().any(|&s| s == 0));
        assert!(pat.iter().any(|&s| s == 1));
        assert!(pat.iter().all(|&s| s < 2));
    }
    assert_eq!(partition_pattern(0), [0, 1, 0, 1, 1, 0, 1, 0, 0, 1, 0, 1, 1, 0, 1, 0]);
}

/// A two-color checkerboard selects the checkerboard partition with zero
/// error; its subsets' endpoints quantize to 64 (from 128) and 0, and every
/// stored index is 0 since each subset holds one color only.
#[test]
fn checkerboard_scenario() {
    let t = tile(|x, y| if (x + y) % 2 == 0 { (128, 128, 128) } else { (0, 0, 0) });
    let blk = encode_block(&t);
    assert_eq!(blk.partition, 0);
    assert_eq!(blk.red, [64, 64, 0, 0]);
    assert_eq!(blk.green, [64, 64, 0, 0]);
    assert_eq!(blk.blue, [64, 64, 0, 0]);
    assert_eq!(blk.idx, 0);
    let eps = gen_partition_palette(&t, 0);
    assert_eq!(eps.0, (rgb(128, 128, 128), rgb(128, 128, 128)));
    assert_eq!(eps.1, (rgb(0, 0, 0), rgb(0, 0, 0)));
    let (idxs, err) = map_partition(&t, 0, eps);
    assert_eq!(err, 0);
    assert_eq!(idxs, vec![0u8; 16]);
}

/// The selected partition is an argmin: no other table entry reports a
/// strictly lower total error.
#[test]
fn partition_selection_is_argmin() {
    let t = tile(
        |x, _| {
            if x < 2 {
                (0, 0, 0)
            } else if x == 2 {
                (100, 100, 100)
            } else {
                (200, 200, 200)
            }
        },
    );
    let blk = encode_block(&t);
    let best_err = {
        let eps = gen_partition_palette(&t, blk.partition as usize);
        map_partition(&t, blk.partition as usize, eps).1
    };
    for q in 0..PARTITION_COUNT {
        let eps = gen_partition_palette(&t, q);
        let err = map_partition(&t, q, eps).1;
        assert!(best_err <= err);
    }
    // a clean left/right split is matched exactly by the half-split entry
    assert_eq!(blk.partition, 1);
    assert_eq!(best_err, 0);
}

/// The 128-bit layout: mode tag in the low nibble, then partition id,
/// endpoint channels and the 30-bit index word.
#[test]
fn block_serialization_layout() {
    let blk = asset_formats::bcn::bc7::Bc7Mode3Block {
        partition: 1,
        red: [1, 2, 3, 4],
        green: [5, 6, 7, 8],
        blue: [9, 10, 11, 12],
        idx: 0x2AAA_AAAA,
    };
    let bytes = block_bytes(&blk);
    assert_eq!(bytes, [24, 4, 4, 3, 66, 193, 112, 64, 36, 20, 11, 6, 168, 170, 170, 170]);
    // mode tag 0b1000 in the low four bits
    assert_eq!(bytes[0] & 0xF, 8);
}

#[test]
fn encode_blocks_rejects_partial_tile() {
    assert!(matches!(encode_blocks(&[0u8; 47]), Err(EncodeError::PartialBlock)));
    let t = tile(|_, _| (3, 3, 3));
    let two: Vec<u8> = t.iter().chain(t.iter()).copied().collect();
    let blocks = encode_blocks(&two).unwrap();
    assert_eq!(blocks.len(), 2);
    // a solid tile has zero-width endpoints in both subsets
    assert_eq!(blocks[0].red, [1, 1, 1, 1]);
    assert_eq!(blocks[0].idx, 0);
}
