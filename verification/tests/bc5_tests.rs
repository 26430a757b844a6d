use asset_formats::bcn::bc4::EncodeError;
use asset_formats::bcn::bc5::{block_bytes, encode_block_pair, encode_planes};

/// The two channels are encoded independently and laid out back to back.
#[test]
fn channels_are_independent() {
    let gray = [200u8; 16];
    let mut alpha = [0u8; 16];
    for i in 0..16 {
        alpha[i] = (i as u8) * 17;
    }
    let blk = encode_block_pair(&gray, &alpha);
    assert_eq!(blk.l.a, 200);
    assert_eq!(blk.l.b, 200);
    assert_eq!(blk.l.data, [0u8; 6]);
    assert_eq!(blk.a.a, 255);
    assert_eq!(blk.a.b, 0);
    assert_eq!(blk.a.data, [201, 111, 183, 228, 38, 1]);
    let bytes = block_bytes(&blk);
    assert_eq!(&bytes[0..8], &[200, 200, 0, 0, 0, 0, 0, 0]);
    assert_eq!(&bytes[8..10], &[255, 0]);
}

/// Mismatched channel buffers are rejected before block shape is checked;
/// buffers that do not split into whole blocks are rejected too.
#[test]
fn plane_shape_validation() {
    assert!(matches!(encode_planes(&[0u8; 16], &[0u8; 32]), Err(EncodeError::ChannelMismatch)));
    assert!(matches!(encode_planes(&[0u8; 8], &[0u8; 8]), Err(EncodeError::PartialBlock)));
    assert!(matches!(encode_planes(&[0u8; 24], &[0u8; 16]), Err(EncodeError::ChannelMismatch)));
    let blocks = encode_planes(&[9u8; 32], &[4u8; 32]).unwrap();
    assert_eq!(blocks.len(), 2);
    assert_eq!(blocks[1].l.a, 9);
    assert_eq!(blocks[1].a.a, 4);
}
