use asset_formats::dds::{
    write_dds, DdsHeader, DxgiFormat, FullDdsHeader, ResourceDimension, DDS_MAGIC,
};
use asset_formats::ImageFormat;

/// A 16x16 image targeting the BC7 format: width and height 16, pitch 64,
/// extension header present.
#[test]
fn header_16x16_bc7() {
    let h = FullDdsHeader::new(16, 16, None, ImageFormat::Rgb8_Bc7);
    assert_eq!(h.magic, DDS_MAGIC);
    assert_eq!(h.header.width, 16);
    assert_eq!(h.header.height, 16);
    assert_eq!(h.header.pitch, 64);
    assert!(h.dx10_header.is_some());
    let ext = h.dx10_header.unwrap();
    assert_eq!(ext.format, DxgiFormat::DXGI_FORMAT_BC7_UNORM);
    assert_eq!(ext.array_size, 0);
    assert_eq!(h.header.spf.fourcc, 0x30315844);
    assert_eq!(h.header.spf.flags.bits, 0x4);
}

/// The same image targeting the uncompressed 4-channel layout: pitch 64 and
/// no extension header.
#[test]
fn header_16x16_rgba8() {
    let h = FullDdsHeader::new(16, 16, None, ImageFormat::Rgba8);
    assert_eq!(h.header.pitch, 64);
    assert!(h.dx10_header.is_none());
    assert_eq!(h.header.spf.flags.bits, 0x41);
    assert_eq!(h.header.spf.rgb_bit_count, 32);
    assert_eq!(h.header.spf.bit_mask.r, 0x000000FF);
    assert_eq!(h.header.spf.bit_mask.a, 0xFF000000);
    assert_eq!(h.header.spf.fourcc, 0);
}

/// Compressed formats round dimensions down to whole tiles and never report
/// a pitch under one block.
#[test]
fn header_rounding_and_pitch_floor() {
    let h = DdsHeader::new(18, 19, None, ImageFormat::Luma8_Bc4);
    assert_eq!(h.width, 16);
    assert_eq!(h.height, 16);
    assert_eq!(h.pitch, 4 * 8);
    let tiny = DdsHeader::new(2, 2, None, ImageFormat::Rgb8_Bc7);
    assert_eq!(tiny.width, 0);
    assert_eq!(tiny.pitch, 16);
    // uncompressed pitch comes from bits per pixel
    let raw = DdsHeader::new(10, 10, None, ImageFormat::Rgb8);
    assert_eq!(raw.pitch, (10 * 24 + 7) / 8);
}

#[test]
fn header_depth_flag() {
    let h = DdsHeader::new(8, 8, Some(3), ImageFormat::Rgba8);
    assert_eq!(h.depth, 3);
    assert_eq!(h.flags.bits, 0x1007 | 0x800000);
    let flat = DdsHeader::new(8, 8, None, ImageFormat::Rgba8);
    assert_eq!(flat.depth, 0);
    assert_eq!(flat.flags.bits, 0x1007);
}

/// The serialized header is bit-exact: 128 bytes (148 with the extension
/// header), the magic tag first, every field little-endian at its offset.
#[test]
fn header_serialization() {
    let h = FullDdsHeader::new(16, 16, None, ImageFormat::Rgba8);
    let bytes = h.to_bytes();
    assert_eq!(bytes.len(), 128);
    // magic "DDS "
    assert_eq!(&bytes[0..4], &[0x44, 0x44, 0x53, 0x20]);
    // structure size 124
    assert_eq!(&bytes[4..8], &[124, 0, 0, 0]);
    // height and width
    assert_eq!(&bytes[12..16], &[16, 0, 0, 0]);
    assert_eq!(&bytes[16..20], &[16, 0, 0, 0]);
    // pitch 64
    assert_eq!(&bytes[20..24], &[64, 0, 0, 0]);
    // pixel-format size 32 at offset 4 + 72
    assert_eq!(&bytes[76..80], &[32, 0, 0, 0]);
    // caps 0x1000
    assert_eq!(&bytes[108..112], &[0, 0x10, 0, 0]);

    let c = FullDdsHeader::new(16, 16, None, ImageFormat::LumaAlpha8_Bc5);
    let cbytes = c.to_bytes();
    assert_eq!(cbytes.len(), 148);
    // extension header: BC5 code 83, then dimension 0
    assert_eq!(&cbytes[128..132], &[83, 0, 0, 0]);
    assert_eq!(&cbytes[132..136], &[0, 0, 0, 0]);
}

#[test]
fn container_payload_written_verbatim() {
    let h = FullDdsHeader::new(4, 4, None, ImageFormat::Luma8_Bc4);
    let payload = [1u8, 2, 3, 4, 5, 6, 7, 8];
    let file = write_dds(&h, &payload);
    assert_eq!(file.len(), 148 + 8);
    assert_eq!(&file[148..], &payload);
}

#[test]
fn format_codes() {
    assert_eq!(DxgiFormat::DXGI_FORMAT_BC4_UNORM.code(), 80);
    assert_eq!(DxgiFormat::DXGI_FORMAT_BC5_UNORM.code(), 83);
    assert_eq!(DxgiFormat::DXGI_FORMAT_BC7_UNORM.code(), 98);
    assert_eq!(DxgiFormat::DXGI_FORMAT_UNKNOWN.code(), 0);
    assert_eq!(DxgiFormat::DXGI_FORMAT_FORCE_UINT.code(), 0xffff_ffff);
    assert_eq!(ResourceDimension::Texture2D.code(), 3);
    assert_eq!(ImageFormat::Luma8_Bc4.dxgi(), DxgiFormat::DXGI_FORMAT_BC4_UNORM);
    assert_eq!(ImageFormat::Rg8_Bc5.dxgi(), DxgiFormat::DXGI_FORMAT_BC5_UNORM);
    assert_eq!(ImageFormat::Rgb8.dxgi(), DxgiFormat::DXGI_FORMAT_UNKNOWN);
}

#[test]
fn format_properties() {
    assert_eq!(ImageFormat::Luma8.bits_per_pixel(), 8);
    assert_eq!(ImageFormat::LumaAlpha8.bits_per_pixel(), 16);
    assert_eq!(ImageFormat::Rgb8.bits_per_pixel(), 24);
    assert_eq!(ImageFormat::Rgba8.bits_per_pixel(), 32);
    assert_eq!(ImageFormat::Rgb8_Bc7.bits_per_pixel(), 0);
    assert_eq!(ImageFormat::Luma8_Bc4.block_size(), Some(8));
    assert_eq!(ImageFormat::LumaAlpha8_Bc5.block_size(), Some(16));
    assert_eq!(ImageFormat::Rgb8_Bc7.block_size(), Some(16));
    assert_eq!(ImageFormat::Rgb8.block_size(), None);
    assert!(ImageFormat::Rg8_Bc5.is_compressed());
    assert!(!ImageFormat::Luma8.is_compressed());
    assert!(ImageFormat::Rgb8_Bc7.dx10());
    assert!(!ImageFormat::Rgba8.dx10());
    assert_eq!(ImageFormat::Luma8.dds_bit_mask().r, 0xFF);
    assert_eq!(ImageFormat::LumaAlpha8.dds_bit_mask().a, 0xFF00);
    assert_eq!(ImageFormat::Rgb8_Bc7.dds_bit_mask().r, 0);
    assert_eq!(ImageFormat::Luma8.dds_pixel_format_flags().bits, 0x40);
    assert_eq!(ImageFormat::Rgb8_Bc7.fourcc(), 0x30315844);
}
