//! DirectDraw-Surface style container: the 128-byte main header, the
//! optional 20-byte extension header used by the block-compressed formats,
//! and their bit-exact little-endian serialization.

use crate::ImageFormat;
use vstd::prelude::*;

verus! {

/// Magic tag opening every container file.
pub const DDS_MAGIC: u32 = 0x20534444;

/// Header flag: required in every file.
pub const DDS_FLAG_CAPS: u32 = 0x1;

/// Header flag: required in every file.
pub const DDS_FLAG_HEIGHT: u32 = 0x2;

/// Header flag: required in every file.
pub const DDS_FLAG_WIDTH: u32 = 0x4;

/// Header flag: set when pitch is given for an uncompressed texture.
pub const DDS_FLAG_PITCH: u32 = 0x8;

/// Header flag: required in every file.
pub const DDS_FLAG_PIXEL_FORMAT: u32 = 0x1000;

/// Header flag: set in a mipmapped texture.
pub const DDS_FLAG_MIPMAP_COUNT: u32 = 0x20000;

/// Header flag: set when pitch is given for a compressed texture.
pub const DDS_FLAG_LINEAR_SIZE: u32 = 0x80000;

/// Header flag: set in a depth texture.
pub const DDS_FLAG_DEPTH: u32 = 0x800000;

/// The combination of the four flags required in every file:
/// caps, height, width and pixel format.
pub const DDS_FLAGS_REQUIRED: u32 = 0x1007;

/// Which members of the main header hold valid data.
#[derive(Debug, Copy, Clone, PartialEq, Eq, Structural)]
pub struct DdsFlags {
    pub bits: u32,
}

impl Default for DdsFlags {
    /// The flags every file starts from: the four required ones.
    fn default() -> (r: Self)
        ensures
            r.bits == DDS_FLAGS_REQUIRED,
    {
        proof {
            assert(0x1u32 | 0x2 | 0x4 | 0x1000 == 0x1007) by (bit_vector);
        }
        DdsFlags { bits: DDS_FLAG_CAPS | DDS_FLAG_HEIGHT | DDS_FLAG_WIDTH | DDS_FLAG_PIXEL_FORMAT }
    }
}

/// Pixel-format flag: the texture carries alpha data.
pub const PF_FLAG_ALPHA_PIXELS: u32 = 0x1;

/// Pixel-format flag: alpha-only data in older files.
pub const PF_FLAG_ALPHA: u32 = 0x2;

/// Pixel-format flag: compressed data, the four-character code is valid.
pub const PF_FLAG_FOURCC: u32 = 0x4;

/// Pixel-format flag: uncompressed RGB data, the masks are valid.
pub const PF_FLAG_RGB: u32 = 0x40;

/// Pixel-format flag: YUV data in older files.
pub const PF_FLAG_YUV: u32 = 0x200;

/// Pixel-format flag: single-channel data in older files.
pub const PF_FLAG_LUMINANCE: u32 = 0x20000;

/// Which fields of the pixel-format sub-structure hold valid data.
#[derive(Debug, Copy, Clone, PartialEq, Eq, Structural)]
pub struct PixelFormatFlags {
    pub bits: u32,
}

/// Channel bit masks of an uncompressed layout.
#[derive(Debug, Copy, Clone, PartialEq, Eq, Structural)]
pub struct RgbaBitMask {
    pub r: u32,
    pub g: u32,
    pub b: u32,
    pub a: u32,
}

/// The 32-byte pixel-format sub-structure of the main header.
#[derive(Debug, Copy, Clone, PartialEq, Eq, Structural)]
pub struct PixelFormat {
    /// Structure size; always 32.
    pub size: u32,
    pub flags: PixelFormatFlags,
    pub fourcc: u32,
    pub rgb_bit_count: u32,
    pub bit_mask: RgbaBitMask,
}

/// Resource dimension tag of the extension header.
#[derive(Debug, Copy, Clone, PartialEq, Eq, Structural)]
pub enum ResourceDimension {
    Unknown,
    Buffer,
    Texture1D,
    Texture2D,
    Texture3D,
}

impl ResourceDimension {
    pub open spec fn spec_code(self) -> u32 {
        match self {
            ResourceDimension::Unknown => 0,
            ResourceDimension::Buffer => 1,
            ResourceDimension::Texture1D => 2,
            ResourceDimension::Texture2D => 3,
            ResourceDimension::Texture3D => 4,
        }
    }

    /// The 32-bit dimension code written into the extension header.
    pub fn code(&self) -> (r: u32)
        ensures
            r == self.spec_code(),
    {
        match self {
            ResourceDimension::Unknown => 0,
            ResourceDimension::Buffer => 1,
            ResourceDimension::Texture1D => 2,
            ResourceDimension::Texture2D => 3,
            ResourceDimension::Texture3D => 4,
        }
    }
}

/// DXGI format code carried by the extension header.  The numeric code of
/// each variant is what `code` returns and what the writer serializes.
#[derive(Debug, Copy, Clone, PartialEq, Eq, Structural)]
#[allow(non_camel_case_types)]
pub enum DxgiFormat {
    DXGI_FORMAT_UNKNOWN,
    DXGI_FORMAT_R32G32B32A32_TYPELESS,
    DXGI_FORMAT_R32G32B32A32_FLOAT,
    DXGI_FORMAT_R32G32B32A32_UINT,
    DXGI_FORMAT_R32G32B32A32_SINT,
    DXGI_FORMAT_R32G32B32_TYPELESS,
    DXGI_FORMAT_R32G32B32_FLOAT,
    DXGI_FORMAT_R32G32B32_UINT,
    DXGI_FORMAT_R32G32B32_SINT,
    DXGI_FORMAT_R16G16B16A16_TYPELESS,
    DXGI_FORMAT_R16G16B16A16_FLOAT,
    DXGI_FORMAT_R16G16B16A16_UNORM,
    DXGI_FORMAT_R16G16B16A16_UINT,
    DXGI_FORMAT_R16G16B16A16_SNORM,
    DXGI_FORMAT_R16G16B16A16_SINT,
    DXGI_FORMAT_R32G32_TYPELESS,
    DXGI_FORMAT_R32G32_FLOAT,
    DXGI_FORMAT_R32G32_UINT,
    DXGI_FORMAT_R32G32_SINT,
    DXGI_FORMAT_R32G8X24_TYPELESS,
    DXGI_FORMAT_D32_FLOAT_S8X24_UINT,
    DXGI_FORMAT_R32_FLOAT_X8X24_TYPELESS,
    DXGI_FORMAT_X32_TYPELESS_G8X24_UINT,
    DXGI_FORMAT_R10G10B10A2_TYPELESS,
    DXGI_FORMAT_R10G10B10A2_UNORM,
    DXGI_FORMAT_R10G10B10A2_UINT,
    DXGI_FORMAT_R11G11B10_FLOAT,
    DXGI_FORMAT_R8G8B8A8_TYPELESS,
    DXGI_FORMAT_R8G8B8A8_UNORM,
    DXGI_FORMAT_R8G8B8A8_UNORM_SRGB,
    DXGI_FORMAT_R8G8B8A8_UINT,
    DXGI_FORMAT_R8G8B8A8_SNORM,
    DXGI_FORMAT_R8G8B8A8_SINT,
    DXGI_FORMAT_R16G16_TYPELESS,
    DXGI_FORMAT_R16G16_FLOAT,
    DXGI_FORMAT_R16G16_UNORM,
    DXGI_FORMAT_R16G16_UINT,
    DXGI_FORMAT_R16G16_SNORM,
    DXGI_FORMAT_R16G16_SINT,
    DXGI_FORMAT_R32_TYPELESS,
    DXGI_FORMAT_D32_FLOAT,
    DXGI_FORMAT_R32_FLOAT,
    DXGI_FORMAT_R32_UINT,
    DXGI_FORMAT_R32_SINT,
    DXGI_FORMAT_R24G8_TYPELESS,
    DXGI_FORMAT_D24_UNORM_S8_UINT,
    DXGI_FORMAT_R24_UNORM_X8_TYPELESS,
    DXGI_FORMAT_X24_TYPELESS_G8_UINT,
    DXGI_FORMAT_R8G8_TYPELESS,
    DXGI_FORMAT_R8G8_UNORM,
    DXGI_FORMAT_R8G8_UINT,
    DXGI_FORMAT_R8G8_SNORM,
    DXGI_FORMAT_R8G8_SINT,
    DXGI_FORMAT_R16_TYPELESS,
    DXGI_FORMAT_R16_FLOAT,
    DXGI_FORMAT_D16_UNORM,
    DXGI_FORMAT_R16_UNORM,
    DXGI_FORMAT_R16_UINT,
    DXGI_FORMAT_R16_SNORM,
    DXGI_FORMAT_R16_SINT,
    DXGI_FORMAT_R8_TYPELESS,
    DXGI_FORMAT_R8_UNORM,
    DXGI_FORMAT_R8_UINT,
    DXGI_FORMAT_R8_SNORM,
    DXGI_FORMAT_R8_SINT,
    DXGI_FORMAT_A8_UNORM,
    DXGI_FORMAT_R1_UNORM,
    DXGI_FORMAT_R9G9B9E5_SHAREDEXP,
    DXGI_FORMAT_R8G8_B8G8_UNORM,
    DXGI_FORMAT_G8R8_G8B8_UNORM,
    DXGI_FORMAT_BC1_TYPELESS,
    DXGI_FORMAT_BC1_UNORM,
    DXGI_FORMAT_BC1_UNORM_SRGB,
    DXGI_FORMAT_BC2_TYPELESS,
    DXGI_FORMAT_BC2_UNORM,
    DXGI_FORMAT_BC2_UNORM_SRGB,
    DXGI_FORMAT_BC3_TYPELESS,
    DXGI_FORMAT_BC3_UNORM,
    DXGI_FORMAT_BC3_UNORM_SRGB,
    DXGI_FORMAT_BC4_TYPELESS,
    DXGI_FORMAT_BC4_UNORM,
    DXGI_FORMAT_BC4_SNORM,
    DXGI_FORMAT_BC5_TYPELESS,
    DXGI_FORMAT_BC5_UNORM,
    DXGI_FORMAT_BC5_SNORM,
    DXGI_FORMAT_B5G6R5_UNORM,
    DXGI_FORMAT_B5G5R5A1_UNORM,
    DXGI_FORMAT_B8G8R8A8_UNORM,
    DXGI_FORMAT_B8G8R8X8_UNORM,
    DXGI_FORMAT_R10G10B10_XR_BIAS_A2_UNORM,
    DXGI_FORMAT_B8G8R8A8_TYPELESS,
    DXGI_FORMAT_B8G8R8A8_UNORM_SRGB,
    DXGI_FORMAT_B8G8R8X8_TYPELESS,
    DXGI_FORMAT_B8G8R8X8_UNORM_SRGB,
    DXGI_FORMAT_BC6H_TYPELESS,
    DXGI_FORMAT_BC6H_UF16,
    DXGI_FORMAT_BC6H_SF16,
    DXGI_FORMAT_BC7_TYPELESS,
    DXGI_FORMAT_BC7_UNORM,
    DXGI_FORMAT_BC7_UNORM_SRGB,
    DXGI_FORMAT_AYUV,
    DXGI_FORMAT_Y410,
    DXGI_FORMAT_Y416,
    DXGI_FORMAT_NV12,
    DXGI_FORMAT_P010,
    DXGI_FORMAT_P016,
    DXGI_FORMAT_420_OPAQUE,
    DXGI_FORMAT_YUY2,
    DXGI_FORMAT_Y210,
    DXGI_FORMAT_Y216,
    DXGI_FORMAT_NV11,
    DXGI_FORMAT_AI44,
    DXGI_FORMAT_IA44,
    DXGI_FORMAT_P8,
    DXGI_FORMAT_A8P8,
    DXGI_FORMAT_B4G4R4A4_UNORM,
    DXGI_FORMAT_P208,
    DXGI_FORMAT_V208,
    DXGI_FORMAT_V408,
    DXGI_FORMAT_SAMPLER_FEEDBACK_MIN_MIP_OPAQUE,
    DXGI_FORMAT_SAMPLER_FEEDBACK_MIP_REGION_USED_OPAQUE,
    DXGI_FORMAT_FORCE_UINT,
}

impl DxgiFormat {
    pub open spec fn spec_code(self) -> u32 {
        match self {
        DxgiFormat::DXGI_FORMAT_UNKNOWN => 0,
        DxgiFormat::DXGI_FORMAT_R32G32B32A32_TYPELESS => 1,
        DxgiFormat::DXGI_FORMAT_R32G32B32A32_FLOAT => 2,
        DxgiFormat::DXGI_FORMAT_R32G32B32A32_UINT => 3,
        DxgiFormat::DXGI_FORMAT_R32G32B32A32_SINT => 4,
        DxgiFormat::DXGI_FORMAT_R32G32B32_TYPELESS => 5,
        DxgiFormat::DXGI_FORMAT_R32G32B32_FLOAT => 6,
        DxgiFormat::DXGI_FORMAT_R32G32B32_UINT => 7,
        DxgiFormat::DXGI_FORMAT_R32G32B32_SINT => 8,
        DxgiFormat::DXGI_FORMAT_R16G16B16A16_TYPELESS => 9,
        DxgiFormat::DXGI_FORMAT_R16G16B16A16_FLOAT => 10,
        DxgiFormat::DXGI_FORMAT_R16G16B16A16_UNORM => 11,
        DxgiFormat::DXGI_FORMAT_R16G16B16A16_UINT => 12,
        DxgiFormat::DXGI_FORMAT_R16G16B16A16_SNORM => 13,
        DxgiFormat::DXGI_FORMAT_R16G16B16A16_SINT => 14,
        DxgiFormat::DXGI_FORMAT_R32G32_TYPELESS => 15,
        DxgiFormat::DXGI_FORMAT_R32G32_FLOAT => 16,
        DxgiFormat::DXGI_FORMAT_R32G32_UINT => 17,
        DxgiFormat::DXGI_FORMAT_R32G32_SINT => 18,
        DxgiFormat::DXGI_FORMAT_R32G8X24_TYPELESS => 19,
        DxgiFormat::DXGI_FORMAT_D32_FLOAT_S8X24_UINT => 20,
        DxgiFormat::DXGI_FORMAT_R32_FLOAT_X8X24_TYPELESS => 21,
        DxgiFormat::DXGI_FORMAT_X32_TYPELESS_G8X24_UINT => 22,
        DxgiFormat::DXGI_FORMAT_R10G10B10A2_TYPELESS => 23,
        DxgiFormat::DXGI_FORMAT_R10G10B10A2_UNORM => 24,
        DxgiFormat::DXGI_FORMAT_R10G10B10A2_UINT => 25,
        DxgiFormat::DXGI_FORMAT_R11G11B10_FLOAT => 26,
        DxgiFormat::DXGI_FORMAT_R8G8B8A8_TYPELESS => 27,
        DxgiFormat::DXGI_FORMAT_R8G8B8A8_UNORM => 28,
        DxgiFormat::DXGI_FORMAT_R8G8B8A8_UNORM_SRGB => 29,
        DxgiFormat::DXGI_FORMAT_R8G8B8A8_UINT => 30,
        DxgiFormat::DXGI_FORMAT_R8G8B8A8_SNORM => 31,
        DxgiFormat::DXGI_FORMAT_R8G8B8A8_SINT => 32,
        DxgiFormat::DXGI_FORMAT_R16G16_TYPELESS => 33,
        DxgiFormat::DXGI_FORMAT_R16G16_FLOAT => 34,
        DxgiFormat::DXGI_FORMAT_R16G16_UNORM => 35,
        DxgiFormat::DXGI_FORMAT_R16G16_UINT => 36,
        DxgiFormat::DXGI_FORMAT_R16G16_SNORM => 37,
        DxgiFormat::DXGI_FORMAT_R16G16_SINT => 38,
        DxgiFormat::DXGI_FORMAT_R32_TYPELESS => 39,
        DxgiFormat::DXGI_FORMAT_D32_FLOAT => 40,
        DxgiFormat::DXGI_FORMAT_R32_FLOAT => 41,
        DxgiFormat::DXGI_FORMAT_R32_UINT => 42,
        DxgiFormat::DXGI_FORMAT_R32_SINT => 43,
        DxgiFormat::DXGI_FORMAT_R24G8_TYPELESS => 44,
        DxgiFormat::DXGI_FORMAT_D24_UNORM_S8_UINT => 45,
        DxgiFormat::DXGI_FORMAT_R24_UNORM_X8_TYPELESS => 46,
        DxgiFormat::DXGI_FORMAT_X24_TYPELESS_G8_UINT => 47,
        DxgiFormat::DXGI_FORMAT_R8G8_TYPELESS => 48,
        DxgiFormat::DXGI_FORMAT_R8G8_UNORM => 49,
        DxgiFormat::DXGI_FORMAT_R8G8_UINT => 50,
        DxgiFormat::DXGI_FORMAT_R8G8_SNORM => 51,
        DxgiFormat::DXGI_FORMAT_R8G8_SINT => 52,
        DxgiFormat::DXGI_FORMAT_R16_TYPELESS => 53,
        DxgiFormat::DXGI_FORMAT_R16_FLOAT => 54,
        DxgiFormat::DXGI_FORMAT_D16_UNORM => 55,
        DxgiFormat::DXGI_FORMAT_R16_UNORM => 56,
        DxgiFormat::DXGI_FORMAT_R16_UINT => 57,
        DxgiFormat::DXGI_FORMAT_R16_SNORM => 58,
        DxgiFormat::DXGI_FORMAT_R16_SINT => 59,
        DxgiFormat::DXGI_FORMAT_R8_TYPELESS => 60,
        DxgiFormat::DXGI_FORMAT_R8_UNORM => 61,
        DxgiFormat::DXGI_FORMAT_R8_UINT => 62,
        DxgiFormat::DXGI_FORMAT_R8_SNORM => 63,
        DxgiFormat::DXGI_FORMAT_R8_SINT => 64,
        DxgiFormat::DXGI_FORMAT_A8_UNORM => 65,
        DxgiFormat::DXGI_FORMAT_R1_UNORM => 66,
        DxgiFormat::DXGI_FORMAT_R9G9B9E5_SHAREDEXP => 67,
        DxgiFormat::DXGI_FORMAT_R8G8_B8G8_UNORM => 68,
        DxgiFormat::DXGI_FORMAT_G8R8_G8B8_UNORM => 69,
        DxgiFormat::DXGI_FORMAT_BC1_TYPELESS => 70,
        DxgiFormat::DXGI_FORMAT_BC1_UNORM => 71,
        DxgiFormat::DXGI_FORMAT_BC1_UNORM_SRGB => 72,
        DxgiFormat::DXGI_FORMAT_BC2_TYPELESS => 73,
        DxgiFormat::DXGI_FORMAT_BC2_UNORM => 74,
        DxgiFormat::DXGI_FORMAT_BC2_UNORM_SRGB => 75,
        DxgiFormat::DXGI_FORMAT_BC3_TYPELESS => 76,
        DxgiFormat::DXGI_FORMAT_BC3_UNORM => 77,
        DxgiFormat::DXGI_FORMAT_BC3_UNORM_SRGB => 78,
        DxgiFormat::DXGI_FORMAT_BC4_TYPELESS => 79,
        DxgiFormat::DXGI_FORMAT_BC4_UNORM => 80,
        DxgiFormat::DXGI_FORMAT_BC4_SNORM => 81,
        DxgiFormat::DXGI_FORMAT_BC5_TYPELESS => 82,
        DxgiFormat::DXGI_FORMAT_BC5_UNORM => 83,
        DxgiFormat::DXGI_FORMAT_BC5_SNORM => 84,
        DxgiFormat::DXGI_FORMAT_B5G6R5_UNORM => 85,
        DxgiFormat::DXGI_FORMAT_B5G5R5A1_UNORM => 86,
        DxgiFormat::DXGI_FORMAT_B8G8R8A8_UNORM => 87,
        DxgiFormat::DXGI_FORMAT_B8G8R8X8_UNORM => 88,
        DxgiFormat::DXGI_FORMAT_R10G10B10_XR_BIAS_A2_UNORM => 89,
        DxgiFormat::DXGI_FORMAT_B8G8R8A8_TYPELESS => 90,
        DxgiFormat::DXGI_FORMAT_B8G8R8A8_UNORM_SRGB => 91,
        DxgiFormat::DXGI_FORMAT_B8G8R8X8_TYPELESS => 92,
        DxgiFormat::DXGI_FORMAT_B8G8R8X8_UNORM_SRGB => 93,
        DxgiFormat::DXGI_FORMAT_BC6H_TYPELESS => 94,
        DxgiFormat::DXGI_FORMAT_BC6H_UF16 => 95,
        DxgiFormat::DXGI_FORMAT_BC6H_SF16 => 96,
        DxgiFormat::DXGI_FORMAT_BC7_TYPELESS => 97,
        DxgiFormat::DXGI_FORMAT_BC7_UNORM => 98,
        DxgiFormat::DXGI_FORMAT_BC7_UNORM_SRGB => 99,
        DxgiFormat::DXGI_FORMAT_AYUV => 100,
        DxgiFormat::DXGI_FORMAT_Y410 => 101,
        DxgiFormat::DXGI_FORMAT_Y416 => 102,
        DxgiFormat::DXGI_FORMAT_NV12 => 103,
        DxgiFormat::DXGI_FORMAT_P010 => 104,
        DxgiFormat::DXGI_FORMAT_P016 => 105,
        DxgiFormat::DXGI_FORMAT_420_OPAQUE => 106,
        DxgiFormat::DXGI_FORMAT_YUY2 => 107,
        DxgiFormat::DXGI_FORMAT_Y210 => 108,
        DxgiFormat::DXGI_FORMAT_Y216 => 109,
        DxgiFormat::DXGI_FORMAT_NV11 => 110,
        DxgiFormat::DXGI_FORMAT_AI44 => 111,
        DxgiFormat::DXGI_FORMAT_IA44 => 112,
        DxgiFormat::DXGI_FORMAT_P8 => 113,
        DxgiFormat::DXGI_FORMAT_A8P8 => 114,
        DxgiFormat::DXGI_FORMAT_B4G4R4A4_UNORM => 115,
        DxgiFormat::DXGI_FORMAT_P208 => 130,
        DxgiFormat::DXGI_FORMAT_V208 => 131,
        DxgiFormat::DXGI_FORMAT_V408 => 132,
        DxgiFormat::DXGI_FORMAT_SAMPLER_FEEDBACK_MIN_MIP_OPAQUE => 133,
        DxgiFormat::DXGI_FORMAT_SAMPLER_FEEDBACK_MIP_REGION_USED_OPAQUE => 134,
        DxgiFormat::DXGI_FORMAT_FORCE_UINT => 0xffffffff,
        }
    }

    /// The 32-bit format code written into the extension header.
    pub fn code(&self) -> (r: u32)
        ensures
            r == self.spec_code(),
    {
        match self {
        DxgiFormat::DXGI_FORMAT_UNKNOWN => 0,
        DxgiFormat::DXGI_FORMAT_R32G32B32A32_TYPELESS => 1,
        DxgiFormat::DXGI_FORMAT_R32G32B32A32_FLOAT => 2,
        DxgiFormat::DXGI_FORMAT_R32G32B32A32_UINT => 3,
        DxgiFormat::DXGI_FORMAT_R32G32B32A32_SINT => 4,
        DxgiFormat::DXGI_FORMAT_R32G32B32_TYPELESS => 5,
        DxgiFormat::DXGI_FORMAT_R32G32B32_FLOAT => 6,
        DxgiFormat::DXGI_FORMAT_R32G32B32_UINT => 7,
        DxgiFormat::DXGI_FORMAT_R32G32B32_SINT => 8,
        DxgiFormat::DXGI_FORMAT_R16G16B16A16_TYPELESS => 9,
        DxgiFormat::DXGI_FORMAT_R16G16B16A16_FLOAT => 10,
        DxgiFormat::DXGI_FORMAT_R16G16B16A16_UNORM => 11,
        DxgiFormat::DXGI_FORMAT_R16G16B16A16_UINT => 12,
        DxgiFormat::DXGI_FORMAT_R16G16B16A16_SNORM => 13,
        DxgiFormat::DXGI_FORMAT_R16G16B16A16_SINT => 14,
        DxgiFormat::DXGI_FORMAT_R32G32_TYPELESS => 15,
        DxgiFormat::DXGI_FORMAT_R32G32_FLOAT => 16,
        DxgiFormat::DXGI_FORMAT_R32G32_UINT => 17,
        DxgiFormat::DXGI_FORMAT_R32G32_SINT => 18,
        DxgiFormat::DXGI_FORMAT_R32G8X24_TYPELESS => 19,
        DxgiFormat::DXGI_FORMAT_D32_FLOAT_S8X24_UINT => 20,
        DxgiFormat::DXGI_FORMAT_R32_FLOAT_X8X24_TYPELESS => 21,
        DxgiFormat::DXGI_FORMAT_X32_TYPELESS_G8X24_UINT => 22,
        DxgiFormat::DXGI_FORMAT_R10G10B10A2_TYPELESS => 23,
        DxgiFormat::DXGI_FORMAT_R10G10B10A2_UNORM => 24,
        DxgiFormat::DXGI_FORMAT_R10G10B10A2_UINT => 25,
        DxgiFormat::DXGI_FORMAT_R11G11B10_FLOAT => 26,
        DxgiFormat::DXGI_FORMAT_R8G8B8A8_TYPELESS => 27,
        DxgiFormat::DXGI_FORMAT_R8G8B8A8_UNORM => 28,
        DxgiFormat::DXGI_FORMAT_R8G8B8A8_UNORM_SRGB => 29,
        DxgiFormat::DXGI_FORMAT_R8G8B8A8_UINT => 30,
        DxgiFormat::DXGI_FORMAT_R8G8B8A8_SNORM => 31,
        DxgiFormat::DXGI_FORMAT_R8G8B8A8_SINT => 32,
        DxgiFormat::DXGI_FORMAT_R16G16_TYPELESS => 33,
        DxgiFormat::DXGI_FORMAT_R16G16_FLOAT => 34,
        DxgiFormat::DXGI_FORMAT_R16G16_UNORM => 35,
        DxgiFormat::DXGI_FORMAT_R16G16_UINT => 36,
        DxgiFormat::DXGI_FORMAT_R16G16_SNORM => 37,
        DxgiFormat::DXGI_FORMAT_R16G16_SINT => 38,
        DxgiFormat::DXGI_FORMAT_R32_TYPELESS => 39,
        DxgiFormat::DXGI_FORMAT_D32_FLOAT => 40,
        DxgiFormat::DXGI_FORMAT_R32_FLOAT => 41,
        DxgiFormat::DXGI_FORMAT_R32_UINT => 42,
        DxgiFormat::DXGI_FORMAT_R32_SINT => 43,
        DxgiFormat::DXGI_FORMAT_R24G8_TYPELESS => 44,
        DxgiFormat::DXGI_FORMAT_D24_UNORM_S8_UINT => 45,
        DxgiFormat::DXGI_FORMAT_R24_UNORM_X8_TYPELESS => 46,
        DxgiFormat::DXGI_FORMAT_X24_TYPELESS_G8_UINT => 47,
        DxgiFormat::DXGI_FORMAT_R8G8_TYPELESS => 48,
        DxgiFormat::DXGI_FORMAT_R8G8_UNORM => 49,
        DxgiFormat::DXGI_FORMAT_R8G8_UINT => 50,
        DxgiFormat::DXGI_FORMAT_R8G8_SNORM => 51,
        DxgiFormat::DXGI_FORMAT_R8G8_SINT => 52,
        DxgiFormat::DXGI_FORMAT_R16_TYPELESS => 53,
        DxgiFormat::DXGI_FORMAT_R16_FLOAT => 54,
        DxgiFormat::DXGI_FORMAT_D16_UNORM => 55,
        DxgiFormat::DXGI_FORMAT_R16_UNORM => 56,
        DxgiFormat::DXGI_FORMAT_R16_UINT => 57,
        DxgiFormat::DXGI_FORMAT_R16_SNORM => 58,
        DxgiFormat::DXGI_FORMAT_R16_SINT => 59,
        DxgiFormat::DXGI_FORMAT_R8_TYPELESS => 60,
        DxgiFormat::DXGI_FORMAT_R8_UNORM => 61,
        DxgiFormat::DXGI_FORMAT_R8_UINT => 62,
        DxgiFormat::DXGI_FORMAT_R8_SNORM => 63,
        DxgiFormat::DXGI_FORMAT_R8_SINT => 64,
        DxgiFormat::DXGI_FORMAT_A8_UNORM => 65,
        DxgiFormat::DXGI_FORMAT_R1_UNORM => 66,
        DxgiFormat::DXGI_FORMAT_R9G9B9E5_SHAREDEXP => 67,
        DxgiFormat::DXGI_FORMAT_R8G8_B8G8_UNORM => 68,
        DxgiFormat::DXGI_FORMAT_G8R8_G8B8_UNORM => 69,
        DxgiFormat::DXGI_FORMAT_BC1_TYPELESS => 70,
        DxgiFormat::DXGI_FORMAT_BC1_UNORM => 71,
        DxgiFormat::DXGI_FORMAT_BC1_UNORM_SRGB => 72,
        DxgiFormat::DXGI_FORMAT_BC2_TYPELESS => 73,
        DxgiFormat::DXGI_FORMAT_BC2_UNORM => 74,
        DxgiFormat::DXGI_FORMAT_BC2_UNORM_SRGB => 75,
        DxgiFormat::DXGI_FORMAT_BC3_TYPELESS => 76,
        DxgiFormat::DXGI_FORMAT_BC3_UNORM => 77,
        DxgiFormat::DXGI_FORMAT_BC3_UNORM_SRGB => 78,
        DxgiFormat::DXGI_FORMAT_BC4_TYPELESS => 79,
        DxgiFormat::DXGI_FORMAT_BC4_UNORM => 80,
        DxgiFormat::DXGI_FORMAT_BC4_SNORM => 81,
        DxgiFormat::DXGI_FORMAT_BC5_TYPELESS => 82,
        DxgiFormat::DXGI_FORMAT_BC5_UNORM => 83,
        DxgiFormat::DXGI_FORMAT_BC5_SNORM => 84,
        DxgiFormat::DXGI_FORMAT_B5G6R5_UNORM => 85,
        DxgiFormat::DXGI_FORMAT_B5G5R5A1_UNORM => 86,
        DxgiFormat::DXGI_FORMAT_B8G8R8A8_UNORM => 87,
        DxgiFormat::DXGI_FORMAT_B8G8R8X8_UNORM => 88,
        DxgiFormat::DXGI_FORMAT_R10G10B10_XR_BIAS_A2_UNORM => 89,
        DxgiFormat::DXGI_FORMAT_B8G8R8A8_TYPELESS => 90,
        DxgiFormat::DXGI_FORMAT_B8G8R8A8_UNORM_SRGB => 91,
        DxgiFormat::DXGI_FORMAT_B8G8R8X8_TYPELESS => 92,
        DxgiFormat::DXGI_FORMAT_B8G8R8X8_UNORM_SRGB => 93,
        DxgiFormat::DXGI_FORMAT_BC6H_TYPELESS => 94,
        DxgiFormat::DXGI_FORMAT_BC6H_UF16 => 95,
        DxgiFormat::DXGI_FORMAT_BC6H_SF16 => 96,
        DxgiFormat::DXGI_FORMAT_BC7_TYPELESS => 97,
        DxgiFormat::DXGI_FORMAT_BC7_UNORM => 98,
        DxgiFormat::DXGI_FORMAT_BC7_UNORM_SRGB => 99,
        DxgiFormat::DXGI_FORMAT_AYUV => 100,
        DxgiFormat::DXGI_FORMAT_Y410 => 101,
        DxgiFormat::DXGI_FORMAT_Y416 => 102,
        DxgiFormat::DXGI_FORMAT_NV12 => 103,
        DxgiFormat::DXGI_FORMAT_P010 => 104,
        DxgiFormat::DXGI_FORMAT_P016 => 105,
        DxgiFormat::DXGI_FORMAT_420_OPAQUE => 106,
        DxgiFormat::DXGI_FORMAT_YUY2 => 107,
        DxgiFormat::DXGI_FORMAT_Y210 => 108,
        DxgiFormat::DXGI_FORMAT_Y216 => 109,
        DxgiFormat::DXGI_FORMAT_NV11 => 110,
        DxgiFormat::DXGI_FORMAT_AI44 => 111,
        DxgiFormat::DXGI_FORMAT_IA44 => 112,
        DxgiFormat::DXGI_FORMAT_P8 => 113,
        DxgiFormat::DXGI_FORMAT_A8P8 => 114,
        DxgiFormat::DXGI_FORMAT_B4G4R4A4_UNORM => 115,
        DxgiFormat::DXGI_FORMAT_P208 => 130,
        DxgiFormat::DXGI_FORMAT_V208 => 131,
        DxgiFormat::DXGI_FORMAT_V408 => 132,
        DxgiFormat::DXGI_FORMAT_SAMPLER_FEEDBACK_MIN_MIP_OPAQUE => 133,
        DxgiFormat::DXGI_FORMAT_SAMPLER_FEEDBACK_MIP_REGION_USED_OPAQUE => 134,
        DxgiFormat::DXGI_FORMAT_FORCE_UINT => 0xffffffff,
        }
    }
}

/// The 20-byte extension header appended for the block-compressed formats,
/// whose layouts the legacy pixel-format fields cannot express.
#[derive(Debug, Copy, Clone, PartialEq, Eq, Structural)]
pub struct Dx10Header {
    pub format: DxgiFormat,
    pub dimension: ResourceDimension,
    pub flag: u32,
    /// Number of elements in a texture array; 0 here, no arrays are written.
    pub array_size: u32,
    pub flags2: u32,
}

/// Width bound under which every pitch computation fits in 32 bits.
pub const MAX_DDS_WIDTH: u32 = 0x07FF_FFFF;

impl ImageFormat {
    pub open spec fn spec_pitch(self, width: u32) -> int {
        if self.spec_is_compressed() {
            let tiles = (width + 3) / 4;
            (if tiles < 1 {
                1
            } else {
                tiles
            }) * self.spec_block_size().unwrap()
        } else {
            (width * self.spec_bits_per_pixel() + 7) / 8
        }
    }

    /// Bytes per scan line for the raw layouts; bytes per block row for the
    /// compressed ones, at least one block wide.  The width bound is what
    /// keeps the products inside 32 bits.
    pub fn pitch(&self, width: u32) -> (r: u32)
        requires
            width <= MAX_DDS_WIDTH,
        ensures
            r == self.spec_pitch(width),
    {
        if self.is_compressed() {
            let tiles = (width + 3) / 4;
            let tiles = if tiles < 1 {
                1
            } else {
                tiles
            };
            tiles * self.block_size().unwrap()
        } else {
            (width * self.bits_per_pixel() + 7) / 8
        }
    }

    pub open spec fn spec_dds_pixel_format_flags(self) -> u32 {
        match self {
            ImageFormat::Rgb8 => PF_FLAG_RGB,
            ImageFormat::Luma8 => PF_FLAG_RGB,
            ImageFormat::Rgba8 => 0x41,
            ImageFormat::LumaAlpha8 => 0x41,
            _ => PF_FLAG_FOURCC,
        }
    }

    /// Pixel-format flags of the layout: plain RGB, RGB with alpha, or a
    /// four-character-coded compressed format.
    pub fn dds_pixel_format_flags(&self) -> (r: PixelFormatFlags)
        ensures
            r.bits == self.spec_dds_pixel_format_flags(),
    {
        proof {
            assert(0x40u32 | 0x1 == 0x41) by (bit_vector);
        }
        match self {
            ImageFormat::Rgb8 | ImageFormat::Luma8 => PixelFormatFlags { bits: PF_FLAG_RGB },
            ImageFormat::Rgba8 | ImageFormat::LumaAlpha8 => PixelFormatFlags {
                bits: PF_FLAG_RGB | PF_FLAG_ALPHA_PIXELS,
            },
            _ => PixelFormatFlags { bits: PF_FLAG_FOURCC },
        }
    }

    pub open spec fn spec_dds_bit_mask(self) -> RgbaBitMask {
        match self {
            ImageFormat::Luma8 => RgbaBitMask { r: 0xFF, g: 0, b: 0, a: 0 },
            ImageFormat::LumaAlpha8 => RgbaBitMask { r: 0x00FF, g: 0, b: 0, a: 0xFF00 },
            ImageFormat::Rgb8 => RgbaBitMask { r: 0x0000FF, g: 0x00FF00, b: 0xFF0000, a: 0 },
            ImageFormat::Rgba8 => RgbaBitMask {
                r: 0x000000FF,
                g: 0x0000FF00,
                b: 0x00FF0000,
                a: 0xFF000000,
            },
            _ => RgbaBitMask { r: 0, g: 0, b: 0, a: 0 },
        }
    }

    /// Channel masks of the uncompressed layouts; all zero for the
    /// compressed ones, whose layout the masks cannot express.
    pub fn dds_bit_mask(&self) -> (r: RgbaBitMask)
        ensures
            r == self.spec_dds_bit_mask(),
    {
        match self {
            ImageFormat::Luma8 => RgbaBitMask { r: 0xFF, g: 0, b: 0, a: 0 },
            ImageFormat::LumaAlpha8 => RgbaBitMask { r: 0x00FF, g: 0, b: 0, a: 0xFF00 },
            ImageFormat::Rgb8 => RgbaBitMask { r: 0x0000FF, g: 0x00FF00, b: 0xFF0000, a: 0 },
            ImageFormat::Rgba8 => RgbaBitMask {
                r: 0x000000FF,
                g: 0x0000FF00,
                b: 0x00FF0000,
                a: 0xFF000000,
            },
            _ => RgbaBitMask { r: 0, g: 0, b: 0, a: 0 },
        }
    }

    pub open spec fn spec_dx10(self) -> bool {
        self.spec_is_compressed()
    }

    /// Whether the format needs the extension header: exactly the
    /// block-compressed targets.
    pub fn dx10(&self) -> (r: bool)
        ensures
            r == self.spec_dx10(),
    {
        match self {
            ImageFormat::Luma8_Bc4
            | ImageFormat::LumaAlpha8_Bc5
            | ImageFormat::Rg8_Bc5
            | ImageFormat::Rgb8_Bc7 => true,
            _ => false,
        }
    }

    pub open spec fn spec_dxgi(self) -> DxgiFormat {
        match self {
            ImageFormat::Luma8_Bc4 => DxgiFormat::DXGI_FORMAT_BC4_UNORM,
            ImageFormat::LumaAlpha8_Bc5 => DxgiFormat::DXGI_FORMAT_BC5_UNORM,
            ImageFormat::Rg8_Bc5 => DxgiFormat::DXGI_FORMAT_BC5_UNORM,
            ImageFormat::Rgb8_Bc7 => DxgiFormat::DXGI_FORMAT_BC7_UNORM,
            _ => DxgiFormat::DXGI_FORMAT_UNKNOWN,
        }
    }

    /// DXGI code of the compressed targets, unknown for the raw layouts.
    pub fn dxgi(&self) -> (r: DxgiFormat)
        ensures
            r == self.spec_dxgi(),
    {
        match self {
            ImageFormat::Luma8_Bc4 => DxgiFormat::DXGI_FORMAT_BC4_UNORM,
            ImageFormat::LumaAlpha8_Bc5 => DxgiFormat::DXGI_FORMAT_BC5_UNORM,
            ImageFormat::Rg8_Bc5 => DxgiFormat::DXGI_FORMAT_BC5_UNORM,
            ImageFormat::Rgb8_Bc7 => DxgiFormat::DXGI_FORMAT_BC7_UNORM,
            _ => DxgiFormat::DXGI_FORMAT_UNKNOWN,
        }
    }

    pub open spec fn spec_fourcc(self) -> u32 {
        if self.spec_is_compressed() {
            0x30315844
        } else {
            0
        }
    }

    /// Four-character code: "DX10" for every compressed target, which defers
    /// the layout to the extension header; 0 otherwise.
    pub fn fourcc(&self) -> (r: u32)
        ensures
            r == self.spec_fourcc(),
    {
        match self {
            ImageFormat::Luma8_Bc4
            | ImageFormat::LumaAlpha8_Bc5
            | ImageFormat::Rg8_Bc5
            | ImageFormat::Rgb8_Bc7 => 0x30315844,
            _ => 0,
        }
    }
}

/// The 124-byte main header.
#[derive(Debug, Copy, Clone)]
pub struct DdsHeader {
    /// Structure size; always 124.
    pub size: u32,
    /// Which members hold valid data.
    pub flags: DdsFlags,
    /// Surface height in pixels.
    pub height: u32,
    /// Surface width in pixels.
    pub width: u32,
    /// Bytes per scan line (uncompressed) or per block row (compressed).
    pub pitch: u32,
    /// Depth of a volume texture; unused otherwise.
    pub depth: u32,
    /// Mipmap level count; unused otherwise.
    pub mip_levels: u32,
    pub reserved: [u32; 11],
    pub spf: PixelFormat,
    pub caps: u32,
    pub caps2: u32,
    pub caps3: u32,
    pub caps4: u32,
    pub reserved2: u32,
}

impl DdsHeader {
    /// Builds the main header for one image of the given format.  The
    /// dimensions of a block-compressed image are rounded down to whole
    /// tiles; the caller is expected to have validated them already.
    pub fn new(width: u32, height: u32, depth: Option<u32>, format: ImageFormat) -> (r: Self)
        requires
            width <= MAX_DDS_WIDTH,
        ensures
            r.size == 124,
            r.flags.bits == if depth is Some {
                DDS_FLAGS_REQUIRED | DDS_FLAG_DEPTH
            } else {
                DDS_FLAGS_REQUIRED
            },
            r.width == if format.spec_is_compressed() {
                ((width / 4) * 4) as u32
            } else {
                width
            },
            r.height == if format.spec_is_compressed() {
                ((height / 4) * 4) as u32
            } else {
                height
            },
            r.pitch == format.spec_pitch(r.width),
            r.depth == depth.unwrap_or(0),
            r.mip_levels == 0,
            forall|j: int| 0 <= j < 11 ==> r.reserved@[j] == 0,
            r.spf == (PixelFormat {
                size: 32,
                flags: PixelFormatFlags { bits: format.spec_dds_pixel_format_flags() },
                fourcc: format.spec_fourcc(),
                rgb_bit_count: format.spec_bits_per_pixel(),
                bit_mask: format.spec_dds_bit_mask(),
            }),
            r.caps == 0x1000,
            r.caps2 == 0 && r.caps3 == 0 && r.caps4 == 0 && r.reserved2 == 0,
    {
        let mut flags = DdsFlags::default();
        if depth.is_some() {
            proof {
                assert(0x1007u32 | 0x800000 == 0x801007 && 0x1007u32 | 0x800000 == (0x1007u32
                    | DDS_FLAG_DEPTH)) by (bit_vector);
            }
            flags = DdsFlags { bits: flags.bits | DDS_FLAG_DEPTH };
        }
        let mut width = width;
        let mut height = height;
        if format.is_compressed() {
            width = (width / 4) * 4;
            height = (height / 4) * 4;
        }
        let depth_val = match depth {
            Some(d) => d,
            None => 0,
        };
        DdsHeader {
            size: 124,
            flags,
            height,
            width,
            pitch: format.pitch(width),
            depth: depth_val,
            mip_levels: 0,
            reserved: [0, 0, 0, 0, 0, 0, 0, 0, 0, 0, 0],
            spf: PixelFormat {
                size: 32,
                flags: format.dds_pixel_format_flags(),
                fourcc: format.fourcc(),
                rgb_bit_count: format.bits_per_pixel(),
                bit_mask: format.dds_bit_mask(),
            },
            caps: 0x1000,
            caps2: 0,
            caps3: 0,
            caps4: 0,
            reserved2: 0,
        }
    }
}

/// The complete container header: magic tag, main header, and the extension
/// header exactly when the format is block-compressed.
#[derive(Debug, Copy, Clone)]
pub struct FullDdsHeader {
    pub magic: u32,
    pub header: DdsHeader,
    pub dx10_header: Option<Dx10Header>,
}

impl FullDdsHeader {
    /// Builds the full header for one image of the given format.
    pub fn new(width: u32, height: u32, depth: Option<u32>, format: ImageFormat) -> (r: Self)
        requires
            width <= MAX_DDS_WIDTH,
        ensures
            r.magic == DDS_MAGIC,
            r.dx10_header == if format.spec_dx10() {
                Some(
                    Dx10Header {
                        format: format.spec_dxgi(),
                        dimension: ResourceDimension::Unknown,
                        flag: 0,
                        array_size: 0,
                        flags2: 0,
                    },
                )
            } else {
                Option::<Dx10Header>::None
            },
            r.header.size == 124,
            r.header.flags.bits == if depth is Some {
                DDS_FLAGS_REQUIRED | DDS_FLAG_DEPTH
            } else {
                DDS_FLAGS_REQUIRED
            },
            r.header.width == if format.spec_is_compressed() {
                ((width / 4) * 4) as u32
            } else {
                width
            },
            r.header.height == if format.spec_is_compressed() {
                ((height / 4) * 4) as u32
            } else {
                height
            },
            r.header.pitch == format.spec_pitch(r.header.width),
            r.header.depth == depth.unwrap_or(0),
            r.header.mip_levels == 0,
            forall|j: int| 0 <= j < 11 ==> r.header.reserved@[j] == 0,
            r.header.spf == (PixelFormat {
                size: 32,
                flags: PixelFormatFlags { bits: format.spec_dds_pixel_format_flags() },
                fourcc: format.spec_fourcc(),
                rgb_bit_count: format.spec_bits_per_pixel(),
                bit_mask: format.spec_dds_bit_mask(),
            }),
            r.header.caps == 0x1000,
            r.header.caps2 == 0 && r.header.caps3 == 0 && r.header.caps4 == 0
                && r.header.reserved2 == 0,
    {
        FullDdsHeader {
            magic: DDS_MAGIC,
            header: DdsHeader::new(width, height, depth, format),
            dx10_header: if format.dx10() {
                Some(
                    Dx10Header {
                        format: format.dxgi(),
                        dimension: ResourceDimension::Unknown,
                        flag: 0,
                        array_size: 0,
                        flags2: 0,
                    },
                )
            } else {
                None
            },
        }
    }
}

/// The four little-endian bytes of a 32-bit word.
pub open spec fn spec_u32_le(x: u32) -> Seq<u8> {
    seq![
        (x & 0xff) as u8,
        ((x >> 8u32) & 0xff) as u8,
        ((x >> 16u32) & 0xff) as u8,
        ((x >> 24u32) & 0xff) as u8,
    ]
}

fn push_u32_le(out: &mut Vec<u8>, x: u32)
    ensures
        final(out)@ == old(out)@ + spec_u32_le(x),
{
    out.push((x & 0xff) as u8);
    out.push(((x >> 8) & 0xff) as u8);
    out.push(((x >> 16) & 0xff) as u8);
    out.push(((x >> 24) & 0xff) as u8);
    assert(out@ =~= old(out)@ + spec_u32_le(x));
}

/// The 32 bytes of the pixel-format sub-structure.
pub open spec fn spec_pixel_format_bytes(pf: PixelFormat) -> Seq<u8> {
    spec_u32_le(pf.size) + spec_u32_le(pf.flags.bits) + spec_u32_le(pf.fourcc) + spec_u32_le(
        pf.rgb_bit_count,
    ) + spec_u32_le(pf.bit_mask.r) + spec_u32_le(pf.bit_mask.g) + spec_u32_le(pf.bit_mask.b)
        + spec_u32_le(pf.bit_mask.a)
}

/// The 124 bytes of the main header: seven leading words, eleven reserved
/// words, the pixel format, four capability words and one reserved word.
pub open spec fn spec_header_bytes(h: DdsHeader) -> Seq<u8> {
    spec_u32_le(h.size) + spec_u32_le(h.flags.bits) + spec_u32_le(h.height) + spec_u32_le(h.width)
        + spec_u32_le(h.pitch) + spec_u32_le(h.depth) + spec_u32_le(h.mip_levels) + spec_u32_le(
        h.reserved@[0],
    ) + spec_u32_le(h.reserved@[1]) + spec_u32_le(h.reserved@[2]) + spec_u32_le(h.reserved@[3])
        + spec_u32_le(h.reserved@[4]) + spec_u32_le(h.reserved@[5]) + spec_u32_le(h.reserved@[6])
        + spec_u32_le(h.reserved@[7]) + spec_u32_le(h.reserved@[8]) + spec_u32_le(h.reserved@[9])
        + spec_u32_le(h.reserved@[10]) + spec_pixel_format_bytes(h.spf) + spec_u32_le(h.caps)
        + spec_u32_le(h.caps2) + spec_u32_le(h.caps3) + spec_u32_le(h.caps4) + spec_u32_le(
        h.reserved2,
    )
}

/// The 20 bytes of the extension header.
pub open spec fn spec_dx10_bytes(d: Dx10Header) -> Seq<u8> {
    spec_u32_le(d.format.spec_code()) + spec_u32_le(d.dimension.spec_code()) + spec_u32_le(d.flag)
        + spec_u32_le(d.array_size) + spec_u32_le(d.flags2)
}

/// The bytes of the complete header: magic tag, main header, and the
/// extension header exactly when it is present.
pub open spec fn spec_full_header_bytes(f: FullDdsHeader) -> Seq<u8> {
    spec_u32_le(f.magic) + spec_header_bytes(f.header) + match f.dx10_header {
        Some(d) => spec_dx10_bytes(d),
        None => Seq::empty(),
    }
}

impl DdsHeader {
    /// Serializes the main header, little-endian and bit-exact.
    pub fn to_bytes(&self) -> (r: Vec<u8>)
        ensures
            r@ == spec_header_bytes(*self),
            r@.len() == 124,
    {
        let mut out: Vec<u8> = Vec::new();
        push_u32_le(&mut out, self.size);
        push_u32_le(&mut out, self.flags.bits);
        push_u32_le(&mut out, self.height);
        push_u32_le(&mut out, self.width);
        push_u32_le(&mut out, self.pitch);
        push_u32_le(&mut out, self.depth);
        push_u32_le(&mut out, self.mip_levels);
        push_u32_le(&mut out, self.reserved[0]);
        push_u32_le(&mut out, self.reserved[1]);
        push_u32_le(&mut out, self.reserved[2]);
        push_u32_le(&mut out, self.reserved[3]);
        push_u32_le(&mut out, self.reserved[4]);
        push_u32_le(&mut out, self.reserved[5]);
        push_u32_le(&mut out, self.reserved[6]);
        push_u32_le(&mut out, self.reserved[7]);
        push_u32_le(&mut out, self.reserved[8]);
        push_u32_le(&mut out, self.reserved[9]);
        push_u32_le(&mut out, self.reserved[10]);
        push_u32_le(&mut out, self.spf.size);
        push_u32_le(&mut out, self.spf.flags.bits);
        push_u32_le(&mut out, self.spf.fourcc);
        push_u32_le(&mut out, self.spf.rgb_bit_count);
        push_u32_le(&mut out, self.spf.bit_mask.r);
        push_u32_le(&mut out, self.spf.bit_mask.g);
        push_u32_le(&mut out, self.spf.bit_mask.b);
        push_u32_le(&mut out, self.spf.bit_mask.a);
        push_u32_le(&mut out, self.caps);
        push_u32_le(&mut out, self.caps2);
        push_u32_le(&mut out, self.caps3);
        push_u32_le(&mut out, self.caps4);
        push_u32_le(&mut out, self.reserved2);
        proof {
            assert(out@ =~= spec_header_bytes(*self));
        }
        out
    }
}

impl Dx10Header {
    /// Serializes the extension header.
    pub fn to_bytes(&self) -> (r: Vec<u8>)
        ensures
            r@ == spec_dx10_bytes(*self),
            r@.len() == 20,
    {
        let mut out: Vec<u8> = Vec::new();
        push_u32_le(&mut out, self.format.code());
        push_u32_le(&mut out, self.dimension.code());
        push_u32_le(&mut out, self.flag);
        push_u32_le(&mut out, self.array_size);
        push_u32_le(&mut out, self.flags2);
        proof {
            assert(out@ =~= spec_dx10_bytes(*self));
        }
        out
    }
}

impl FullDdsHeader {
    /// Serializes the complete header: 128 bytes, or 148 with the extension
    /// header.
    pub fn to_bytes(&self) -> (r: Vec<u8>)
        ensures
            r@ == spec_full_header_bytes(*self),
            r@.len() == if self.dx10_header is Some {
                148int
            } else {
                128int
            },
    {
        let mut out: Vec<u8> = Vec::new();
        push_u32_le(&mut out, self.magic);
        let hdr = self.header.to_bytes();
        let mut i: usize = 0;
        while i < hdr.len()
            invariant
                i <= hdr@.len(),
                out@ == spec_u32_le(self.magic) + hdr@.take(i as int),
            decreases hdr@.len() - i,
        {
            out.push(hdr[i]);
            proof {
                assert(out@ =~= spec_u32_le(self.magic) + hdr@.take(i + 1));
            }
            i = i + 1;
        }
        proof {
            assert(hdr@.take(hdr@.len() as int) =~= hdr@);
        }
        match &self.dx10_header {
            Some(d) => {
                let ext = d.to_bytes();
                let ghost before = out@;
                let mut j: usize = 0;
                while j < ext.len()
                    invariant
                        j <= ext@.len(),
                        ext@ == spec_dx10_bytes(self.dx10_header.unwrap()),
                        out@ == before + ext@.take(j as int),
                    decreases ext@.len() - j,
                {
                    out.push(ext[j]);
                    proof {
                        assert(out@ =~= before + ext@.take(j + 1));
                    }
                    j = j + 1;
                }
                proof {
                    assert(ext@.take(ext@.len() as int) =~= ext@);
                    assert(out@ =~= spec_full_header_bytes(*self));
                }
            },
            None => {
                proof {
                    assert(out@ =~= spec_full_header_bytes(*self));
                }
            },
        }
        out
    }
}

/// Assembles a whole container file: the serialized header followed by the
/// encoded payload, written verbatim with no padding in between.
pub fn write_dds(header: &FullDdsHeader, payload: &[u8]) -> (r: Vec<u8>)
    ensures
        r@ == spec_full_header_bytes(*header) + payload@,
{
    let mut out = header.to_bytes();
    let ghost before = out@;
    let mut i: usize = 0;
    while i < payload.len()
        invariant
            i <= payload@.len(),
            out@ == before + payload@.take(i as int),
        decreases payload@.len() - i,
    {
        out.push(payload[i]);
        proof {
            assert(out@ =~= before + payload@.take(i + 1));
        }
        i = i + 1;
    }
    proof {
        assert(payload@.take(payload@.len() as int) =~= payload@);
    }
    out
}

} // verus!
