//! Block-compression encoder for GPU texture formats.
//!
//! The crate turns raw 8-bit sample buffers into BC4, BC5 and a restricted
//! BC7 (mode 3) block stream and wraps the result in a DirectDraw-Surface
//! style container header.  Image decoding, cropping and channel extraction
//! are left to the caller: the encoder only ever sees plain sample values.

use vstd::prelude::*;

pub mod args;
pub mod bcn;
pub mod dds;

verus! {

/// Pixel layout of an encoded image: four raw 8-bit layouts and the three
/// block-compressed targets this crate can produce.
#[derive(Debug, Default, Clone, Copy, PartialEq, Eq, Structural)]
#[allow(non_camel_case_types)]
pub enum ImageFormat {
    Luma8,
    LumaAlpha8,
    #[default]
    Rgb8,
    Rgba8,
    Luma8_Bc4,
    LumaAlpha8_Bc5,
    Rg8_Bc5,
    Rgb8_Bc7,
}

impl ImageFormat {
    pub open spec fn spec_bits_per_pixel(self) -> u32 {
        match self {
            ImageFormat::Luma8 => 8,
            ImageFormat::LumaAlpha8 => 16,
            ImageFormat::Rgb8 => 24,
            ImageFormat::Rgba8 => 32,
            _ => 0,
        }
    }

    /// Bits of one pixel in the raw layouts; 0 for the block-compressed ones,
    /// whose size is per block, not per pixel.
    pub fn bits_per_pixel(&self) -> (r: u32)
        ensures
            r == self.spec_bits_per_pixel(),
    {
        match self {
            ImageFormat::Luma8 => 8,
            ImageFormat::LumaAlpha8 => 8 * 2,
            ImageFormat::Rgb8 => 8 * 3,
            ImageFormat::Rgba8 => 8 * 4,
            _ => 0,
        }
    }

    pub open spec fn spec_block_size(self) -> Option<u32> {
        match self {
            ImageFormat::Luma8_Bc4 => Some(8u32),
            ImageFormat::LumaAlpha8_Bc5 => Some(16u32),
            ImageFormat::Rg8_Bc5 => Some(16u32),
            ImageFormat::Rgb8_Bc7 => Some(16u32),
            _ => None,
        }
    }

    /// Bytes of one encoded 4x4 block, for the block-compressed layouts.
    pub fn block_size(&self) -> (r: Option<u32>)
        ensures
            r == self.spec_block_size(),
    {
        match self {
            ImageFormat::Luma8_Bc4 => Some(8),
            ImageFormat::LumaAlpha8_Bc5 | ImageFormat::Rg8_Bc5 => Some(16),
            ImageFormat::Rgb8_Bc7 => Some(16),
            _ => None,
        }
    }

    pub open spec fn spec_is_compressed(self) -> bool {
        match self {
            ImageFormat::Luma8_Bc4 => true,
            ImageFormat::LumaAlpha8_Bc5 => true,
            ImageFormat::Rg8_Bc5 => true,
            ImageFormat::Rgb8_Bc7 => true,
            _ => false,
        }
    }

    pub fn is_compressed(&self) -> (r: bool)
        ensures
            r == self.spec_is_compressed(),
    {
        match self {
            ImageFormat::LumaAlpha8_Bc5
            | ImageFormat::Luma8_Bc4
            | ImageFormat::Rg8_Bc5
            | ImageFormat::Rgb8_Bc7 => true,
            _ => false,
        }
    }
}

} // verus!
