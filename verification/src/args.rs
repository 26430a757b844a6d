//! The encoder front end's option surface and the rule that picks a target
//! format from it.  Parsing the command line itself is left to the caller;
//! the decision from switches to format lives here.

use crate::ImageFormat;
use vstd::prelude::*;

verus! {

/// The front end's options: input path, optional output path, which
/// channels to keep, and whether to block-compress.
#[derive(Debug)]
pub struct Args {
    /// Input image file.
    pub file: String,
    /// Output file; the caller derives one from the input path when absent.
    pub out: Option<String>,
    /// Keep the red channel.
    pub red: bool,
    /// Keep the green channel.
    pub green: bool,
    /// Keep the blue channel.
    pub blue: bool,
    /// Keep the alpha channel.
    pub alpha: bool,
    /// Keep the luma (grayscale) channel; stands in for red.
    pub luma: bool,
    /// Block-compress the output.
    pub compress: bool,
}

impl Args {
    /// The decision table from channel switches to target format.  Luma
    /// counts as the first channel; any unlisted combination falls back to
    /// plain four-channel output.
    pub open spec fn spec_format(self) -> ImageFormat {
        let l = self.red || self.luma;
        if l && !self.green && !self.blue && !self.alpha && !self.compress {
            ImageFormat::Luma8
        } else if l && !self.green && !self.blue && !self.alpha && self.compress {
            ImageFormat::Luma8_Bc4
        } else if l && !self.green && !self.blue && self.alpha && !self.compress {
            ImageFormat::LumaAlpha8
        } else if l && !self.green && !self.blue && self.alpha && self.compress {
            ImageFormat::LumaAlpha8_Bc5
        } else if l && self.green && !self.blue && !self.alpha && self.compress {
            ImageFormat::Rg8_Bc5
        } else if l && self.green && self.blue && !self.alpha && self.compress {
            ImageFormat::Rgb8_Bc7
        } else if l && self.green && self.blue && !self.alpha && !self.compress {
            ImageFormat::Rgb8
        } else {
            ImageFormat::Rgba8
        }
    }

    /// Picks the target format from the switches.
    pub fn format(&self) -> (r: ImageFormat)
        ensures
            r == self.spec_format(),
    {
        match (self.red || self.luma, self.green, self.blue, self.alpha, self.compress) {
            (true, false, false, false, false) => ImageFormat::Luma8,
            (true, false, false, false, true) => ImageFormat::Luma8_Bc4,
            (true, false, false, true, false) => ImageFormat::LumaAlpha8,
            (true, false, false, true, true) => ImageFormat::LumaAlpha8_Bc5,
            (true, true, false, false, true) => ImageFormat::Rg8_Bc5,
            (true, true, true, false, true) => ImageFormat::Rgb8_Bc7,
            (true, true, true, false, false) => ImageFormat::Rgb8,
            (true, true, true, true, _) => ImageFormat::Rgba8,
            _ => ImageFormat::Rgba8,
        }
    }
}

} // verus!
