use asset_formats::args::Args;
use asset_formats::ImageFormat;

fn args(red: bool, green: bool, blue: bool, alpha: bool, luma: bool, compress: bool) -> Args {
    Args { file: String::new(), out: None, red, green, blue, alpha, luma, compress }
}

/// The full decision table from channel switches to target format.
#[test]
fn format_selection() {
    assert_eq!(args(true, false, false, false, false, false).format(), ImageFormat::Luma8);
    assert_eq!(args(true, false, false, false, false, true).format(), ImageFormat::Luma8_Bc4);
    assert_eq!(args(true, false, false, true, false, false).format(), ImageFormat::LumaAlpha8);
    assert_eq!(args(true, false, false, true, false, true).format(), ImageFormat::LumaAlpha8_Bc5);
    assert_eq!(args(true, true, false, false, false, true).format(), ImageFormat::Rg8_Bc5);
    assert_eq!(args(true, true, true, false, false, true).format(), ImageFormat::Rgb8_Bc7);
    assert_eq!(args(true, true, true, false, false, false).format(), ImageFormat::Rgb8);
    assert_eq!(args(true, true, true, true, false, false).format(), ImageFormat::Rgba8);
    assert_eq!(args(true, true, true, true, false, true).format(), ImageFormat::Rgba8);
}

/// Luma stands in for the first channel.
#[test]
fn luma_counts_as_first_channel() {
    assert_eq!(args(false, false, false, false, true, false).format(), ImageFormat::Luma8);
    assert_eq!(args(false, false, false, false, true, true).format(), ImageFormat::Luma8_Bc4);
}

/// Unlisted switch combinations fall back to four-channel output.
#[test]
fn format_selection_fallback() {
    assert_eq!(args(false, true, false, false, false, false).format(), ImageFormat::Rgba8);
    assert_eq!(args(false, false, false, false, false, false).format(), ImageFormat::Rgba8);
}
