//! Images from the clipboard.

use crate::text::concat;
use base64::Engine;
use vstd::prelude::*;

verus! {

/// The error of the PNG encoder.
#[verifier::external_type_specification]
#[verifier::external_body]
pub struct ExEncodingError(png::EncodingError);

/// Why pixels make no image.
#[derive(Clone, Copy, Debug, PartialEq, Eq, Structural)]
pub enum ImageError {
    /// A side is longer than the format allows.
    LimitsExceeded,
    /// A side is empty, or the pixels do not fill the sides.
    Encoding,
}

/// The PNG file of an image of 8-bit red, green, blue and alpha.
pub uninterp spec fn png_file(width: u32, height: u32, pixels: Seq<u8>) -> Seq<u8>;

/// The base64 text of some bytes, in the standard alphabet with padding.
pub uninterp spec fn base64_text(bytes: Seq<u8>) -> Seq<char>;

/// `png::Encoder::new` with `set_color(Rgba)`, `set_depth(Eight)`, `write_header`,
/// `write_image_data` and `finish`: the file, which begins with the PNG signature. It is refused if
/// a side is empty or if there are not four bytes for every pixel. The number of bytes has to fit
/// into `usize`, or the encoder's own arithmetic overflows.
#[verifier::external_body]
fn encode_rgba(width: u32, height: u32, pixels: &[u8]) -> (file: Result<Vec<u8>, png::EncodingError>)
    requires
        4 * width * height <= usize::MAX,
    ensures
        file is Ok == (width > 0 && height > 0 && pixels@.len() == 4 * width * height),
        file matches Ok(bytes) ==> bytes@ == png_file(width, height, pixels@),
        file matches Ok(bytes) ==> bytes@.len() >= 8 && bytes@.take(8) == seq![
            137u8, 80u8, 78u8, 71u8, 13u8, 10u8, 26u8, 10u8,
        ],
{
    let mut file = Vec::new();
    let mut encoder = png::Encoder::new(&mut file, width, height);
    encoder.set_color(png::ColorType::Rgba);
    encoder.set_depth(png::BitDepth::Eight);
    let mut writer = encoder.write_header()?;
    writer.write_image_data(pixels)?;
    writer.finish()?;
    Ok(file)
}

/// `base64::Engine::encode` of `base64::engine::general_purpose::STANDARD`. It panics if the text
/// is longer than memory can be, so the bytes have to leave room for it.
#[verifier::external_body]
fn encode_base64(bytes: &[u8]) -> (text: String)
    requires
        bytes@.len() <= usize::MAX / 4,
    ensures
        text@ == base64_text(bytes@),
{
    base64::engine::general_purpose::STANDARD.encode(bytes)
}

/// Encodes pixels as a PNG file.
pub fn encode_png(width: usize, height: usize, pixels: &[u8]) -> (file: Result<Vec<u8>, ImageError>)
    requires
        width <= u32::MAX && height <= u32::MAX ==> 4 * width * height <= usize::MAX,
    ensures
        width > u32::MAX || height > u32::MAX ==> file == Err::<Vec<u8>, ImageError>(
            ImageError::LimitsExceeded,
        ),
        width <= u32::MAX && height <= u32::MAX ==> match file {
            Ok(bytes) => width > 0 && height > 0 && pixels@.len() == 4 * width * height && bytes@
                == png_file(width as u32, height as u32, pixels@),
            Err(error) => error == ImageError::Encoding && !(width > 0 && height > 0
                && pixels@.len() == 4 * width * height),
        },
{
    if width > u32::MAX as usize || height > u32::MAX as usize {
        return Err(ImageError::LimitsExceeded);
    }
    match encode_rgba(width as u32, height as u32, pixels) {
        Ok(bytes) => Ok(bytes),
        Err(_) => Err(ImageError::Encoding),
    }
}

/// A PNG file as an address that holds its data.
pub open spec fn png_url(file: Seq<u8>) -> Seq<char> {
    "data:image/png;base64,"@ + base64_text(file)
}

/// A PNG file as an address that holds its data.
pub fn data_url(file: &[u8]) -> (url: String)
    requires
        file@.len() <= usize::MAX / 4,
    ensures
        url@ == png_url(file@),
{
    concat("data:image/png;base64,", encode_base64(file).as_str())
}

/// The address of an image of the clipboard; none where its pixels make no image, or one whose
/// address memory could not hold.
pub fn image_data_url(width: usize, height: usize, pixels: &[u8]) -> (url: Option<String>)
    requires
        width <= u32::MAX && height <= u32::MAX ==> 4 * width * height <= usize::MAX,
    ensures
        match url {
            Some(url) => width <= u32::MAX && height <= u32::MAX && url@ == png_url(
                png_file(width as u32, height as u32, pixels@),
            ),
            None => !(0 < width <= u32::MAX && 0 < height <= u32::MAX && pixels@.len() == 4 * width
                * height && png_file(width as u32, height as u32, pixels@).len() <= usize::MAX / 4),
        },
{
    match encode_png(width, height, pixels) {
        Ok(file) => {
            if file.len() > usize::MAX / 4 {
                return None;
            }
            Some(data_url(file.as_slice()))
        },
        Err(_) => None,
    }
}

} // verus!
