//! PNG decoding and encoding, done by the `image` crate.

use crate::buffer::RasterBuffer;
use crate::raster::Raster;
use image::ImageEncoder;
use vstd::prelude::*;

verus! {

#[verifier::external_type_specification]
#[verifier::external_body]
pub struct ExImageError(image::ImageError);

/// A decoded image: its size and four bytes per pixel (red, green, blue,
/// alpha), row by row from the top.
pub(crate) struct Decoded {
    pub width: u32,
    pub height: u32,
    pub rgba: Vec<u8>,
}

/// What the `image` crate decodes a PNG file to: the width, the height and
/// the pixels as 8-bit RGBA bytes, or nothing if it rejects the file.
pub uninterp spec fn png_decoding(file: Seq<u8>) -> Option<(nat, nat, Seq<u8>)>;

/// The PNG file that the `image` crate encodes 8-bit RGBA pixels of the given
/// width and height to, or nothing if it refuses them.
pub uninterp spec fn png_encoding(width: nat, height: nat, rgba: Seq<u8>) -> Option<Seq<u8>>;

/// Calls `image::load_from_memory_with_format` for the PNG format and reads
/// the result as 8-bit RGBA with `DynamicImage::into_rgba8`. Nothing is
/// proved of the decoder; the contract only gives its result a name.
#[verifier::external_body]
pub(crate) fn decode_png(file: &[u8]) -> (res: Result<Decoded, image::ImageError>)
    ensures
        match res {
            Ok(d) => png_decoding(file@) == Some((d.width as nat, d.height as nat, d.rgba@)),
            Err(_) => png_decoding(file@) is None,
        },
{
    let img = image::load_from_memory_with_format(file, image::ImageFormat::Png)?.into_rgba8();
    Ok(Decoded { width: img.width(), height: img.height(), rgba: img.into_raw() })
}

/// Calls `image::codecs::png::PngEncoder::write_image` with the encoder's
/// default settings on 8-bit RGBA pixels. The encoder panics on a buffer
/// whose length does not match the size, which the precondition rules out.
/// Nothing is proved of the encoder; the contract only gives its result a
/// name.
#[verifier::external_body]
pub(crate) fn encode_png(width: u32, height: u32, rgba: &[u8]) -> (res: Result<
    Vec<u8>,
    image::ImageError,
>)
    requires
        rgba@.len() == 4 * width * height,
    ensures
        match res {
            Ok(file) => png_encoding(width as nat, height as nat, rgba@) == Some(file@),
            Err(_) => png_encoding(width as nat, height as nat, rgba@) is None,
        },
{
    let mut file = Vec::new();
    image::codecs::png::PngEncoder::new(&mut file).write_image(
        rgba,
        width,
        height,
        image::ExtendedColorType::Rgba8,
    )?;
    Ok(file)
}

/// The grid that a decoder's output stands for, if the output is a grid: the
/// decoder has to have accepted the file and delivered four bytes for each
/// pixel.
pub open spec fn decoded_raster(decoded: Option<(nat, nat, Seq<u8>)>) -> Option<Raster> {
    match decoded {
        Some((width, height, rgba)) => if rgba.len() == 4 * width * height {
            Some(Raster::from_rgba(width, height, rgba))
        } else {
            None
        },
        None => None,
    }
}

/// The PNG file that a grid is encoded to, if its sides fit the format's
/// 32-bit size fields and the encoder accepts it.
pub open spec fn encoded_raster(raster: Raster) -> Option<Seq<u8>> {
    if raster.width <= u32::MAX && raster.height <= u32::MAX {
        png_encoding(raster.width, raster.height, raster.rgba())
    } else {
        None
    }
}

/// Decodes a PNG file to a pixel buffer.
pub fn read_png(file: &[u8]) -> (out: Option<RasterBuffer>)
    ensures
        match out {
            Some(buffer) => decoded_raster(png_decoding(file@)) == Some(buffer@) && buffer@.wf(),
            None => decoded_raster(png_decoding(file@)) is None,
        },
{
    match decode_png(file) {
        Ok(decoded) => RasterBuffer::from_rgba(
            decoded.width as usize,
            decoded.height as usize,
            decoded.rgba.as_slice(),
        ),
        Err(_) => None,
    }
}

/// Encodes a pixel buffer as a PNG file.
pub fn write_png(buffer: &RasterBuffer) -> (out: Option<Vec<u8>>)
    ensures
        match out {
            Some(file) => encoded_raster(buffer@) == Some(file@),
            None => encoded_raster(buffer@) is None,
        },
{
    let width: usize = buffer.width();
    let height: usize = buffer.height();
    if width > u32::MAX as usize || height > u32::MAX as usize {
        return None;
    }
    let rgba = buffer.to_rgba();
    match encode_png(width as u32, height as u32, rgba.as_slice()) {
        Ok(file) => Some(file),
        Err(_) => None,
    }
}

} // verus!
