//! Thumbnails of images.

use vstd::prelude::*;

use crate::error::NixClipError;
use crate::error::Result;
use crate::text::concat2;

verus! {

/// Width and height of a thumbnail, in pixels.
pub const THUMBNAIL_SIZE: u32 = 64;

/// What decoding says of encoded image data, read as PNG or else as JPEG: the
/// width and height of the image, or why it cannot be decoded.
pub uninterp spec fn image_decode(data: Seq<u8>, png: bool) -> std::result::Result<
    (u32, u32),
    Seq<char>,
>;

/// The PNG encoding of RGBA pixels, or why there is none.
pub uninterp spec fn png_encode(rgba: Seq<u8>, width: u32, height: u32) -> std::result::Result<
    Seq<u8>,
    Seq<char>,
>;

/// Scaling the image that encoded data holds, read as PNG or else as JPEG, to
/// the given width and height can give these RGBA pixels. Which pixels it gives
/// depends on the platform in their last digits, so there may be several.
pub uninterp spec fn can_scale_to(
    data: Seq<u8>,
    png: bool,
    width: u32,
    height: u32,
    rgba: Seq<u8>,
) -> bool;

/// `image::load_from_memory_with_format`, then `image::imageops::resize` with
/// the Lanczos filter: the dimensions of the image, and its pixels at the given
/// size, four bytes for each. Whether there is an image, its dimensions and the
/// text of the error are a fixed function of the data and the format, named
/// [`image_decode`]. The pixels are weighted with a floating-point sine, so they
/// are no such function: they stand in the relation [`can_scale_to`] to the
/// data, the format and the size.
#[verifier::external_body]
fn load_scaled(data: &[u8], png: bool, width: u32, height: u32) -> (r: std::result::Result<
    (Vec<u8>, (u32, u32)),
    String,
>)
    requires
        0 < width <= 4096,
        0 < height <= 4096,
    ensures
        match r {
            Ok((rgba, dimensions)) => {
                &&& image_decode(data@, png) == Ok::<(u32, u32), Seq<char>>(dimensions)
                &&& rgba@.len() == 4 * width * height
                &&& can_scale_to(data@, png, width, height, rgba@)
            },
            Err(e) => image_decode(data@, png) == Err::<(u32, u32), Seq<char>>(e@),
        },
{
    let format = if png { image::ImageFormat::Png } else { image::ImageFormat::Jpeg };
    match image::load_from_memory_with_format(data, format) {
        Ok(img) => {
            let filter = image::imageops::FilterType::Lanczos3;
            let rgba = image::imageops::resize(&img, width, height, filter).into_raw();
            Ok((rgba, (img.width(), img.height())))
        },
        Err(e) => Err(e.to_string()),
    }
}

/// `image::codecs::png::PngEncoder::write_image` on RGBA pixels: a fixed
/// function of the pixels and the dimensions, named [`png_encode`].
#[verifier::external_body]
fn encode_png(rgba: &[u8], width: u32, height: u32) -> (r: std::result::Result<Vec<u8>, String>)
    requires
        rgba@.len() == 4 * width * height,
    ensures
        match r {
            Ok(bytes) => png_encode(rgba@, width, height) == Ok::<Seq<u8>, Seq<char>>(bytes@),
            Err(e) => png_encode(rgba@, width, height) == Err::<Seq<u8>, Seq<char>>(e@),
        },
{
    let mut bytes: Vec<u8> = Vec::new();
    let encoder = image::codecs::png::PngEncoder::new(std::io::Cursor::new(&mut bytes));
    let written = image::ImageEncoder::write_image(
        encoder,
        rgba,
        width,
        height,
        image::ExtendedColorType::Rgba8,
    );
    written.map(|_| bytes).map_err(|e| e.to_string())
}

/// `rgba` are the pixels of a thumbnail of the image that the data holds.
pub open spec fn is_scaled(data: Seq<u8>, png: bool, rgba: Seq<u8>) -> bool {
    &&& rgba.len() == 4 * THUMBNAIL_SIZE * THUMBNAIL_SIZE
    &&& can_scale_to(data, png, THUMBNAIL_SIZE, THUMBNAIL_SIZE, rgba)
}

/// The PNG encoding of the pixels of a thumbnail, or why there is none.
pub open spec fn thumbnail_png(rgba: Seq<u8>) -> std::result::Result<Seq<u8>, Seq<char>> {
    png_encode(rgba, THUMBNAIL_SIZE, THUMBNAIL_SIZE)
}

/// `thumb` is the PNG encoding of a thumbnail of the image that the data holds.
pub open spec fn is_thumbnail(data: Seq<u8>, png: bool, thumb: Seq<u8>) -> bool {
    exists|rgba: Seq<u8>| #[trigger]
        is_scaled(data, png, rgba) && thumbnail_png(rgba) == Ok::<Seq<u8>, Seq<char>>(thumb)
}

/// A thumbnail of the image that the data holds has no PNG encoding, for the
/// reason given.
pub open spec fn is_encoding_failure(data: Seq<u8>, png: bool, reason: Seq<char>) -> bool {
    exists|rgba: Seq<u8>| #[trigger]
        is_scaled(data, png, rgba) && thumbnail_png(rgba) == Err::<Seq<u8>, Seq<char>>(reason)
}

/// Decode image bytes and scale the image to the size of a thumbnail: its RGBA
/// pixels, and the dimensions of the original image.
///
/// # Errors
///
/// [`NixClipError::Image`] where the data cannot be decoded.
pub fn decode_scaled(data: &[u8], png: bool) -> (r: Result<(Vec<u8>, (u32, u32))>)
    ensures
        match (r, image_decode(data@, png)) {
            (Ok((rgba, dimensions)), decoded) => {
                &&& decoded == Ok::<(u32, u32), Seq<char>>(dimensions)
                &&& is_scaled(data@, png, rgba@)
            },
            (Err(e), decoded) => {
                &&& e is Image
                &&& decoded matches Err(reason)
                &&& e.cause() == "failed to decode image: "@ + reason
            },
        },
{
    match load_scaled(data, png, THUMBNAIL_SIZE, THUMBNAIL_SIZE) {
        Err(e) => Err(NixClipError::Image(concat2("failed to decode image: ", e.as_str()))),
        Ok(scaled) => Ok(scaled),
    }
}

/// Encode the RGBA pixels of a thumbnail as PNG.
///
/// # Errors
///
/// [`NixClipError::Image`] where they cannot be encoded.
pub fn encode_thumbnail(rgba: &[u8]) -> (r: Result<Vec<u8>>)
    requires
        rgba@.len() == 4 * THUMBNAIL_SIZE * THUMBNAIL_SIZE,
    ensures
        match r {
            Ok(thumb) => thumbnail_png(rgba@) == Ok::<Seq<u8>, Seq<char>>(thumb@),
            Err(e) => {
                &&& e is Image
                &&& thumbnail_png(rgba@) matches Err(reason)
                &&& e.cause() == "failed to encode thumbnail: "@ + reason
            },
        },
{
    match encode_png(rgba, THUMBNAIL_SIZE, THUMBNAIL_SIZE) {
        Err(e) => Err(NixClipError::Image(concat2("failed to encode thumbnail: ", e.as_str()))),
        Ok(thumb) => Ok(thumb),
    }
}

/// Decode image bytes and produce a PNG thumbnail, with the dimensions of the
/// original image.
///
/// # Errors
///
/// [`NixClipError::Image`] where the data cannot be decoded, or the thumbnail
/// cannot be encoded.
pub fn decode_and_thumbnail(data: &[u8], png: bool) -> (r: Result<(Vec<u8>, (u32, u32))>)
    ensures
        match (r, image_decode(data@, png)) {
            (Ok((thumb, dimensions)), decoded) => {
                &&& decoded == Ok::<(u32, u32), Seq<char>>(dimensions)
                &&& is_thumbnail(data@, png, thumb@)
            },
            (Err(e), Err(reason)) => {
                &&& e is Image
                &&& e.cause() == "failed to decode image: "@ + reason
            },
            (Err(e), Ok(_)) => {
                &&& e is Image
                &&& exists|reason: Seq<char>| #[trigger]
                    is_encoding_failure(data@, png, reason) && e.cause()
                        == "failed to encode thumbnail: "@ + reason
            },
        },
{
    match decode_scaled(data, png) {
        Err(e) => Err(e),
        Ok((rgba, dimensions)) => match encode_thumbnail(&rgba) {
            Err(e) => {
                proof {
                    let reason = thumbnail_png(rgba@)->Err_0;
                    assert(is_encoding_failure(data@, png, reason));
                }
                Err(e)
            },
            Ok(thumb) => Ok((thumb, dimensions)),
        },
    }
}

} // verus!
