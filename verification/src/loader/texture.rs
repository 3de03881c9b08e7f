//! Image texture decoding through the `image` crate.

use vstd::prelude::*;
use crate::error::{Error, is_texture_error};
use crate::model::{Texture, average_rgb};

verus! {

/// `image::ImageError`, a decoding failure.
#[verifier::external_type_specification]
#[verifier::external_body]
pub struct ExImageError(image::ImageError);

/// Whether `image::guess_format` recognizes the magic bytes at the start of
/// `bytes`.
pub uninterp spec fn image_format_known(bytes: Seq<u8>) -> bool;

/// `bytes` starts with the PNG signature.
pub open spec fn png_signature(bytes: Seq<u8>) -> bool {
    bytes.len() >= 8 && bytes.take(8) == seq![0x89u8, 0x50, 0x4e, 0x47, 0x0d, 0x0a, 0x1a, 0x0a]
}

/// `bytes` starts with the JPEG start-of-image marker.
pub open spec fn jpeg_signature(bytes: Seq<u8>) -> bool {
    bytes.len() >= 3 && bytes.take(3) == seq![0xffu8, 0xd8, 0xff]
}

/// The RGBA8 image that `image::load_from_memory_with_format` decodes from
/// `bytes` in the format `image::guess_format` recognizes in them, as width,
/// height and packed pixels; `None` when decoding fails.
pub uninterp spec fn decoded_rgba8(bytes: Seq<u8>) -> Option<(u32, u32, Seq<u8>)>;

/// Decode image bytes the way the `image` crate does when the format is
/// sniffed from content: `image::guess_format`, then
/// `image::load_from_memory_with_format` with that format, then
/// `DynamicImage::to_rgba8` taken apart into width, height and pixels. The
/// outer error is the guess failing, which happens exactly when no magic bytes
/// are recognized; the inner result is the decoding, a function of the bytes
/// alone. PNG and JPEG signatures are among the magic bytes recognized. An
/// image buffer holds at least four bytes per pixel.
#[verifier::external_body]
fn decode_rgba8(bytes: &[u8]) -> (r: Result<
    Result<(u32, u32, Vec<u8>), image::ImageError>,
    image::ImageError,
>)
    ensures
        r is Ok <==> image_format_known(bytes@),
        png_signature(bytes@) || jpeg_signature(bytes@) ==> r is Ok,
        r matches Ok(d) ==> (d is Ok <==> decoded_rgba8(bytes@) is Some),
        r matches Ok(Ok(t)) ==> decoded_rgba8(bytes@) == Some((t.0, t.1, t.2@)),
        r matches Ok(Ok(t)) ==> t.2@.len() >= 4 * t.0 * t.1,
{
    let format = match image::guess_format(bytes) {
        Ok(f) => f,
        Err(e) => return Err(e),
    };
    match image::load_from_memory_with_format(bytes, format) {
        Ok(image) => {
            let rgba = image.to_rgba8();
            let (width, height) = rgba.dimensions();
            Ok(Ok((width, height, rgba.into_raw())))
        },
        Err(e) => Ok(Err(e)),
    }
}

/// The `Display` text of an `image::ImageError`. Nothing is stated of it.
#[verifier::external_body]
fn image_error_text(err: &image::ImageError) -> String {
    err.to_string()
}

/// Decode image bytes into RGBA8 texture data, recognizing the image format
/// by its content, not by the path's extension.
pub fn decode_texture(path: &str, bytes: &[u8]) -> (r: Result<Texture, Error>)
    ensures
        r is Ok <==> image_format_known(bytes@) && decoded_rgba8(bytes@) is Some,
        r matches Ok(t) ==> {
            &&& t.path@ == path@
            &&& decoded_rgba8(bytes@) == Some((t.width, t.height, t.rgba@))
            &&& t.rgba@.len() >= 4 * t.width * t.height
            &&& t.average_color@ == average_rgb(t.rgba@)
        },
        r matches Err(e) ==> is_texture_error(e, path@),
        png_signature(bytes@) || jpeg_signature(bytes@) ==> (r is Ok <==> decoded_rgba8(bytes@) is Some),
        !image_format_known(bytes@) ==> (r matches Err(Error::TextureDecode { message: m, .. })
            && m@.len() >= "unknown image format: "@.len() && m@.take(
            "unknown image format: "@.len() as int,
        ) == "unknown image format: "@),
{
    match decode_rgba8(bytes) {
        Err(e) => {
            let message = "unknown image format: ".to_owned().concat(image_error_text(&e).as_str());
            Err(Error::texture_decode(path, message))
        },
        Ok(Err(e)) => Err(Error::texture_decode(path, image_error_text(&e))),
        Ok(Ok((width, height, rgba))) => Ok(Texture::new(path.to_owned(), width, height, rgba)),
    }
}

} // verus!
