//! Trusted boundary to the image codec collaborators: reading pixel
//! dimensions from a header, and the decode → crop → downscale → encode
//! chain.  Both are pure functions of their byte and integer arguments, so
//! their results carry names that the rest of the library reasons with.

use crate::crop::CropRectangle;
use vstd::prelude::*;

verus! {

/// Why a transform failed: the source would not decode, or the result would
/// not encode.
#[derive(Clone, Copy, PartialEq, Eq, Structural, Debug)]
pub enum TransformError {
    Decode,
    Encode,
}

/// What `imagesize::blob_size` reads from the header of these bytes:
/// `(width, height)` in pixels, or nothing when no supported header fits.
pub uninterp spec fn header_size_of(data: Seq<u8>) -> Option<(usize, usize)>;

/// Read image pixel dimensions from the bytes' header alone, without a full
/// decode.
///
/// Relies on `imagesize::blob_size`: a pure function of the bytes that
/// recognizes the header or reports an error.
#[verifier::external_body]
pub(crate) fn read_header(data: &Vec<u8>) -> (r: Result<(usize, usize), ()>)
    ensures
        r is Ok <==> header_size_of(data@) is Some,
        r matches Ok(wh) ==> Some(wh) == header_size_of(data@),
{
    match imagesize::blob_size(data) {
        Ok(sz) => Ok((sz.width, sz.height)),
        Err(_) => Err(()),
    }
}

/// Whether `image::load_from_memory` decodes these bytes: a pure function
/// of the bytes alone.
pub uninterp spec fn decodable(data: Seq<u8>) -> bool;

/// What the decode → crop → downscale → encode chain produces for these
/// exact arguments: the final JPEG bytes, or nothing when the chain fails.
pub uninterp spec fn transformed_of(
    data: Seq<u8>,
    x: u32,
    y: u32,
    width: u32,
    height: u32,
    resize_to: Option<(u32, u32)>,
) -> Option<Seq<u8>>;

/// Decode the bytes, cut out `crop`, downscale to `resize_to` when asked,
/// flatten any alpha channel away and encode the result as a baseline JPEG.
///
/// Relies on `image::load_from_memory` (decode), `DynamicImage::crop_imm`,
/// `DynamicImage::resize` with `FilterType::Lanczos3` (fits within the given
/// bounds, keeping the aspect ratio), `DynamicImage::into_rgb8` (drops any
/// alpha channel) and `ImageBuffer::write_to` with `ImageFormat::Jpeg`
/// (encode) — each a pure function of its arguments.
#[verifier::external_body]
pub(crate) fn transform_image(
    data: &Vec<u8>,
    crop: &CropRectangle,
    resize_to: &Option<(u32, u32)>,
) -> (r: Result<Vec<u8>, TransformError>)
    ensures
        r is Ok <==> transformed_of(data@, crop.x, crop.y, crop.width, crop.height, *resize_to)
            is Some,
        r matches Ok(b) ==> Some(b@) == transformed_of(
            data@,
            crop.x,
            crop.y,
            crop.width,
            crop.height,
            *resize_to,
        ),
        (r matches Err(e) && e == TransformError::Decode) <==> !decodable(data@),
{
    let img = match image::load_from_memory(data) {
        Ok(i) => i,
        Err(_) => return Err(TransformError::Decode),
    };
    let img = img.crop_imm(crop.x, crop.y, crop.width, crop.height);
    let img = match resize_to {
        Some((w, h)) => img.resize(*w, *h, image::imageops::FilterType::Lanczos3),
        None => img,
    };
    let mut bytes: Vec<u8> = Vec::new();
    let mut sink = std::io::Cursor::new(&mut bytes);
    match img.into_rgb8().write_to(&mut sink, image::ImageFormat::Jpeg) {
        Ok(()) => Ok(bytes),
        Err(_) => Err(TransformError::Encode),
    }
}

} // verus!
