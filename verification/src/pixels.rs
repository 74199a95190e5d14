//! The captured screenshot: decoding it from the bytes of an image file, and
//! reading its size and pixels.
//!
//! Its contents are named by `image_samples` (the raw RGBA sample buffer)
//! and `image_dimensions` (the width and height it was made with); the
//! wrappers below state what the `image` crate's decoder,
//! `ImageBuffer::dimensions` and `ImageBuffer::get_pixel` give in terms of
//! those names.

use image::RgbaImage;
use vstd::prelude::*;

verus! {

/// A captured screen image: an RGBA image of 8 bits per sample, read only
/// through the names and functions of this module.
#[verifier::external_body]
pub struct Screenshot(RgbaImage);

#[verifier::external_type_specification]
#[verifier::external_body]
pub struct ExImageError(image::ImageError);

/// The raw sample buffer of an RGBA image: four samples (red, green, blue,
/// alpha) per pixel, row after row.
pub uninterp spec fn image_samples(img: Screenshot) -> Seq<u8>;

/// The width and height that an RGBA image was made with.
pub uninterp spec fn image_dimensions(img: Screenshot) -> (u32, u32);

/// Index of the first sample of pixel `(x, y)` in an image of the given width.
pub open spec fn sample_index(width: int, x: int, y: int) -> int {
    4 * (y * width + x)
}

/// Whether the sample buffer holds all pixels of the image: four samples for
/// each of its `width * height` pixels.
pub open spec fn samples_fit(img: Screenshot) -> bool {
    image_samples(img).len() >= 4 * (image_dimensions(img).0 as int) * (image_dimensions(img).1 as int)
}

/// Red, green and blue samples of pixel `(x, y)`.
pub open spec fn pixel_rgb(img: Screenshot, x: int, y: int) -> Seq<u8> {
    let i = sample_index(image_dimensions(img).0 as int, x, y);
    image_samples(img).subrange(i, i + 3)
}

/// `ImageBuffer::dimensions`: returns the width and height the buffer holds.
/// The buffer's constructors only accept a sample buffer of at least
/// `4 * width * height` samples, which the second clause states.
#[verifier::external_body]
pub(crate) fn image_size(img: &Screenshot) -> (res: (u32, u32))
    ensures
        res == image_dimensions(*img),
        image_samples(*img).len() >= 4 * (res.0 as int) * (res.1 as int),
{
    img.0.dimensions()
}

/// `ImageBuffer::get_pixel`: for `(x, y)` inside the image, returns the four
/// samples that start at index `4 * (y * width + x)` of the sample buffer.
/// It panics outside the image, which `requires` leaves out.
#[verifier::external_body]
pub(crate) fn image_pixel(img: &Screenshot, x: u32, y: u32) -> (res: [u8; 4])
    requires
        x < image_dimensions(*img).0,
        y < image_dimensions(*img).1,
    ensures
        ({
            let i = sample_index(image_dimensions(*img).0 as int, x as int, y as int);
            res@ == image_samples(*img).subrange(i, i + 4)
        }),
{
    img.0.get_pixel(x, y).0
}

/// What the `image` crate decodes from the bytes of an image file, as RGBA
/// with 8 bits per sample: the width, the height and the sample buffer, or
/// nothing when the bytes are not an image it can decode.
pub uninterp spec fn decoded_image(bytes: Seq<u8>) -> Option<(u32, u32, Seq<u8>)>;

/// `image::load_from_memory` followed by `DynamicImage::to_rgba8`: decodes an
/// image file of a format recognised from its contents and converts it to
/// RGBA. The result is named by `decoded_image`; on failure the crate's
/// error comes back. Which error it is (an unknown format, malformed data,
/// a limit exceeded) is left unsaid.
#[verifier::external_body]
fn decode_rgba(bytes: &[u8]) -> (res: Result<Screenshot, image::ImageError>)
    ensures
        match res {
            Ok(shot) => decoded_image(bytes@) == Some(
                (image_dimensions(shot).0, image_dimensions(shot).1, image_samples(shot)),
            ),
            Err(_) => (decoded_image(bytes@) is None),
        },
{
    match image::load_from_memory(bytes) {
        Ok(img) => Ok(Screenshot(img.to_rgba8())),
        Err(err) => Err(err),
    }
}

/// Why a capture could not be turned into a screenshot.
#[derive(Debug)]
pub enum CaptureError {
    /// The captured file is not an image that can be decoded; the decoder's
    /// error tells why.
    Image(image::ImageError),
}

/// The screenshot held in the bytes of a captured image file: its size and
/// samples are what the file decodes to; when it does not decode, the
/// decoder's error.
pub fn decode_screenshot(bytes: &[u8]) -> (res: Result<Screenshot, CaptureError>)
    ensures
        match res {
            Ok(shot) => decoded_image(bytes@) == Some(
                (image_dimensions(shot).0, image_dimensions(shot).1, image_samples(shot)),
            ),
            Err(_) => (decoded_image(bytes@) is None),
        },
{
    match decode_rgba(bytes) {
        Ok(shot) => Ok(shot),
        Err(err) => Err(CaptureError::Image(err)),
    }
}

} // verus!
