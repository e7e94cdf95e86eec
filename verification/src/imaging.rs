//! Trusted wrappers around the imaging library's decoded image.
//!
//! A decoded image is opaque to the verified code: it is carried through
//! the conversion pipeline, and the wrappers below read its dimensions,
//! resample it and encode it. Each result is a deterministic function of
//! the arguments alone, so it is given a name that the callers' contracts
//! speak of; nothing is claimed of the pixel data itself.

use vstd::prelude::*;

use crate::converter::TargetFormat;

verus! {

/// The imaging library's decoded image, declared so that it can be held
/// and passed through the verified code.
#[verifier::external_type_specification]
#[verifier::external_body]
pub struct ExDynamicImage(image::DynamicImage);

/// The width of an image's pixel buffer.
pub uninterp spec fn width_of(img: image::DynamicImage) -> u32;

/// The height of an image's pixel buffer.
pub uninterp spec fn height_of(img: image::DynamicImage) -> u32;

/// The image that Lanczos resampling toward the given bounds produces.
pub uninterp spec fn resized_of(img: image::DynamicImage, width: u32, height: u32) -> image::DynamicImage;

/// What encoding an image in a format at a quality produces: the encoded
/// bytes, or the encoder's error message.
pub uninterp spec fn encoded_of(img: image::DynamicImage, fmt: TargetFormat, quality: u8) -> Result<Seq<u8>, Seq<char>>;

/// Relies on image::DynamicImage::width: the width of the pixel buffer.
#[verifier::external_body]
pub(crate) fn image_width(img: &image::DynamicImage) -> (r: u32)
    ensures
        r == width_of(*img),
{
    img.width()
}

/// Relies on image::DynamicImage::height: the height of the pixel buffer.
#[verifier::external_body]
pub(crate) fn image_height(img: &image::DynamicImage) -> (r: u32)
    ensures
        r == height_of(*img),
{
    img.height()
}

/// Relies on image::DynamicImage::resize: resamples with the Lanczos
/// window to the largest size that fits within the given bounds while
/// keeping the aspect ratio; bounds of zero are raised to one. Never
/// fails; the result depends on the image and the bounds alone.
#[verifier::external_body]
pub(crate) fn resize_lanczos(img: &image::DynamicImage, width: u32, height: u32) -> (r:
    image::DynamicImage)
    ensures
        r == resized_of(*img, width, height),
{
    img.resize(width, height, image::imageops::FilterType::Lanczos3)
}

/// Relies on image::DynamicImage's Clone implementation: the copy equals
/// the original.
#[verifier::external_body]
pub(crate) fn clone_image(img: &image::DynamicImage) -> (r: image::DynamicImage)
    ensures
        r == *img,
{
    img.clone()
}

/// Relies on image::DynamicImage::write_to: encodes the pixels into an
/// in-memory byte buffer in the requested format, deterministically in
/// the image, the format and the quality. The quality level is read by
/// the JPEG encoder alone; on failure the error's display text is
/// returned. The WebP target is handled elsewhere and refused here.
#[verifier::external_body]
pub(crate) fn write_image_bytes(img: &image::DynamicImage, fmt: &TargetFormat, quality: u8) -> (r:
    Result<Vec<u8>, String>)
    requires
        *fmt != TargetFormat::Webp,
    ensures
        match r {
            Ok(bytes) => encoded_of(*img, *fmt, quality) == Ok::<Seq<u8>, Seq<char>>(bytes@),
            Err(message) => encoded_of(*img, *fmt, quality) == Err::<Seq<u8>, Seq<char>>(message@),
        },
{
    let f = match fmt {
        TargetFormat::Png => image::ImageOutputFormat::Png,
        TargetFormat::Jpeg => image::ImageOutputFormat::Jpeg(quality),
        TargetFormat::Gif => image::ImageOutputFormat::Gif,
        TargetFormat::Bmp => image::ImageOutputFormat::Bmp,
        TargetFormat::Ico => image::ImageOutputFormat::Ico,
        TargetFormat::Tiff => image::ImageOutputFormat::Tiff,
        TargetFormat::Tga => image::ImageOutputFormat::Tga,
        TargetFormat::Webp => return Err(String::new()),
    };
    let mut buf = std::io::Cursor::new(Vec::new());
    match img.write_to(&mut buf, f) {
        Ok(()) => Ok(buf.into_inner()),
        Err(e) => Err(e.to_string()),
    }
}

} // verus!
