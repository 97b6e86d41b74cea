//! Decoding an upload into upright RGB pixels, and resizing pixels, through
//! `image` and `fast_image_resize`.
use vstd::prelude::*;

verus! {

#[verifier::external_type_specification]
#[verifier::external_body]
pub struct ExImageError(image::ImageError);

/// A decoded upload: its size after the EXIF orientation is applied, and its
/// pixels as rows of 8-bit RGB.
pub struct DecodedImage {
    pub width: u32,
    pub height: u32,
    pub rgb: Vec<u8>,
}

/// The upright image that `bytes` decode to, as its width, height and 8-bit
/// RGB pixels, with width and height each limited to `max_dimension` and the
/// decoder's allocations to `max_alloc` bytes; `None` when the bytes are not
/// an image that decodes within those limits.
pub uninterp spec fn decoded_upright(bytes: Seq<u8>, max_dimension: u32, max_alloc: u64) -> Option<
    (u32, u32, Seq<u8>),
>;

/// The 8-bit RGB pixels of the `width` by `height` image `rgb` resized to
/// `target_width` by `target_height` with the default options of
/// `fast_image_resize`.
pub uninterp spec fn resized_rgb(
    width: u32,
    height: u32,
    rgb: Seq<u8>,
    target_width: u32,
    target_height: u32,
) -> Seq<u8>;

/// `image`: guesses the format of `bytes` (`ImageReader::with_guessed_format`),
/// sets the limits, takes the EXIF orientation off the decoder
/// (`ImageDecoder::orientation`) before decoding (`DynamicImage::from_decoder`),
/// applies it (`apply_orientation`) and converts to 8-bit RGB (`to_rgb8`).
/// The result depends on the bytes and the limits alone (the SIMD paths of the
/// decoders give the same results as their scalar code). Width and height
/// limits are strict, and the pixels fill the image exactly.
#[verifier::external_body]
pub(crate) fn decode_upright(bytes: &[u8], max_dimension: u32, max_alloc: u64) -> (r: Result<
    DecodedImage,
    image::ImageError,
>)
    ensures
        match r {
            Ok(d) => {
                &&& decoded_upright(bytes@, max_dimension, max_alloc) == Some(
                    (d.width, d.height, d.rgb@),
                )
                &&& d.width <= max_dimension && d.height <= max_dimension
                &&& d.rgb@.len() == d.width * d.height * 3
            },
            Err(_) => decoded_upright(bytes@, max_dimension, max_alloc) is None,
        },
{
    let mut limits = image::Limits::default();
    limits.max_image_width = Some(max_dimension);
    limits.max_image_height = Some(max_dimension);
    limits.max_alloc = Some(max_alloc);
    let mut reader = image::ImageReader::new(std::io::Cursor::new(bytes)).with_guessed_format()?;
    reader.limits(limits);
    let mut decoder = reader.into_decoder()?;
    let orientation = image::ImageDecoder::orientation(&mut decoder)?;
    let mut upright = image::DynamicImage::from_decoder(decoder)?;
    upright.apply_orientation(orientation);
    let rgb = upright.to_rgb8();
    Ok(DecodedImage { width: rgb.width(), height: rgb.height(), rgb: rgb.into_raw() })
}

/// The `Display` text of an `image` error.
#[verifier::external_body]
pub(crate) fn image_error_text(e: &image::ImageError) -> (r: String) {
    e.to_string()
}

/// `fast_image_resize`: resizes `rgb`, `width` by `height` 8-bit RGB pixels,
/// to `target_width` by `target_height` with the default options
/// (`Resizer::resize`), giving a buffer of exactly that many pixels. It
/// succeeds whenever `rgb` holds all `width` by `height` pixels: the source
/// image is then accepted (3-byte pixels need no alignment), both images have
/// the same pixel type, and the default crop box is the whole source. The
/// pixels depend on the arguments alone: for 8-bit pixels every CPU extension
/// gives the same result.
#[verifier::external_body]
pub(crate) fn resize_rgb(
    width: u32,
    height: u32,
    rgb: Vec<u8>,
    target_width: u32,
    target_height: u32,
) -> (r: Result<Vec<u8>, String>)
    requires
        width * height * 3 <= isize::MAX,
        target_width * target_height * 3 <= isize::MAX,
    ensures
        rgb@.len() >= width * height * 3 ==> r is Ok,
        r matches Ok(v) ==> v@.len() == target_width * target_height * 3 && v@ == resized_rgb(
            width,
            height,
            rgb@,
            target_width,
            target_height,
        ),
{
    let pixel = fast_image_resize::PixelType::U8x3;
    let src = match fast_image_resize::images::Image::from_vec_u8(width, height, rgb, pixel) {
        Ok(src) => src,
        Err(e) => return Err(e.to_string()),
    };
    let mut dst = fast_image_resize::images::Image::new(target_width, target_height, pixel);
    match fast_image_resize::Resizer::new().resize(&src, &mut dst, &fast_image_resize::ResizeOptions::new()) {
        Ok(()) => Ok(dst.into_vec()),
        Err(e) => Err(e.to_string()),
    }
}

} // verus!
