//! Trusted boundary around the `image` crate: format sniffing and decoding,
//! resampling, cropping, and WebP encoding. Everything else in the pipeline
//! is verified against the contracts stated here.

use vstd::prelude::*;

verus! {

/// `image::DynamicImage`, the codec's decoded raster, carried opaquely.
#[verifier::external_type_specification]
#[verifier::external_body]
pub struct ExDynamicImage(image::DynamicImage);

/// `image::ImageError`, the codec's error type, carried opaquely and mapped
/// to this crate's own errors by the callers.
#[verifier::external_type_specification]
#[verifier::external_body]
pub struct ExImageError(image::ImageError);

/// The pixel dimensions that the codec's decoder reads from a byte sequence,
/// or `None` when the bytes are not a recognized, well-formed image — which
/// includes an image whose decoded form would exceed the decoder's default
/// allocation limit. Decoding sniffs the format from the content alone, so
/// this is a pure function of the bytes.
pub uninterp spec fn image_dims(bytes: Seq<u8>) -> Option<(u32, u32)>;

/// A decoded raster carried together with its pixel dimensions. Only the
/// trusted constructors in this module build one, and each fills `width` and
/// `height` by asking the raster itself.
pub(crate) struct Bitmap {
    pub(crate) img: image::DynamicImage,
    pub(crate) width: u32,
    pub(crate) height: u32,
}

/// Relies on `image::ImageReader`: `with_guessed_format` sniffs the format
/// from the leading bytes and `decode` parses the image, failing on
/// unrecognized or malformed input; `width` and `height` report the decoded
/// raster's dimensions.
#[verifier::external_body]
pub(crate) fn decode_bitmap(bytes: &[u8]) -> (r: Result<Bitmap, image::ImageError>)
    ensures
        r is Ok <==> image_dims(bytes@) is Some,
        r matches Ok(bm) ==> image_dims(bytes@) == Some((bm.width, bm.height)),
{
    let reader = match image::ImageReader::new(std::io::Cursor::new(bytes)).with_guessed_format() {
        Ok(reader) => reader,
        Err(e) => return Err(image::ImageError::IoError(e)),
    };
    match reader.decode() {
        Ok(img) => {
            let width = img.width();
            let height = img.height();
            Ok(Bitmap { img, width, height })
        },
        Err(e) => Err(e),
    }
}

/// Relies on `image::DynamicImage::resize_exact` with the `Triangle`
/// (bilinear) filter: the result has exactly the requested dimensions.
#[verifier::external_body]
pub(crate) fn resize_bitmap(bm: &Bitmap, w: u32, h: u32) -> (r: Bitmap)
    requires
        1 <= w <= 4096,
        1 <= h <= 4096,
    ensures
        r.width == w,
        r.height == h,
{
    let img = bm.img.resize_exact(w, h, image::imageops::FilterType::Triangle);
    let width = img.width();
    let height = img.height();
    Bitmap { img, width, height }
}

/// Relies on `image::DynamicImage::crop_imm`: an in-bounds bounding rectangle
/// is cut out exactly, so the result has the rectangle's dimensions.
#[verifier::external_body]
pub(crate) fn crop_bitmap(bm: &Bitmap, x: u32, y: u32, w: u32, h: u32) -> (r: Bitmap)
    requires
        1 <= w,
        1 <= h,
        x + w <= bm.width,
        y + h <= bm.height,
    ensures
        r.width == w,
        r.height == h,
{
    let img = bm.img.crop_imm(x, y, w, h);
    let width = img.width();
    let height = img.height();
    Bitmap { img, width, height }
}

/// Relies on `image::DynamicImage::write_to` with `ImageFormat::WebP`:
/// `write_to` first converts the raster to an 8-bit layout the encoder
/// accepts, the lossless WebP encoder refuses only dimensions of zero or
/// above 16384, and writing into a `Vec` cannot fail — so within the bounds
/// required here encoding always succeeds, and the bytes are a WebP stream
/// carrying this raster's dimensions, small enough for the decoder (under its
/// default allocation limit) to read them back.
#[verifier::external_body]
pub(crate) fn encode_webp(bm: &Bitmap) -> (r: Vec<u8>)
    requires
        1 <= bm.width <= 4096,
        1 <= bm.height <= 4096,
    ensures
        image_dims(r@) == Some((bm.width, bm.height)),
{
    let mut out: Vec<u8> = Vec::new();
    bm.img.write_to(&mut std::io::Cursor::new(&mut out), image::ImageFormat::WebP).unwrap();
    out
}

} // verus!
