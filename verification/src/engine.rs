//! The geometry/encoding engine: decode arbitrary image bytes, downscale the
//! main image if it is oversized, center-crop and downscale a square
//! thumbnail, and re-encode both in the fixed output codec.

use crate::codec::{crop_bitmap, decode_bitmap, encode_webp, image_dims, resize_bitmap};
use crate::geometry::{center_crop, fit_dims, fit_within, IMAGE_SIZE, THUMB_SIZE};
use vstd::prelude::*;

verus! {

/// Processing one file failed: the bytes are not a recognized, well-formed
/// image with positive dimensions. This is the engine's only failure; the
/// output codec always accepts the rasters the pipeline hands it.
#[derive(Clone, Copy, PartialEq, Eq, Structural, Debug)]
pub struct DecodeError;

/// The two encoded outputs produced from one source image.
#[derive(Debug)]
pub struct EncodedAsset {
    pub main_bytes: Vec<u8>,
    pub thumb_bytes: Vec<u8>,
}

/// The bytes decode as an image with at least one pixel on each axis.
pub open spec fn decodable(bytes: Seq<u8>) -> bool {
    image_dims(bytes) matches Some(d) && d.0 >= 1 && d.1 >= 1
}

/// Dimensions of the main output for a given source: the source dimensions
/// run through the resize policy.
pub open spec fn main_dims_of(bytes: Seq<u8>) -> (u32, u32)
    recommends
        decodable(bytes),
{
    let d = image_dims(bytes)->Some_0;
    fit_dims(d.0, d.1, IMAGE_SIZE)
}

/// No-upscale law: a source whose dimensions are both within `IMAGE_SIZE`
/// keeps exactly its own dimensions in the main output.
pub proof fn lemma_main_dims_no_upscale(bytes: Seq<u8>)
    requires
        decodable(bytes),
        image_dims(bytes)->Some_0.0 <= IMAGE_SIZE,
        image_dims(bytes)->Some_0.1 <= IMAGE_SIZE,
    ensures
        main_dims_of(bytes) == image_dims(bytes)->Some_0,
{
    let d = image_dims(bytes)->Some_0;
    crate::geometry::lemma_fit_keeps_small_dims(d.0, d.1, IMAGE_SIZE);
}

/// Cap law: a source with either dimension over `IMAGE_SIZE` comes out with
/// neither main dimension above the cap, the longer side exactly at it, and
/// the aspect ratio preserved within one rounding step of the longer side.
pub proof fn lemma_main_dims_capped(bytes: Seq<u8>)
    requires
        decodable(bytes),
        image_dims(bytes)->Some_0.0 > IMAGE_SIZE || image_dims(bytes)->Some_0.1 > IMAGE_SIZE,
    ensures
        ({
            let (w, h) = image_dims(bytes)->Some_0;
            let (rw, rh) = main_dims_of(bytes);
            &&& 1 <= rw <= IMAGE_SIZE
            &&& 1 <= rh <= IMAGE_SIZE
            &&& (if w >= h {
                rw == IMAGE_SIZE && -(w as int) < (h as int) * (IMAGE_SIZE as int) - (rh as int) * (
                w as int) < (w as int)
            } else {
                rh == IMAGE_SIZE && -(h as int) < (w as int) * (IMAGE_SIZE as int) - (rw as int) * (
                h as int) < (h as int)
            })
        }),
{
    let d = image_dims(bytes)->Some_0;
    crate::geometry::lemma_fit_caps_oversized(d.0, d.1, IMAGE_SIZE);
}

impl EncodedAsset {
    /// Both byte sequences decode as valid images in the output codec, and
    /// the thumbnail is square.
    pub open spec fn wf(&self) -> bool {
        &&& image_dims(self.main_bytes@) matches Some(d) && d.0 >= 1 && d.1 >= 1
        &&& image_dims(self.thumb_bytes@) matches Some(t) && t.0 == t.1 && t.0 >= 1
    }
}

/// Process one source image: decode (sniffing the format from the content),
/// resize so that neither dimension exceeds `IMAGE_SIZE` while keeping images
/// that already fit unchanged, encode the result, and encode a
/// `THUMB_SIZE`-square thumbnail cut from the center of the main image.
pub fn process(bytes: &Vec<u8>) -> (r: Result<EncodedAsset, DecodeError>)
    ensures
        r is Ok <==> decodable(bytes@),
        r matches Ok(a) ==> {
            &&& a.wf()
            &&& image_dims(a.main_bytes@) == Some(main_dims_of(bytes@))
            &&& image_dims(a.thumb_bytes@) == Some((THUMB_SIZE, THUMB_SIZE))
        },
{
    let bm = match decode_bitmap(bytes.as_slice()) {
        Ok(bm) => bm,
        Err(_) => {
            return Err(DecodeError);
        },
    };
    if bm.width < 1 || bm.height < 1 {
        return Err(DecodeError);
    }
    let (target_w, target_h) = fit_within(bm.width, bm.height, IMAGE_SIZE);
    let main_bm = if bm.width > IMAGE_SIZE || bm.height > IMAGE_SIZE {
        proof {
            crate::geometry::lemma_fit_caps_oversized(bm.width, bm.height, IMAGE_SIZE);
        }
        resize_bitmap(&bm, target_w, target_h)
    } else {
        bm
    };
    let main_bytes = encode_webp(&main_bm);
    let (crop_x, crop_y, side) = center_crop(main_bm.width, main_bm.height);
    let square = crop_bitmap(&main_bm, crop_x, crop_y, side, side);
    let thumb_bm = resize_bitmap(&square, THUMB_SIZE, THUMB_SIZE);
    let thumb_bytes = encode_webp(&thumb_bm);
    Ok(EncodedAsset { main_bytes, thumb_bytes })
}

} // verus!
