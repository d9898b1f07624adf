use vstd::prelude::*;

use crate::buffer::lemma_dims_product_bound;
use crate::extract::PreparedRegion;
use crate::geometry::BBox;

verus! {

/// What `image::imageops::resize` with `FilterType::CatmullRom` returns for
/// an RGBA `w` by `h` buffer resized to `tw` by `th`: a pure function of its
/// arguments, named rather than spelled out.
pub uninterp spec fn resampled_rgba(pixels: Seq<u8>, w: int, h: int, tw: int, th: int) -> Seq<u8>;

/// Relies on `image::imageops::resize` with `FilterType::CatmullRom` on an
/// RGBA buffer: the result is the smooth resample of the input to exactly
/// `tw` by `th` pixels, four bytes each.
#[verifier::external_body]
fn resize_rgba_catmull(data: &Vec<u8>, w: u32, h: u32, tw: u32, th: u32) -> (r: Vec<u8>)
    requires
        data@.len() == w as int * h as int * 4,
        w >= 1,
        h >= 1,
        tw >= 1,
        th >= 1,
    ensures
        r@ == resampled_rgba(data@, w as int, h as int, tw as int, th as int),
        r@.len() == tw as int * th as int * 4,
{
    let img = image::RgbaImage::from_raw(w, h, data.clone()).unwrap();
    image::imageops::resize(&img, tw, th, image::imageops::FilterType::CatmullRom).into_raw()
}

/// `s` adjusted to exactly `target` bytes: truncated when longer, extended
/// with zeros when shorter.
pub open spec fn padded_or_truncated(s: Seq<u8>, target: int) -> Seq<u8> {
    if s.len() >= target {
        s.subrange(0, target)
    } else {
        s + Seq::new((target - s.len()) as nat, |i: int| 0u8)
    }
}

/// Force a buffer to exactly `target` bytes, truncating overflow and
/// zero-padding shortfall.
fn pad_or_truncate(data: Vec<u8>, target: usize) -> (r: Vec<u8>)
    ensures
        r@ == padded_or_truncated(data@, target as int),
        r@.len() == target,
{
    let ghost orig = data@;
    let mut data = data;
    if data.len() >= target {
        while data.len() > target
            invariant
                target <= data@.len() <= orig.len(),
                data@ == orig.subrange(0, data@.len() as int),
            decreases data@.len(),
        {
            proof {
                assert(orig.subrange(0, data@.len() as int).drop_last() =~= orig.subrange(
                    0,
                    data@.len() - 1,
                ));
            }
            data.pop();
        }
        proof {
            assert(data@ == padded_or_truncated(orig, target as int));
        }
    } else {
        proof {
            assert(orig + Seq::new(0nat, |i: int| 0u8) =~= orig);
        }
        while data.len() < target
            invariant
                orig.len() <= data@.len() <= target,
                data@ == padded_or_truncated(orig, data@.len() as int),
            decreases target - data@.len(),
        {
            proof {
                assert(padded_or_truncated(orig, data@.len() as int + 1) =~= padded_or_truncated(
                    orig,
                    data@.len() as int,
                ).push(0u8));
            }
            data.push(0);
        }
    }
    data
}

/// The reconciled output buffer: when the collaborator's dimensions already
/// match, the buffer is taken as is; when they differ and the buffer is
/// consistent with the reported dimensions, it is resampled to the expected
/// size; a buffer inconsistent with its reported dimensions is taken as is.
/// Whatever branch ran, the result is cut or zero-padded to exactly
/// `ew * eh * 4` bytes.
pub open spec fn reconciled(pixels: Seq<u8>, aw: int, ah: int, ew: int, eh: int) -> Seq<u8> {
    let base = if aw == ew && ah == eh {
        pixels
    } else if pixels.len() == aw * ah * 4 && aw >= 1 && ah >= 1 && ew >= 1 && eh >= 1 {
        resampled_rgba(pixels, aw, ah, ew, eh)
    } else {
        pixels
    };
    padded_or_truncated(base, ew * eh * 4)
}

/// Normalize the inpainting collaborator's raw output to the exact pixel
/// dimensions and byte length the caller asked for. If the actual
/// dimensions differ from the expected ones, the pixels are resampled with
/// a smooth filter; then the byte length is forced to
/// `expected_w * expected_h * 4`, zero-padding a short buffer and
/// truncating a long one. This never fails: downstream compositing indexes
/// the buffer by fixed stride, and a mismatch would otherwise be fatal.
pub fn reconcile_output(pixels: Vec<u8>, actual_w: u32, actual_h: u32, expected_w: u32, expected_h: u32) -> (r:
    Vec<u8>)
    requires
        expected_w as int * expected_h as int * 4 <= usize::MAX,
    ensures
        r@ == reconciled(
            pixels@,
            actual_w as int,
            actual_h as int,
            expected_w as int,
            expected_h as int,
        ),
        r@.len() == expected_w as int * expected_h as int * 4,
{
    proof {
        lemma_dims_product_bound(expected_w as int, expected_h as int);
        lemma_dims_product_bound(actual_w as int, actual_h as int);
    }
    let target = expected_w as usize * expected_h as usize * 4;
    let same = actual_w == expected_w && actual_h == expected_h;
    let consistent = pixels.len() as u128 == actual_w as u128 * actual_h as u128 * 4;
    let base = if same {
        pixels
    } else if consistent && actual_w >= 1 && actual_h >= 1 && expected_w >= 1 && expected_h >= 1 {
        resize_rgba_catmull(&pixels, actual_w, actual_h, expected_w, expected_h)
    } else {
        pixels
    };
    pad_or_truncate(base, target)
}

/// The inpainted pixels for one region, normalized to the crop size, with
/// the mask that was sent to the collaborator and the crop origin the
/// caller composites at.
#[derive(Debug)]
pub struct InpaintedRegion {
    /// RGBA pixels, exactly `width * height * 4` bytes.
    pub image: Vec<u8>,
    /// Left edge of the crop in source space.
    pub x: u32,
    /// Top edge of the crop in source space.
    pub y: u32,
    /// Width of the crop.
    pub width: u32,
    /// Height of the crop.
    pub height: u32,
    /// The mask crop that was sent to the collaborator.
    pub mask: Vec<u8>,
    /// Width of the mask crop (equals `width`).
    pub mask_width: u32,
    /// Height of the mask crop (equals `height`).
    pub mask_height: u32,
    /// The padded source-space rectangle of the crop.
    pub padded_bbox: BBox,
}

/// Assemble the final region from a prepared crop pair and the inpainting
/// collaborator's raw answer: reconcile the pixel buffer to the crop size
/// and carry the mask and origin over unchanged. Succeeds for every answer
/// the collaborator can give.
pub fn finish_region(prep: PreparedRegion, pixels: Vec<u8>, actual_w: u32, actual_h: u32) -> (r:
    InpaintedRegion)
    requires
        prep.image_crop.wf(),
        prep.image_crop.width == prep.width,
        prep.image_crop.height == prep.height,
    ensures
        r.image@ == reconciled(
            pixels@,
            actual_w as int,
            actual_h as int,
            prep.width as int,
            prep.height as int,
        ),
        r.image@.len() == prep.width as int * prep.height as int * 4,
        r.x == prep.x,
        r.y == prep.y,
        r.width == prep.width,
        r.height == prep.height,
        r.mask == prep.mask_crop.data,
        r.mask_width == prep.width,
        r.mask_height == prep.height,
        r.padded_bbox == prep.padded_bbox,
{
    let n = prep.image_crop.data.len();
    proof {
        assert(n as int == prep.width as int * prep.height as int * 4);
    }
    let image = reconcile_output(pixels, actual_w, actual_h, prep.width, prep.height);
    InpaintedRegion {
        image,
        x: prep.x,
        y: prep.y,
        width: prep.width,
        height: prep.height,
        mask: prep.mask_crop.data,
        mask_width: prep.width,
        mask_height: prep.height,
        padded_bbox: prep.padded_bbox,
    }
}

} // verus!
