use vstd::prelude::*;

use crate::buffer::ImageBuf;
use crate::buffer::MaskBuf;
use crate::buffer::crop_image;
use crate::error::CommandError;
use crate::geometry::BBox;
use crate::geometry::mask_space_bbox;
use crate::geometry::pad_and_clamp;
use crate::geometry::padded_bbox;
use crate::geometry::to_mask_space;
use crate::mask::dilated_linf;
use crate::mask::lemma_dilated_linf_binary;
use crate::mask::crop_mask_clamped;
use crate::mask::cropped_clamped;
use crate::mask::dilate_mask;
use crate::mask::erode_mask;
use crate::mask::inverted;
use crate::mask::nearest_resized;
use crate::mask::resize_mask_nearest;
use crate::mask::threshold_mask;
use crate::mask::thresholded;

verus! {

/// Per-call configuration of region extraction and inpainting. Supplied per
/// call; a pure value object with defaults.
#[derive(Debug, Clone, Copy, PartialEq, Eq, Structural)]
pub struct InpaintConfig {
    /// Context padding around the requested box, in pixels.
    pub padding: i32,
    /// The inpainting model's square input resolution.
    pub target_size: u32,
    /// Mask bytes below this value are zeroed before morphology.
    pub mask_threshold: u8,
    /// Erosion radius applied after the resize, in pixels.
    pub mask_erosion: u32,
    /// Optional dilation radius applied before the resize, in pixels.
    pub mask_dilation: u32,
    /// Alpha-compositing feather radius; used by the compositing caller.
    pub feather_radius: u32,
    /// Whether to export debug artifacts.
    pub debug_mode: bool,
}

impl InpaintConfig {
    /// The default configuration.
    pub open spec fn default_spec() -> InpaintConfig {
        InpaintConfig {
            padding: 50,
            target_size: 512,
            mask_threshold: 30,
            mask_erosion: 3,
            mask_dilation: 0,
            feather_radius: 5,
            debug_mode: false,
        }
    }

    /// The morphology radii must fit the morphology primitives, whose
    /// distance fields saturate: anything beyond 254 pixels could not be
    /// told apart from 255.
    pub open spec fn radii_ok(self) -> bool {
        self.mask_dilation <= 254 && self.mask_erosion <= 254
    }
}

impl Default for InpaintConfig {
    fn default() -> (r: Self)
        ensures
            r == InpaintConfig::default_spec(),
    {
        InpaintConfig {
            padding: 50,
            target_size: 512,
            mask_threshold: 30,
            mask_erosion: 3,
            mask_dilation: 0,
            feather_radius: 5,
            debug_mode: false,
        }
    }
}

/// Merge an optional configuration with the two legacy per-field overrides:
/// the explicit padding and debug arguments, when present, replace the
/// configuration's own values.
pub fn resolve_config(config: Option<InpaintConfig>, padding: Option<i32>, debug_mode: Option<
    bool,
>) -> (r: InpaintConfig)
    ensures
        ({
            let base = match config {
                Some(c) => c,
                None => InpaintConfig::default_spec(),
            };
            let with_pad = match padding {
                Some(p) => InpaintConfig { padding: p, ..base },
                None => base,
            };
            r == (match debug_mode {
                Some(d) => InpaintConfig { debug_mode: d, ..with_pad },
                None => with_pad,
            })
        }),
{
    let mut cfg = match config {
        Some(c) => c,
        None => InpaintConfig::default(),
    };
    if let Some(p) = padding {
        cfg.padding = p;
    }
    if let Some(d) = debug_mode {
        cfg.debug_mode = d;
    }
    cfg
}

/// A consistent (image crop, mask crop) pair, ready for the inpainting
/// collaborator, together with the crop origin and size in source space.
#[derive(Debug)]
pub struct PreparedRegion {
    /// The source image cut to the padded rectangle.
    pub image_crop: ImageBuf,
    /// The cleaned mask, resized to exactly the crop size.
    pub mask_crop: MaskBuf,
    /// Left edge of the crop in source space.
    pub x: u32,
    /// Top edge of the crop in source space.
    pub y: u32,
    /// Width of the crop.
    pub width: u32,
    /// Height of the crop.
    pub height: u32,
    /// The padded source-space rectangle the crop was cut from.
    pub padded_bbox: BBox,
}

/// The mask-crop pipeline, stated once: crop the full mask to the padded
/// rectangle mapped into mask space (sampling clamped), zero bytes under
/// the threshold, optionally dilate, resize to the crop size with
/// nearest-neighbor sampling, and optionally erode (as invert, dilate,
/// invert).
pub open spec fn prepared_mask_seq(
    img_w: int,
    img_h: int,
    mask: MaskBuf,
    padded: BBox,
    cfg: InpaintConfig,
) -> Seq<u8> {
    let mrect = mask_space_bbox(padded, img_w, img_h, mask.width as int, mask.height as int);
    let mcw = mrect.width();
    let mch = mrect.height();
    let cw = padded.width();
    let ch = padded.height();
    let cropped = cropped_clamped(mask, mrect.xmin as int, mrect.ymin as int, mcw, mch);
    let thresh = thresholded(cropped, cfg.mask_threshold);
    let morphed = if cfg.mask_dilation > 0 {
        dilated_linf(thresh, mcw, mch, cfg.mask_dilation as int)
    } else {
        thresh
    };
    let resized = nearest_resized(morphed, mcw, mch, cw, ch);
    if cfg.mask_erosion > 0 {
        inverted(dilated_linf(inverted(resized), cw, ch, cfg.mask_erosion as int))
    } else {
        resized
    }
}

/// Whether region extraction succeeds: the padded rectangle must have
/// positive area, the mask must be non-empty, and the padded rectangle must
/// cover at least one mask pixel on each axis.
pub open spec fn region_ok(img: ImageBuf, mask: MaskBuf, bbox: BBox, cfg: InpaintConfig) -> bool {
    let padded = padded_bbox(bbox, cfg.padding as int, img.width as int, img.height as int);
    &&& padded.valid()
    &&& mask.width >= 1
    &&& mask.height >= 1
    &&& mask_space_bbox(
        padded,
        img.width as int,
        img.height as int,
        mask.width as int,
        mask.height as int,
    ).valid()
}

/// Build the inference-ready (image crop, mask crop) pair for one region:
/// pad and clamp the requested rectangle, cut the image to it, map the same
/// padded rectangle into mask space and cut the mask to that (clamping
/// per-pixel sampling), binarize by the threshold, optionally dilate,
/// resize to exactly the crop size with nearest-neighbor sampling, and
/// optionally erode. All geometry is validated before any crop or resize
/// runs; a degenerate padded rectangle or a mask crop that collapses to
/// zero size on an axis is a per-region geometry error, and nothing else
/// fails.
///
/// Every byte of the mask crop is either zero or at least the threshold,
/// whatever the configuration: the thresholding zeroes faint bytes, the
/// morphology is binary, and the mandatory nearest-neighbor resize only
/// selects existing bytes, so no fractional value is ever reintroduced.
pub fn prepare_region(img: &ImageBuf, mask: &MaskBuf, bbox: &BBox, cfg: &InpaintConfig) -> (res:
    Result<PreparedRegion, CommandError>)
    requires
        img.wf(),
        mask.wf(),
        cfg.radii_ok(),
    ensures
        res is Ok <==> region_ok(*img, *mask, *bbox, *cfg),
        res is Err ==> res == Err::<PreparedRegion, CommandError>(CommandError::Geometry),
        res matches Ok(prep) ==> {
            let padded = padded_bbox(*bbox, cfg.padding as int, img.width as int, img.height as int);
            &&& prep.padded_bbox == padded
            &&& prep.x == padded.xmin
            &&& prep.y == padded.ymin
            &&& prep.width == padded.width()
            &&& prep.height == padded.height()
            &&& prep.image_crop.wf()
            &&& prep.image_crop.width == prep.width
            &&& prep.image_crop.height == prep.height
            &&& (forall|i: int, j: int, c: int|
                0 <= i < prep.width && 0 <= j < prep.height && 0 <= c < 4
                    ==> #[trigger] prep.image_crop.at(i, j, c) == img.at(
                    padded.xmin + i,
                    padded.ymin + j,
                    c,
                ))
            &&& prep.mask_crop.wf()
            &&& prep.mask_crop.width == prep.width
            &&& prep.mask_crop.height == prep.height
            &&& prep.mask_crop.data@ == prepared_mask_seq(
                img.width as int,
                img.height as int,
                *mask,
                padded,
                *cfg,
            )
            &&& (forall|n: int|
                0 <= n < prep.mask_crop.data@.len() ==> (#[trigger] prep.mask_crop.data@[n] == 0
                    || prep.mask_crop.data@[n] >= cfg.mask_threshold))
        },
{
    let padded = match pad_and_clamp(bbox, cfg.padding, img.width, img.height) {
        Ok(p) => p,
        Err(e) => {
            return Err(e);
        },
    };
    if mask.width == 0 || mask.height == 0 {
        return Err(CommandError::Geometry);
    }
    proof {
        assert(padded.xmin >= 0 && padded.ymin >= 0);
        assert(padded.xmax <= img.width && padded.ymax <= img.height);
        assert(img.width >= 1 && img.height >= 1);
    }
    let crop_x = padded.xmin as u32;
    let crop_y = padded.ymin as u32;
    let crop_w = (padded.xmax - padded.xmin) as u32;
    let crop_h = (padded.ymax - padded.ymin) as u32;
    let image_crop = crop_image(img, crop_x, crop_y, crop_w, crop_h);
    let mrect = to_mask_space(&padded, img.width, img.height, mask.width, mask.height);
    if !(mrect.xmax > mrect.xmin && mrect.ymax > mrect.ymin) {
        return Err(CommandError::Geometry);
    }
    proof {
        assert(mrect.xmin >= 0 && mrect.ymin >= 0);
        assert(mrect.xmax <= mask.width && mrect.ymax <= mask.height);
    }
    let mcw = (mrect.xmax - mrect.xmin) as u32;
    let mch = (mrect.ymax - mrect.ymin) as u32;
    let cropped = crop_mask_clamped(mask, mrect.xmin as u32, mrect.ymin as u32, mcw, mch);
    let thresh = threshold_mask(&cropped, cfg.mask_threshold);
    let ghost thresh_seq = thresh.data@;
    let morphed = if cfg.mask_dilation > 0 {
        dilate_mask(&thresh, cfg.mask_dilation as u8)
    } else {
        thresh
    };
    let ghost morphed_seq = morphed.data@;
    let resized = resize_mask_nearest(&morphed, crop_w, crop_h);
    let ghost resized_seq = resized.data@;
    let mask_crop = if cfg.mask_erosion > 0 {
        erode_mask(&resized, cfg.mask_erosion as u8)
    } else {
        resized
    };
    proof {
        let thr = cfg.mask_threshold;
        assert forall|n: int|
            0 <= n < morphed_seq.len() implies (#[trigger] morphed_seq[n] == 0 || morphed_seq[n]
            >= thr) by {
            if cfg.mask_dilation > 0 {
                lemma_dilated_linf_binary(thresh_seq, mcw as int, mch as int, cfg.mask_dilation as int);
            }
        }
        assert forall|n: int|
            0 <= n < resized_seq.len() implies (#[trigger] resized_seq[n] == 0 || resized_seq[n]
            >= thr) by {
            assert(morphed_seq.contains(resized_seq[n]));
            let p = choose|p: int| 0 <= p < morphed_seq.len() && morphed_seq[p] == resized_seq[n];
            assert(morphed_seq[p] == 0 || morphed_seq[p] >= thr);
        }
        assert forall|n: int|
            0 <= n < mask_crop.data@.len() implies (#[trigger] mask_crop.data@[n] == 0
            || mask_crop.data@[n] >= thr) by {
            if cfg.mask_erosion > 0 {
                lemma_dilated_linf_binary(
                    inverted(resized_seq),
                    crop_w as int,
                    crop_h as int,
                    cfg.mask_erosion as int,
                );
            }
        }
    }
    Ok(
        PreparedRegion {
            image_crop,
            mask_crop,
            x: crop_x,
            y: crop_y,
            width: crop_w,
            height: crop_h,
            padded_bbox: padded,
        },
    )
}

} // verus!
