use vstd::prelude::*;

use crate::error::CommandError;

verus! {

/// An axis-aligned rectangle in integer pixel coordinates. Which coordinate
/// space it lives in (source image, fixed-resolution mask, padded crop) is
/// carried by the signatures of the functions that exchange it, not by a
/// stored field.
#[derive(Debug, Clone, Copy, PartialEq, Eq, Structural)]
pub struct BBox {
    pub xmin: i64,
    pub ymin: i64,
    pub xmax: i64,
    pub ymax: i64,
}

impl BBox {
    /// A rectangle is valid when it has positive area.
    pub open spec fn valid(self) -> bool {
        self.xmin < self.xmax && self.ymin < self.ymax
    }

    pub open spec fn width(self) -> int {
        self.xmax - self.xmin
    }

    pub open spec fn height(self) -> int {
        self.ymax - self.ymin
    }
}

pub open spec fn clamp_spec(v: int, lo: int, hi: int) -> int {
    if v < lo {
        lo
    } else if v > hi {
        hi
    } else {
        v
    }
}

/// One less than a dimension, saturating at zero.
pub open spec fn dim_sub1(d: int) -> int {
    if d <= 0 {
        0
    } else {
        d - 1
    }
}

/// The rectangle after growing `r` by `padding` on every side and clamping
/// into a `width` by `height` image: the minima are clamped to
/// `[0, dim - 1]`, the maxima to `[0, dim]`.
pub open spec fn padded_bbox(r: BBox, padding: int, width: int, height: int) -> BBox {
    BBox {
        xmin: clamp_spec(r.xmin - padding, 0, dim_sub1(width)) as i64,
        ymin: clamp_spec(r.ymin - padding, 0, dim_sub1(height)) as i64,
        xmax: clamp_spec(r.xmax + padding, 0, width) as i64,
        ymax: clamp_spec(r.ymax + padding, 0, height) as i64,
    }
}

fn clamp_i128_to_i64(v: i128, lo: i64, hi: i64) -> (r: i64)
    requires
        lo <= hi,
    ensures
        r as int == clamp_spec(v as int, lo as int, hi as int),
{
    if v < lo as i128 {
        lo
    } else if v > hi as i128 {
        hi
    } else {
        v as i64
    }
}

/// Grow `r` by `padding` on every side, clamped into the image bounds.
/// Fails with a geometry error exactly when the clamped rectangle is
/// degenerate (zero or negative area), which can happen only with a
/// degenerate input or with a rectangle that lies outside the image.
/// The check runs before any crop or resize is attempted.
pub fn pad_and_clamp(r: &BBox, padding: i32, width: u32, height: u32) -> (res: Result<
    BBox,
    CommandError,
>)
    ensures
        res == (if padded_bbox(*r, padding as int, width as int, height as int).valid() {
            Ok::<BBox, CommandError>(padded_bbox(*r, padding as int, width as int, height as int))
        } else {
            Err::<BBox, CommandError>(CommandError::Geometry)
        }),
{
    let w_hi: i64 = if width == 0 {
        0
    } else {
        (width - 1) as i64
    };
    let h_hi: i64 = if height == 0 {
        0
    } else {
        (height - 1) as i64
    };
    let p = padding as i128;
    let xmin = clamp_i128_to_i64(r.xmin as i128 - p, 0, w_hi);
    let ymin = clamp_i128_to_i64(r.ymin as i128 - p, 0, h_hi);
    let xmax = clamp_i128_to_i64(r.xmax as i128 + p, 0, width as i64);
    let ymax = clamp_i128_to_i64(r.ymax as i128 + p, 0, height as i64);
    let padded = BBox { xmin, ymin, xmax, ymax };
    if xmax > xmin && ymax > ymin {
        Ok(padded)
    } else {
        Err(CommandError::Geometry)
    }
}

/// `floor(v * mdim / sdim)` clamped to `[0, mdim - 1]`, the mask-space image
/// of a source-space minimum coordinate.
pub open spec fn scale_floor_clamped(v: int, sdim: int, mdim: int) -> int {
    if v <= 0 {
        0
    } else if (v * mdim) / sdim > mdim - 1 {
        mdim - 1
    } else {
        (v * mdim) / sdim
    }
}

/// `ceil(v * mdim / sdim)` clamped to `[0, mdim]`, the mask-space image of a
/// source-space maximum coordinate.
pub open spec fn scale_ceil_clamped(v: int, sdim: int, mdim: int) -> int {
    if v <= 0 {
        0
    } else if (v * mdim + sdim - 1) / sdim > mdim {
        mdim
    } else {
        (v * mdim + sdim - 1) / sdim
    }
}

/// The image of `r` in mask space: minima are floored, maxima are ceiled, so
/// the mapped rectangle never shrinks below the true footprint of `r`.
pub open spec fn mask_space_bbox(r: BBox, sw: int, sh: int, mw: int, mh: int) -> BBox {
    BBox {
        xmin: scale_floor_clamped(r.xmin as int, sw, mw) as i64,
        ymin: scale_floor_clamped(r.ymin as int, sh, mh) as i64,
        xmax: scale_ceil_clamped(r.xmax as int, sw, mw) as i64,
        ymax: scale_ceil_clamped(r.ymax as int, sh, mh) as i64,
    }
}

fn scale_floor(v: i64, sdim: u32, mdim: u32) -> (r: i64)
    requires
        sdim >= 1,
        mdim >= 1,
    ensures
        r as int == scale_floor_clamped(v as int, sdim as int, mdim as int),
{
    if v <= 0 {
        0
    } else {
        proof {
            let vi: int = v as int;
            let mi: int = mdim as int;
            assert(vi * mi < 0x1000000000000000000000000) by (nonlinear_arith)
                requires
                    0 <= vi < 0x8000000000000000,
                    0 < mi < 0x100000000,
            ;
        }
        let q = (v as u128 * mdim as u128) / sdim as u128;
        if q > (mdim - 1) as u128 {
            (mdim - 1) as i64
        } else {
            q as i64
        }
    }
}

fn scale_ceil(v: i64, sdim: u32, mdim: u32) -> (r: i64)
    requires
        sdim >= 1,
        mdim >= 1,
    ensures
        r as int == scale_ceil_clamped(v as int, sdim as int, mdim as int),
{
    if v <= 0 {
        0
    } else {
        proof {
            let vi: int = v as int;
            let mi: int = mdim as int;
            assert(vi * mi < 0x1000000000000000000000000) by (nonlinear_arith)
                requires
                    0 <= vi < 0x8000000000000000,
                    0 < mi < 0x100000000,
            ;
        }
        let q = (v as u128 * mdim as u128 + (sdim - 1) as u128) / sdim as u128;
        if q > mdim as u128 {
            mdim as i64
        } else {
            q as i64
        }
    }
}

/// Translate a source-space rectangle into the fixed-resolution mask space.
/// Each axis is scaled by `mask_dim / src_dim` independently; minima are
/// floor-clamped to `[0, mask_dim - 1]`, maxima ceil-clamped to
/// `[0, mask_dim]`. The asymmetric floor/ceil policy guarantees the mapped
/// rectangle never loses a source pixel to rounding.
pub fn to_mask_space(r: &BBox, src_width: u32, src_height: u32, mask_width: u32, mask_height: u32) -> (m:
    BBox)
    requires
        src_width >= 1,
        src_height >= 1,
        mask_width >= 1,
        mask_height >= 1,
    ensures
        m == mask_space_bbox(
            *r,
            src_width as int,
            src_height as int,
            mask_width as int,
            mask_height as int,
        ),
{
    BBox {
        xmin: scale_floor(r.xmin, src_width, mask_width),
        ymin: scale_floor(r.ymin, src_height, mask_height),
        xmax: scale_ceil(r.xmax, src_width, mask_width),
        ymax: scale_ceil(r.ymax, src_height, mask_height),
    }
}

/// Mapping into mask space and back by the inverse scale covers the original
/// rectangle: the mapped bounds satisfy `m.xmin / mw <= r.xmin / sw` and
/// `r.xmax / sw <= m.xmax / mw` (stated multiplied out, so no division
/// appears), and likewise on the y axis. The round trip is a superset, not
/// necessarily an exact equality.
pub proof fn lemma_mask_round_trip(r: BBox, sw: int, sh: int, mw: int, mh: int)
    requires
        1 <= sw,
        1 <= sh,
        1 <= mw <= u32::MAX,
        1 <= mh <= u32::MAX,
        0 <= r.xmin,
        r.xmax <= sw,
        0 <= r.ymin,
        r.ymax <= sh,
    ensures
        mask_space_bbox(r, sw, sh, mw, mh).xmin * sw <= r.xmin * mw,
        r.xmax * mw <= mask_space_bbox(r, sw, sh, mw, mh).xmax * sw,
        mask_space_bbox(r, sw, sh, mw, mh).ymin * sh <= r.ymin * mh,
        r.ymax * mh <= mask_space_bbox(r, sw, sh, mw, mh).ymax * sh,
{
    lemma_scale_floor_covers(r.xmin as int, sw, mw);
    lemma_scale_floor_covers(r.ymin as int, sh, mh);
    lemma_scale_ceil_covers(r.xmax as int, sw, mw);
    lemma_scale_ceil_covers(r.ymax as int, sh, mh);
}

proof fn lemma_scale_floor_covers(v: int, sdim: int, mdim: int)
    requires
        1 <= sdim,
        1 <= mdim,
        0 <= v,
    ensures
        scale_floor_clamped(v, sdim, mdim) * sdim <= v * mdim,
{
    if v > 0 {
        let q = (v * mdim) / sdim;
        vstd::arithmetic::div_mod::lemma_fundamental_div_mod(v * mdim, sdim);
        vstd::arithmetic::div_mod::lemma_mod_bound(v * mdim, sdim);
        assert(q * sdim == sdim * q);
        assert(q * sdim <= v * mdim);
        if q > mdim - 1 {
            vstd::arithmetic::mul::lemma_mul_inequality(mdim - 1, q, sdim);
        }
    } else {
        assert(v * mdim == 0) by (nonlinear_arith)
            requires v == 0;
    }
}

proof fn lemma_scale_ceil_covers(v: int, sdim: int, mdim: int)
    requires
        1 <= sdim,
        1 <= mdim,
        v <= sdim,
    ensures
        v * mdim <= scale_ceil_clamped(v, sdim, mdim) * sdim,
{
    if v <= 0 {
        assert(v * mdim <= 0) by (nonlinear_arith)
            requires v <= 0 && mdim >= 1;
    } else {
        let n = v * mdim + sdim - 1;
        let c = n / sdim;
        vstd::arithmetic::div_mod::lemma_fundamental_div_mod(n, sdim);
        vstd::arithmetic::div_mod::lemma_mod_bound(n, sdim);
        assert(c * sdim == sdim * c);
        assert(v * mdim <= c * sdim);
        if c > mdim {
            vstd::arithmetic::mul::lemma_mul_inequality(v, sdim, mdim);
            assert(v * mdim <= sdim * mdim);
            assert(mdim * sdim == sdim * mdim) by (nonlinear_arith);
        }
    }
}

/// Clamp a rectangle to an image: the minima are raised to zero, the maxima
/// lowered to the image bounds. Returns the crop origin and size, or a
/// geometry error exactly when the clamped rectangle is degenerate.
pub fn clamp_bbox_to_image(r: &BBox, width: u32, height: u32) -> (res: Result<
    (u32, u32, u32, u32),
    CommandError,
>)
    ensures
        res == (if clipped_bbox(*r, width as int, height as int).valid() {
            Ok::<(u32, u32, u32, u32), CommandError>(
                (
                    clipped_bbox(*r, width as int, height as int).xmin as u32,
                    clipped_bbox(*r, width as int, height as int).ymin as u32,
                    clipped_bbox(*r, width as int, height as int).width() as u32,
                    clipped_bbox(*r, width as int, height as int).height() as u32,
                ),
            )
        } else {
            Err::<(u32, u32, u32, u32), CommandError>(CommandError::Geometry)
        }),
{
    let xmin: i64 = if r.xmin < 0 {
        0
    } else {
        r.xmin
    };
    let ymin: i64 = if r.ymin < 0 {
        0
    } else {
        r.ymin
    };
    let xmax: i64 = if r.xmax > width as i64 {
        width as i64
    } else {
        r.xmax
    };
    let ymax: i64 = if r.ymax > height as i64 {
        height as i64
    } else {
        r.ymax
    };
    if xmax > xmin && ymax > ymin {
        Ok((xmin as u32, ymin as u32, (xmax - xmin) as u32, (ymax - ymin) as u32))
    } else {
        Err(CommandError::Geometry)
    }
}

/// `r` clipped to `[0, width] x [0, height]`.
pub open spec fn clipped_bbox(r: BBox, width: int, height: int) -> BBox {
    BBox {
        xmin: vstd::math::max(r.xmin as int, 0) as i64,
        ymin: vstd::math::max(r.ymin as int, 0) as i64,
        xmax: vstd::math::min(r.xmax as int, width) as i64,
        ymax: vstd::math::min(r.ymax as int, height) as i64,
    }
}

/// Padding never shrinks a rectangle: for positive padding, the padded and
/// clamped rectangle contains the intersection of `r` with the image
/// `[0, width] x [0, height]`, and whenever that intersection has positive
/// area the padded rectangle is valid, so `pad_and_clamp` succeeds.
pub proof fn lemma_pad_never_shrinks(r: BBox, padding: int, width: int, height: int)
    requires
        padding > 0,
        1 <= width <= u32::MAX,
        1 <= height <= u32::MAX,
    ensures
        padded_bbox(r, padding, width, height).xmin <= vstd::math::max(r.xmin as int, 0),
        padded_bbox(r, padding, width, height).ymin <= vstd::math::max(r.ymin as int, 0),
        padded_bbox(r, padding, width, height).xmax >= vstd::math::min(r.xmax as int, width),
        padded_bbox(r, padding, width, height).ymax >= vstd::math::min(r.ymax as int, height),
        (vstd::math::max(r.xmin as int, 0) < vstd::math::min(r.xmax as int, width)
            && vstd::math::max(r.ymin as int, 0) < vstd::math::min(r.ymax as int, height))
            ==> padded_bbox(r, padding, width, height).valid(),
{
}

} // verus!
