use vstd::prelude::*;

use crate::buffer::MaskBuf;

verus! {

/// Maximum of `m[y*w + x]` over `x` in `[x_lo, x_hi)`, or 0 when the range
/// is empty.
pub open spec fn window_row_max(m: Seq<u8>, w: int, y: int, x_lo: int, x_hi: int) -> u8
    decreases x_hi - x_lo,
{
    if x_hi <= x_lo {
        0u8
    } else {
        let rest = window_row_max(m, w, y, x_lo, x_hi - 1);
        let v = m[y * w + (x_hi - 1)];
        if v > rest {
            v
        } else {
            rest
        }
    }
}

/// Maximum of `m` over the window `[x_lo, x_hi) x [y_lo, y_hi)`, or 0 when
/// the window is empty.
pub open spec fn window_max(m: Seq<u8>, w: int, y_lo: int, y_hi: int, x_lo: int, x_hi: int) -> u8
    decreases y_hi - y_lo,
{
    if y_hi <= y_lo {
        0u8
    } else {
        let rest = window_max(m, w, y_lo, y_hi - 1, x_lo, x_hi);
        let v = window_row_max(m, w, y_hi - 1, x_lo, x_hi);
        if v > rest {
            v
        } else {
            rest
        }
    }
}

/// Maximum of `m` over the in-image square neighborhood of Chebyshev radius
/// `k` centered on `(x, y)`.
pub open spec fn square_max_at(m: Seq<u8>, w: int, h: int, k: int, x: int, y: int) -> u8 {
    window_max(
        m,
        w,
        vstd::math::max(y - k, 0),
        vstd::math::min(y + k + 1, h),
        vstd::math::max(x - k, 0),
        vstd::math::min(x + k + 1, w),
    )
}

/// Grayscale dilation by a square structuring element of radius `k`: each
/// pixel becomes the maximum of its in-image square neighborhood.
pub open spec fn square_dilated(m: Seq<u8>, w: int, h: int, k: int) -> Seq<u8> {
    Seq::new((w * h) as nat, |n: int| square_max_at(m, w, h, k, n % w, n / w))
}

/// Whether some in-image pixel at L1 distance at most 1 from `(x, y)` (the
/// pixel itself or a 4-neighbor) is background (exactly zero).
pub open spec fn l1_near_zero(m: Seq<u8>, w: int, h: int, x: int, y: int) -> bool {
    exists|i: int, j: int|
        0 <= i < w && 0 <= j < h && vstd::math::abs(i - x) + vstd::math::abs(j - y) <= 1
            && #[trigger] m[j * w + i] == 0
}

/// Binary erosion by one pixel: a pixel becomes 0 when it touches
/// background, 255 otherwise. The output is binary whatever the input was.
pub open spec fn eroded1(m: Seq<u8>, w: int, h: int) -> Seq<u8> {
    Seq::new(
        (w * h) as nat,
        |n: int|
            if l1_near_zero(m, w, h, n % w, n / w) {
                0u8
            } else {
                255u8
            },
    )
}

/// Whether some in-image pixel at Chebyshev distance at most `k` from
/// `(x, y)` is foreground (non-zero).
pub open spec fn linf_near_foreground(m: Seq<u8>, w: int, h: int, k: int, x: int, y: int) -> bool {
    exists|i: int, j: int|
        0 <= i < w && 0 <= j < h && vstd::math::abs(i - x) <= k && vstd::math::abs(j - y) <= k
            && #[trigger] m[j * w + i] > 0
}

/// Whether any pixel of the mask is foreground (non-zero).
pub open spec fn has_foreground(m: Seq<u8>, w: int, h: int) -> bool {
    exists|i: int, j: int| 0 <= i < w && 0 <= j < h && #[trigger] m[j * w + i] > 0
}

/// Binary dilation by Chebyshev radius `k`: a pixel becomes 255 when any
/// pixel of its in-image neighborhood is foreground, 0 otherwise. The output
/// is binary whatever the input was.
pub open spec fn binary_dilated(m: Seq<u8>, w: int, h: int, k: int) -> Seq<u8> {
    Seq::new(
        (w * h) as nat,
        |n: int|
            if linf_near_foreground(m, w, h, k, n % w, n / w) {
                255u8
            } else {
                0u8
            },
    )
}

/// What imageproc's Chebyshev dilation returns: the neighborhood dilation,
/// except on an all-background mask whose dimensions sum to at most `k`.
/// There the distance field keeps its initialization value `width + height`
/// everywhere, that value itself clears the threshold, and the whole mask
/// comes out white.
pub open spec fn dilated_linf(m: Seq<u8>, w: int, h: int, k: int) -> Seq<u8> {
    if !has_foreground(m, w, h) && w + h <= k {
        Seq::new((w * h) as nat, |n: int| 255u8)
    } else {
        binary_dilated(m, w, h, k)
    }
}

/// Every byte of a Chebyshev dilation is either full black or full white.
pub proof fn lemma_dilated_linf_binary(m: Seq<u8>, w: int, h: int, k: int)
    ensures
        forall|n: int|
            0 <= n < dilated_linf(m, w, h, k).len() ==> (#[trigger] dilated_linf(m, w, h, k)[n]
                == 0 || dilated_linf(m, w, h, k)[n] == 255),
{
}

/// Every byte replaced by its complement.
pub open spec fn inverted(m: Seq<u8>) -> Seq<u8> {
    Seq::new(m.len(), |n: int| (255 - m[n]) as u8)
}

/// Every byte below `thr` zeroed; the others kept.
pub open spec fn thresholded(m: Seq<u8>, thr: u8) -> Seq<u8> {
    Seq::new(
        m.len(),
        |n: int|
            if m[n] < thr {
                0u8
            } else {
                m[n]
            },
    )
}

/// What `image::imageops::resize` with `FilterType::Nearest` returns for a
/// single-channel `w` by `h` buffer resized to `tw` by `th`: a pure function
/// of its arguments, named rather than spelled out.
pub uninterp spec fn nearest_resized(m: Seq<u8>, w: int, h: int, tw: int, th: int) -> Seq<u8>;

/// Relies on `imageproc::morphology::grayscale_dilate` with
/// `Mask::square(radius)`: each output pixel is the maximum input value over
/// the in-image square neighborhood of Chebyshev radius `radius` centered on
/// it (pixels the mask reaches outside the image are ignored).
#[verifier::external_body]
fn grayscale_dilate_square(data: &Vec<u8>, width: u32, height: u32, radius: u8) -> (r: Vec<u8>)
    requires
        data@.len() == width as int * height as int,
        width >= 1,
        height >= 1,
    ensures
        r@ == square_dilated(data@, width as int, height as int, radius as int),
{
    let img = image::GrayImage::from_vec(width, height, data.clone()).unwrap();
    let mask = imageproc::morphology::Mask::square(radius);
    imageproc::morphology::grayscale_dilate(&img, &mask).into_raw()
}

/// Relies on `imageproc::morphology::erode` with `Norm::L2` and distance 1:
/// every pixel within ceiling-of-L2 distance 1 of a background (zero) pixel
/// becomes 0, every other pixel becomes 255; for distances up to 2 the
/// ceiling of the L2 norm coincides with the L1 norm.
#[verifier::external_body]
fn erode_l2_1(data: &Vec<u8>, width: u32, height: u32) -> (r: Vec<u8>)
    requires
        data@.len() == width as int * height as int,
        width >= 1,
        height >= 1,
    ensures
        r@ == eroded1(data@, width as int, height as int),
{
    let img = image::GrayImage::from_vec(width, height, data.clone()).unwrap();
    imageproc::morphology::erode(&img, imageproc::distance_transform::Norm::L2, 1).into_raw()
}

/// Relies on `imageproc::morphology::dilate` with `Norm::LInf`: every pixel
/// within Chebyshev distance `k` of a foreground (non-zero) pixel becomes
/// 255, every other pixel becomes 0 -- except that a mask with no foreground
/// at all whose dimensions sum to at most `k` comes out all white, because
/// the distance field is initialized to `width + height` and never lowered.
/// The stored distances saturate at 255, so `k` must stay below that.
#[verifier::external_body]
fn dilate_linf(data: &Vec<u8>, width: u32, height: u32, k: u8) -> (r: Vec<u8>)
    requires
        data@.len() == width as int * height as int,
        width >= 1,
        height >= 1,
        k <= 254,
    ensures
        r@ == dilated_linf(data@, width as int, height as int, k as int),
{
    let img = image::GrayImage::from_vec(width, height, data.clone()).unwrap();
    imageproc::morphology::dilate(&img, imageproc::distance_transform::Norm::LInf, k).into_raw()
}

/// Relies on `image::imageops::resize` with `FilterType::Nearest`: the
/// result has exactly `tw * th` bytes, it depends on nothing but the input
/// buffer and the dimensions, resizing to the source size is a copy, and
/// every output byte is a copy of some input byte (a box kernel of support
/// zero always selects a single source sample with weight one, so no
/// interpolated value can appear).
#[verifier::external_body]
fn resize_nearest_raw(data: &Vec<u8>, width: u32, height: u32, tw: u32, th: u32) -> (r: Vec<u8>)
    requires
        data@.len() == width as int * height as int,
        width >= 1,
        height >= 1,
        tw >= 1,
        th >= 1,
    ensures
        r@ == nearest_resized(data@, width as int, height as int, tw as int, th as int),
        r@.len() == tw as int * th as int,
        (tw == width && th == height) ==> r@ == data@,
        forall|n: int| 0 <= n < r@.len() ==> data@.contains(#[trigger] r@[n]),
{
    let img = image::GrayImage::from_vec(width, height, data.clone()).unwrap();
    image::imageops::resize(&img, tw, th, image::imageops::FilterType::Nearest).into_raw()
}

/// The cleanup pass of the mask processor: a grayscale dilation by a square
/// element, then a one-pixel binary erosion. It closes small gaps inside
/// glyph strokes without materially growing the mask, and the same input
/// bytes always give the same output bytes.
pub fn clean_mask(m: &MaskBuf) -> (r: MaskBuf)
    requires
        m.wf(),
        m.width >= 1,
        m.height >= 1,
    ensures
        r.wf(),
        r.width == m.width,
        r.height == m.height,
        r.data@ == eroded1(
            square_dilated(m.data@, m.width as int, m.height as int, 3),
            m.width as int,
            m.height as int,
        ),
{
    let dilated = grayscale_dilate_square(&m.data, m.width, m.height, 3);
    let eroded = erode_l2_1(&dilated, m.width, m.height);
    MaskBuf { data: eroded, width: m.width, height: m.height }
}

/// Binary dilation of a mask by `k` pixels (Chebyshev distance), the
/// gap-filling step that may run before the mask is resized.
pub fn dilate_mask(m: &MaskBuf, k: u8) -> (r: MaskBuf)
    requires
        m.wf(),
        m.width >= 1,
        m.height >= 1,
        k <= 254,
    ensures
        r.wf(),
        r.width == m.width,
        r.height == m.height,
        r.data@ == dilated_linf(m.data@, m.width as int, m.height as int, k as int),
{
    let data = dilate_linf(&m.data, m.width, m.height, k);
    MaskBuf { data, width: m.width, height: m.height }
}

/// Every byte replaced by its complement.
pub fn invert_mask(m: &MaskBuf) -> (r: MaskBuf)
    requires
        m.wf(),
    ensures
        r.wf(),
        r.width == m.width,
        r.height == m.height,
        r.data@ == inverted(m.data@),
{
    let mut data: Vec<u8> = Vec::new();
    let len = m.data.len();
    let mut n: usize = 0;
    while n < len
        invariant
            len == m.data@.len(),
            n <= len,
            data@.len() == n,
            forall|p: int| 0 <= p < n ==> data@[p] == (255 - m.data@[p]) as u8,
        decreases len - n,
    {
        data.push(255 - m.data[n]);
        n = n + 1;
    }
    proof {
        assert(data@ =~= inverted(m.data@));
    }
    MaskBuf { data, width: m.width, height: m.height }
}

/// Every byte below `thr` zeroed, the binarization step that runs on the
/// cropped mask before any morphology.
pub fn threshold_mask(m: &MaskBuf, thr: u8) -> (r: MaskBuf)
    requires
        m.wf(),
    ensures
        r.wf(),
        r.width == m.width,
        r.height == m.height,
        r.data@ == thresholded(m.data@, thr),
{
    let mut data: Vec<u8> = Vec::new();
    let len = m.data.len();
    let mut n: usize = 0;
    while n < len
        invariant
            len == m.data@.len(),
            n <= len,
            data@.len() == n,
            forall|p: int|
                0 <= p < n ==> data@[p] == (if m.data@[p] < thr {
                    0u8
                } else {
                    m.data@[p]
                }),
        decreases len - n,
    {
        let v = m.data[n];
        if v < thr {
            data.push(0);
        } else {
            data.push(v);
        }
        n = n + 1;
    }
    proof {
        assert(data@ =~= thresholded(m.data@, thr));
    }
    MaskBuf { data, width: m.width, height: m.height }
}

/// Binary erosion of a mask by `k` pixels, written as invert, dilate,
/// invert: the correct way to shrink the foreground without a dedicated
/// erode primitive. It pulls the hole boundary inward to prevent halo
/// artifacts in the final composite.
pub fn erode_mask(m: &MaskBuf, k: u8) -> (r: MaskBuf)
    requires
        m.wf(),
        m.width >= 1,
        m.height >= 1,
        k <= 254,
    ensures
        r.wf(),
        r.width == m.width,
        r.height == m.height,
        r.data@ == inverted(
            dilated_linf(inverted(m.data@), m.width as int, m.height as int, k as int),
        ),
{
    let inv = invert_mask(m);
    let dil = dilate_mask(&inv, k);
    invert_mask(&dil)
}

/// Resize a mask to exactly `tw` by `th` with nearest-neighbor sampling.
/// Nearest-neighbor is mandatory here: interpolation would reintroduce
/// fractional alpha values the inpainting collaborator is not trained for.
pub fn resize_mask_nearest(m: &MaskBuf, tw: u32, th: u32) -> (r: MaskBuf)
    requires
        m.wf(),
        m.width >= 1,
        m.height >= 1,
        tw >= 1,
        th >= 1,
    ensures
        r.wf(),
        r.width == tw,
        r.height == th,
        r.data@ == nearest_resized(m.data@, m.width as int, m.height as int, tw as int, th as int),
        forall|n: int| 0 <= n < r.data@.len() ==> m.data@.contains(#[trigger] r.data@[n]),
{
    let data = resize_nearest_raw(&m.data, m.width, m.height, tw, th);
    MaskBuf { data, width: tw, height: th }
}

/// Cut the `cw` by `ch` rectangle at `(x0, y0)` out of a mask, clamping each
/// sampling coordinate to the valid range so out-of-range requests saturate
/// at the last row or column rather than fail.
pub fn crop_mask_clamped(m: &MaskBuf, x0: u32, y0: u32, cw: u32, ch: u32) -> (r: MaskBuf)
    requires
        m.wf(),
        m.width >= 1,
        m.height >= 1,
    ensures
        r.wf(),
        r.width == cw,
        r.height == ch,
        r.data@ == cropped_clamped(*m, x0 as int, y0 as int, cw as int, ch as int),
{
    let mw64 = m.width as u64;
    let mh64 = m.height as u64;
    let total = m.data.len();
    let mut data: Vec<u8> = Vec::new();
    let mut j: u32 = 0;
    while j < ch
        invariant
            m.wf(),
            m.width >= 1,
            m.height >= 1,
            j <= ch,
            mw64 == m.width,
            mh64 == m.height,
            total == m.data@.len(),
            data@.len() == j * cw as int,
            forall|n: int|
                0 <= n < data@.len() ==> data@[n] == cropped_clamped(
                    *m,
                    x0 as int,
                    y0 as int,
                    cw as int,
                    ch as int,
                )[n],
        decreases ch - j,
    {
        let py = {
            let t = y0 as u64 + j as u64;
            if t > mh64 - 1 {
                mh64 - 1
            } else {
                t
            }
        };
        let mut i: u32 = 0;
        while i < cw
            invariant
                m.wf(),
                m.width >= 1,
                m.height >= 1,
                j < ch,
                i <= cw,
                mw64 == m.width,
                mh64 == m.height,
                total == m.data@.len(),
                py == vstd::math::min(y0 as int + j as int, m.height as int - 1),
                data@.len() == j * cw as int + i as int,
                forall|n: int|
                    0 <= n < data@.len() ==> data@[n] == cropped_clamped(
                        *m,
                        x0 as int,
                        y0 as int,
                        cw as int,
                        ch as int,
                    )[n],
            decreases cw - i,
        {
            let px = {
                let t = x0 as u64 + i as u64;
                if t > mw64 - 1 {
                    mw64 - 1
                } else {
                    t
                }
            };
            proof {
                assert(py * m.width as int + px < m.data@.len() && 0 <= py * m.width as int)
                    by (nonlinear_arith)
                    requires
                        0 <= py < m.height as int,
                        0 <= px < m.width as int,
                        m.data@.len() == m.width as int * m.height as int,
                ;
                lemma_flat_index(i as int, j as int, cw as int);
                assert(j * cw as int + i < cw as int * ch as int) by (nonlinear_arith)
                    requires
                        0 <= i < cw as int,
                        0 <= j < ch as int,
                ;
            }
            let v = m.data[py as usize * m.width as usize + px as usize];
            data.push(v);
            i = i + 1;
        }
        j = j + 1;
        proof {
            assert(j * cw as int == (j - 1) * cw as int + cw as int) by (nonlinear_arith);
        }
    }
    proof {
        assert(ch as int * cw as int == cw as int * ch as int) by (nonlinear_arith);
        assert(data@ =~= cropped_clamped(*m, x0 as int, y0 as int, cw as int, ch as int));
    }
    MaskBuf { data, width: cw, height: ch }
}

/// The mask crop with clamped sampling: entry `n` is the source pixel at
/// column `min(x0 + n % cw, width - 1)`, row `min(y0 + n / cw, height - 1)`.
pub open spec fn cropped_clamped(m: MaskBuf, x0: int, y0: int, cw: int, ch: int) -> Seq<u8> {
    Seq::new(
        (cw * ch) as nat,
        |n: int|
            m.at(
                vstd::math::min(x0 + n % cw, m.width as int - 1),
                vstd::math::min(y0 + n / cw, m.height as int - 1),
            ),
    )
}

/// At the flat index `j*w + i` of a row-major buffer, the division and
/// remainder by `w` recover the row and column.
pub proof fn lemma_flat_index(i: int, j: int, w: int)
    requires
        0 <= i < w,
        0 <= j,
    ensures
        (j * w + i) % w == i,
        (j * w + i) / w == j,
{
    assert(j * w + i == w * j + i) by (nonlinear_arith);
    vstd::arithmetic::div_mod::lemma_fundamental_div_mod_converse(j * w + i, w, j, i);
}

} // verus!
