use vstd::prelude::*;

use crate::buffer::MaskBuf;
use crate::error::CommandError;

verus! {

/// A detection in source-image pixel space: a valid rectangle (positive
/// area), the detector's confidence, and the class (0 for a text block, 1
/// for a free-text region). Coordinates and confidences are fixed-point
/// integers; the caller picks the confidence scale and quantizes the raw
/// tensor to whole model-space pixels before decoding.
#[derive(Debug, Clone, Copy, PartialEq, Eq, Structural)]
pub struct ClassifiedBbox {
    pub xmin: i64,
    pub ymin: i64,
    pub xmax: i64,
    pub ymax: i64,
    pub confidence: i64,
    pub class: usize,
}

impl ClassifiedBbox {
    /// Decoded boxes always have positive area.
    pub open spec fn valid(self) -> bool {
        self.xmin < self.xmax && self.ymin < self.ymax
    }

    /// Coordinates far enough below the i64 range that intersection areas
    /// and their thousandfold multiples fit in i128.
    pub open spec fn coords_bounded(self) -> bool {
        -0x100000000000000 <= self.xmin <= 0x100000000000000
            && -0x100000000000000 <= self.ymin <= 0x100000000000000
            && -0x100000000000000 <= self.xmax <= 0x100000000000000
            && -0x100000000000000 <= self.ymax <= 0x100000000000000
    }
}

/// The side length of the square model-input space the detector works in.
pub const MODEL_INPUT_DIM: u32 = 1024;

/// What one detection run hands back to the caller: the suppressed boxes of
/// both classes and the cleaned full-resolution segmentation mask, already
/// encoded for transport.
#[derive(Debug)]
pub struct DetectionResult {
    pub bboxes: Vec<ClassifiedBbox>,
    pub mask_png: Vec<u8>,
    pub mask_width: u32,
    pub mask_height: u32,
}

/// What the PNG encoder produces for a single-channel image: a pure
/// function of the bytes and the dimensions.
pub uninterp spec fn png_encoded_gray(m: Seq<u8>, w: int, h: int) -> Seq<u8>;

/// Relies on `image::DynamicImage::write_to` with `ImageFormat::Png`:
/// encoding a non-empty gray image into an in-memory buffer is
/// deterministic and cannot fail.
#[verifier::external_body]
fn encode_mask_png(data: &Vec<u8>, width: u32, height: u32) -> (r: Vec<u8>)
    requires
        data@.len() == width as int * height as int,
        width >= 1,
        height >= 1,
    ensures
        r@ == png_encoded_gray(data@, width as int, height as int),
{
    let img = image::GrayImage::from_vec(width, height, data.clone()).unwrap();
    let mut out = Vec::new();
    image::DynamicImage::ImageLuma8(img)
        .write_to(&mut std::io::Cursor::new(&mut out), image::ImageFormat::Png)
        .unwrap();
    out
}

impl DetectionResult {
    /// Assemble a detection result from the suppressed boxes and the
    /// cleaned full-resolution mask, encoding the mask as PNG for
    /// transport.
    pub fn new(bboxes: Vec<ClassifiedBbox>, mask: &MaskBuf) -> (r: DetectionResult)
        requires
            mask.wf(),
            mask.width >= 1,
            mask.height >= 1,
        ensures
            r.bboxes == bboxes,
            r.mask_png@ == png_encoded_gray(mask.data@, mask.width as int, mask.height as int),
            r.mask_width == mask.width,
            r.mask_height == mask.height,
    {
        let mask_png = encode_mask_png(&mask.data, mask.width, mask.height);
        DetectionResult { bboxes, mask_png, mask_width: mask.width, mask_height: mask.height }
    }
}

/// Whether a raw detector tensor is well formed: rank 3, a single batch,
/// at least the seven columns `[cx, cy, w, h, confidence, score0, score1]`,
/// and a data length that matches the shape.
pub open spec fn tensor_shape_ok(data: Seq<i32>, shape: Seq<usize>) -> bool {
    &&& shape.len() == 3
    &&& shape[0] == 1
    &&& shape[2] >= 7
    &&& data.len() == shape[0] * shape[1] * shape[2]
}

/// Field `f` of row `i` of the flattened tensor.
pub open spec fn row_field(data: Seq<i32>, cols: int, i: int, f: int) -> int {
    data[i * cols + f] as int
}

/// A row survives decoding when its confidence reaches the threshold and
/// its size is positive on both axes, so the decoded box cannot be
/// degenerate.
pub open spec fn row_kept(data: Seq<i32>, cols: int, i: int, thr: int) -> bool {
    &&& row_field(data, cols, i, 4) >= thr
    &&& row_field(data, cols, i, 2) >= 1
    &&& row_field(data, cols, i, 3) >= 1
}

/// The class of row `i`: class 1 exactly when the class-1 score beats the
/// class-0 score.
pub open spec fn row_class(data: Seq<i32>, cols: int, i: int) -> int {
    if row_field(data, cols, i, 6) > row_field(data, cols, i, 5) {
        1
    } else {
        0
    }
}

/// Row `i` rescaled from model-input space to source-image space: the
/// center/size form becomes corner form, each corner scaled by
/// `src_dim / 1024` exactly, minima floored and maxima ceiled.
pub open spec fn decoded_box(data: Seq<i32>, cols: int, i: int, sw: int, sh: int) -> ClassifiedBbox {
    let cx = row_field(data, cols, i, 0);
    let cy = row_field(data, cols, i, 1);
    let w = row_field(data, cols, i, 2);
    let h = row_field(data, cols, i, 3);
    ClassifiedBbox {
        xmin: (((2 * cx - w) * sw) / 2048) as i64,
        ymin: (((2 * cy - h) * sh) / 2048) as i64,
        xmax: (((2 * cx + w) * sw + 2047) / 2048) as i64,
        ymax: (((2 * cy + h) * sh + 2047) / 2048) as i64,
        confidence: data[i * cols + 4] as i64,
        class: if row_field(data, cols, i, 6) > row_field(data, cols, i, 5) {
            1usize
        } else {
            0usize
        },
    }
}

/// The boxes of class `cls` decoded from the first `n` rows, in row order.
pub open spec fn decoded_class(
    data: Seq<i32>,
    cols: int,
    n: int,
    sw: int,
    sh: int,
    thr: int,
    cls: int,
) -> Seq<ClassifiedBbox>
    decreases n,
{
    if n <= 0 {
        Seq::empty()
    } else {
        let prefix = decoded_class(data, cols, n - 1, sw, sh, thr, cls);
        if row_kept(data, cols, n - 1, thr) && row_class(data, cols, n - 1) == cls {
            prefix.push(decoded_box(data, cols, n - 1, sw, sh))
        } else {
            prefix
        }
    }
}

/// Euclidean division of an i128 far from the type bounds by a positive
/// divisor, together with the fundamental bracketing of the quotient.
fn floor_div_i128(n: i128, d: i128) -> (r: i128)
    requires
        1 <= d <= 0x10000000000000000,
        -0x10000000000000000000000000000 <= n <= 0x10000000000000000000000000000,
    ensures
        r as int == n as int / d as int,
        (d as int) * (r as int) <= (n as int),
        (n as int) < (d as int) * (r as int) + (d as int),
{
    proof {
        vstd::arithmetic::div_mod::lemma_fundamental_div_mod(n as int, d as int);
        vstd::arithmetic::div_mod::lemma_mod_bound(n as int, d as int);
    }
    if n >= 0 {
        let q = (n as u128) / (d as u128);
        proof {
            assert(q as int == n as int / d as int);
        }
        q as i128
    } else {
        let m = (-n) as u128;
        let du = d as u128;
        let q = (m + du - 1) / du;
        proof {
            let mi = m as int;
            let di = d as int;
            let qm = mi / di;
            let rm = mi % di;
            vstd::arithmetic::div_mod::lemma_fundamental_div_mod(mi, di);
            vstd::arithmetic::div_mod::lemma_mod_bound(mi, di);
            assert(qm * di == di * qm && (-qm) * di == -(di * qm) && (qm + 1) * di == di * qm
                + di && (-(qm + 1)) * di == -(di * qm) - di) by (nonlinear_arith);
            if rm == 0 {
                vstd::arithmetic::div_mod::lemma_fundamental_div_mod_converse(
                    mi + di - 1,
                    di,
                    qm,
                    di - 1,
                );
                vstd::arithmetic::div_mod::lemma_fundamental_div_mod_converse(-mi, di, -qm, 0);
            } else {
                vstd::arithmetic::div_mod::lemma_fundamental_div_mod_converse(
                    mi + di - 1,
                    di,
                    qm + 1,
                    rm - 1,
                );
                vstd::arithmetic::div_mod::lemma_fundamental_div_mod_converse(
                    -mi,
                    di,
                    -(qm + 1),
                    di - rm,
                );
            }
            assert(q as int == (mi + di - 1) / di);
        }
        -(q as i128)
    }
}

/// One decoded coordinate: `(2*c + s) * sdim`, floored (for minima) or
/// ceiled (for maxima, via the `+ 2047` shift) after division by 2048.
fn scale_coord(c: i32, s: i32, sdim: u32, ceil: bool) -> (r: i64)
    requires
        1 <= sdim,
    ensures
        !ceil ==> r as int == ((2 * c + s) * sdim as int) / 2048,
        ceil ==> r as int == ((2 * c + s) * sdim as int + 2047) / 2048,
        -0x100000000000000 <= r <= 0x100000000000000,
{
    let t: i128 = 2 * (c as i128) + (s as i128);
    proof {
        let ti = t as int;
        let si = sdim as int;
        assert(-0x18000000000000000 <= ti * si <= 0x18000000000000000) by (nonlinear_arith)
            requires
                -0x180000000 <= ti <= 0x180000000,
                0 <= si <= 0x100000000,
        ;
    }
    let num: i128 = t * (sdim as i128);
    let shifted: i128 = if ceil {
        num + 2047
    } else {
        num
    };
    let q = floor_div_i128(shifted, 2048);
    q as i64
}

/// Decode a raw detector tensor into one list of candidate boxes per class.
///
/// The tensor is row-major `[1, N, cols]` with `cols >= 7` columns
/// `[cx, cy, w, h, confidence, score0, score1]` in model-input (1024 by
/// 1024) space. A row is dropped when its confidence is below the threshold
/// or its size is not positive on both axes; a kept row is assigned class 1
/// exactly when its class-1 score beats its class-0 score, and rescaled to
/// source space by `src_dim / 1024` per axis. A malformed shape (wrong
/// rank, no single batch, fewer than seven columns, or a length mismatch)
/// is a fatal decode error, surfaced before anything is decoded.
pub fn decode_boxes(
    data: &Vec<i32>,
    shape: &Vec<usize>,
    src_width: u32,
    src_height: u32,
    confidence_threshold: i32,
) -> (res: Result<(Vec<ClassifiedBbox>, Vec<ClassifiedBbox>), CommandError>)
    requires
        src_width >= 1,
        src_height >= 1,
    ensures
        res is Ok <==> tensor_shape_ok(data@, shape@),
        res matches Ok(lists) ==> lists.0@ == decoded_class(
            data@,
            shape@[2] as int,
            shape@[1] as int,
            src_width as int,
            src_height as int,
            confidence_threshold as int,
            0,
        ) && lists.1@ == decoded_class(
            data@,
            shape@[2] as int,
            shape@[1] as int,
            src_width as int,
            src_height as int,
            confidence_threshold as int,
            1,
        ),
        res matches Ok(lists) ==> (forall|k: int|
            0 <= k < lists.0@.len() ==> (#[trigger] lists.0@[k]).valid()
                && lists.0@[k].coords_bounded() && lists.0@[k].class == 0) && (forall|k: int|
            0 <= k < lists.1@.len() ==> (#[trigger] lists.1@[k]).valid()
                && lists.1@[k].coords_bounded() && lists.1@[k].class == 1),
{
    if shape.len() != 3 {
        return Err(CommandError::Decode);
    }
    let batch = shape[0];
    let rows = shape[1];
    let cols = shape[2];
    if batch != 1 || cols < 7 {
        return Err(CommandError::Decode);
    }
    proof {
        let ri = rows as int;
        let ci = cols as int;
        assert(0 <= ri * ci < 0x100000000000000000000000000000000) by (nonlinear_arith)
            requires
                0 <= ri < 0x10000000000000000,
                0 <= ci < 0x10000000000000000,
        ;
        vstd::arithmetic::mul::lemma_mul_basics(rows as int * cols as int);
    }
    let expected: u128 = rows as u128 * cols as u128;
    if data.len() as u128 != expected {
        return Err(CommandError::Decode);
    }
    proof {
        assert(shape@[0] * shape@[1] * shape@[2] == rows as int * cols as int)
            by (nonlinear_arith)
            requires
                shape@[0] == 1 && shape@[1] == rows && shape@[2] == cols,
        ;
    }
    let mut class0: Vec<ClassifiedBbox> = Vec::new();
    let mut class1: Vec<ClassifiedBbox> = Vec::new();
    let ghost gcols = cols as int;
    let ghost gsw = src_width as int;
    let ghost gsh = src_height as int;
    let ghost gthr = confidence_threshold as int;
    let mut i: usize = 0;
    while i < rows
        invariant
            data@.len() == rows as int * cols as int,
            cols >= 7,
            src_width >= 1,
            src_height >= 1,
            gcols == cols as int,
            gsw == src_width as int,
            gsh == src_height as int,
            gthr == confidence_threshold as int,
            data@.len() <= usize::MAX,
            i <= rows,
            class0@ == decoded_class(data@, gcols, i as int, gsw, gsh, gthr, 0),
            class1@ == decoded_class(data@, gcols, i as int, gsw, gsh, gthr, 1),
            forall|k: int|
                0 <= k < class0@.len() ==> (#[trigger] class0@[k]).valid()
                    && class0@[k].coords_bounded() && class0@[k].class == 0,
            forall|k: int|
                0 <= k < class1@.len() ==> (#[trigger] class1@[k]).valid()
                    && class1@[k].coords_bounded() && class1@[k].class == 1,
        decreases rows - i,
    {
        proof {
            let ii = i as int;
            let ri = rows as int;
            assert(ii * gcols + 6 < ri * gcols && 0 <= ii * gcols) by (nonlinear_arith)
                requires
                    0 <= ii < ri,
                    7 <= gcols,
            ;
        }
        let base = i * cols;
        let confidence = data[base + 4];
        let w = data[base + 2];
        let h = data[base + 3];
        if confidence >= confidence_threshold && w >= 1 && h >= 1 {
            let cx = data[base];
            let cy = data[base + 1];
            let s0 = data[base + 5];
            let s1 = data[base + 6];
            let xmin = scale_coord(cx, -w, src_width, false);
            let ymin = scale_coord(cy, -h, src_height, false);
            let xmax = scale_coord(cx, w, src_width, true);
            let ymax = scale_coord(cy, h, src_height, true);
            let class: usize = if s1 > s0 {
                1
            } else {
                0
            };
            let b = ClassifiedBbox { xmin, ymin, xmax, ymax, confidence: confidence as i64, class };
            proof {
                lemma_decoded_box_valid(data@, gcols, i as int, gsw, gsh);
                assert(b == decoded_box(data@, gcols, i as int, gsw, gsh));
            }
            if class == 1 {
                class1.push(b);
            } else {
                class0.push(b);
            }
        }
        i = i + 1;
    }
    Ok((class0, class1))
}

/// A kept row always decodes to a valid box: the ceiled maxima strictly
/// exceed the floored minima because the size is at least one model pixel.
proof fn lemma_decoded_box_valid(data: Seq<i32>, cols: int, i: int, sw: int, sh: int)
    requires
        0 <= i,
        7 <= cols,
        1 <= sw <= u32::MAX,
        1 <= sh <= u32::MAX,
        row_field(data, cols, i, 2) >= 1,
        row_field(data, cols, i, 3) >= 1,
    ensures
        decoded_box(data, cols, i, sw, sh).valid(),
        decoded_box(data, cols, i, sw, sh).coords_bounded(),
{
    let cx = row_field(data, cols, i, 0);
    let cy = row_field(data, cols, i, 1);
    let w = row_field(data, cols, i, 2);
    let h = row_field(data, cols, i, 3);
    assert((2 * cx + w) * sw - (2 * cx - w) * sw >= 2) by (nonlinear_arith)
        requires
            w >= 1,
            sw >= 1,
    ;
    assert((2 * cy + h) * sh - (2 * cy - h) * sh >= 2) by (nonlinear_arith)
        requires
            h >= 1,
            sh >= 1,
    ;
    lemma_floor_lt_ceil((2 * cx - w) * sw, (2 * cx + w) * sw);
    lemma_floor_lt_ceil((2 * cy - h) * sh, (2 * cy + h) * sh);
    lemma_scaled_bound(2 * cx - w, sw);
    lemma_scaled_bound(2 * cx + w, sw);
    lemma_scaled_bound(2 * cy - h, sh);
    lemma_scaled_bound(2 * cy + h, sh);
}

/// For `n1 < n2`, the floor of `n1 / 2048` is strictly below the ceiling of
/// `n2 / 2048`.
proof fn lemma_floor_lt_ceil(n1: int, n2: int)
    requires
        n1 < n2,
    ensures
        n1 / 2048 < (n2 + 2047) / 2048,
{
    vstd::arithmetic::div_mod::lemma_fundamental_div_mod(n1, 2048);
    vstd::arithmetic::div_mod::lemma_mod_bound(n1, 2048);
    vstd::arithmetic::div_mod::lemma_fundamental_div_mod(n2 + 2047, 2048);
    vstd::arithmetic::div_mod::lemma_mod_bound(n2 + 2047, 2048);
}

/// Quotients of products of row values and a u32 dimension stay within the
/// coordinate bound.
proof fn lemma_scaled_bound(t: int, sdim: int)
    requires
        -0x180000000 <= t <= 0x180000000,
        1 <= sdim <= u32::MAX,
    ensures
        -0x100000000000000 <= (t * sdim) / 2048 <= 0x100000000000000,
        -0x100000000000000 <= (t * sdim + 2047) / 2048 <= 0x100000000000000,
{
    assert(-0x18000000000000000 <= t * sdim <= 0x18000000000000000) by (nonlinear_arith)
        requires
            -0x180000000 <= t <= 0x180000000,
            1 <= sdim <= 0x100000000,
    ;
    vstd::arithmetic::div_mod::lemma_fundamental_div_mod(t * sdim, 2048);
    vstd::arithmetic::div_mod::lemma_mod_bound(t * sdim, 2048);
    vstd::arithmetic::div_mod::lemma_fundamental_div_mod(t * sdim + 2047, 2048);
    vstd::arithmetic::div_mod::lemma_mod_bound(t * sdim + 2047, 2048);
}

} // verus!
