use vstd::prelude::*;

use crate::error::CommandError;

verus! {

/// Dimension products of `u32`-sized images stay far below the `u128` range.
pub proof fn lemma_dims_product_bound(w: int, h: int)
    requires
        0 <= w < 0x100000000,
        0 <= h < 0x100000000,
    ensures
        0 <= w * h * 4 < 0x40000000000000000,
{
    assert(0 <= w * h * 4 < 0x40000000000000000) by (nonlinear_arith)
        requires
            0 <= w < 0x100000000,
            0 <= h < 0x100000000,
    ;
}

/// A full-color image as a raw byte buffer: row-major, four bytes per pixel
/// (red, green, blue, alpha).
#[derive(Debug, Clone)]
pub struct ImageBuf {
    pub data: Vec<u8>,
    pub width: u32,
    pub height: u32,
}

impl ImageBuf {
    /// The buffer holds exactly four bytes for every pixel.
    pub open spec fn wf(self) -> bool {
        self.data@.len() == self.width as int * self.height as int * 4
    }

    /// Channel `c` of the pixel at column `x`, row `y`.
    pub open spec fn at(self, x: int, y: int, c: int) -> u8 {
        self.data@[(y * self.width as int + x) * 4 + c]
    }

    /// Wrap a raw buffer, checking that its length matches the dimensions.
    /// Fails exactly when the length disagrees, as a mismatched buffer would
    /// otherwise be indexed out of bounds downstream.
    pub fn new(data: Vec<u8>, width: u32, height: u32) -> (res: Result<ImageBuf, CommandError>)
        ensures
            res matches Ok(img) ==> img == (ImageBuf { data, width, height }) && img.wf(),
            res is Ok <==> data@.len() == width as int * height as int * 4,
    {
        proof {
            lemma_dims_product_bound(width as int, height as int);
        }
        let expected: u128 = width as u128 * height as u128 * 4;
        if data.len() as u128 == expected {
            Ok(ImageBuf { data, width, height })
        } else {
            Err(CommandError::Geometry)
        }
    }
}

/// A single-channel mask as a raw byte buffer: row-major, one byte per
/// pixel; higher values mean higher probability that the pixel belongs to a
/// removable glyph.
#[derive(Debug, Clone)]
pub struct MaskBuf {
    pub data: Vec<u8>,
    pub width: u32,
    pub height: u32,
}

impl MaskBuf {
    /// The buffer holds exactly one byte for every pixel.
    pub open spec fn wf(self) -> bool {
        self.data@.len() == self.width as int * self.height as int
    }

    /// The pixel at column `x`, row `y`.
    pub open spec fn at(self, x: int, y: int) -> u8 {
        self.data@[y * self.width as int + x]
    }

    /// Wrap a raw buffer, checking that its length matches the dimensions.
    pub fn new(data: Vec<u8>, width: u32, height: u32) -> (res: Result<MaskBuf, CommandError>)
        ensures
            res matches Ok(m) ==> m == (MaskBuf { data, width, height }) && m.wf(),
            res is Ok <==> data@.len() == width as int * height as int,
    {
        proof {
            lemma_dims_product_bound(width as int, height as int);
        }
        let expected: u128 = width as u128 * height as u128;
        if data.len() as u128 == expected {
            Ok(MaskBuf { data, width, height })
        } else {
            Err(CommandError::Geometry)
        }
    }
}

/// Cut the `cw` by `ch` rectangle whose top-left corner is `(x, y)` out of
/// `img`. Every channel of every cropped pixel equals the corresponding
/// channel of the source pixel it came from.
pub fn crop_image(img: &ImageBuf, x: u32, y: u32, cw: u32, ch: u32) -> (r: ImageBuf)
    requires
        img.wf(),
        x + cw <= img.width,
        y + ch <= img.height,
    ensures
        r.wf(),
        r.width == cw,
        r.height == ch,
        forall|i: int, j: int, c: int|
            0 <= i < cw && 0 <= j < ch && 0 <= c < 4 ==> #[trigger] r.at(i, j, c) == img.at(
                x + i,
                y + j,
                c,
            ),
{
    let total = img.data.len();
    let mut data: Vec<u8> = Vec::new();
    let mut j: u32 = 0;
    while j < ch
        invariant
            img.wf(),
            total == img.data@.len(),
            x + cw <= img.width,
            y + ch <= img.height,
            j <= ch,
            data@.len() == j * cw as int * 4,
            forall|i: int, jj: int, c: int|
                0 <= i < cw && 0 <= jj < j && 0 <= c < 4 ==> #[trigger] data@[(jj * cw as int + i)
                    * 4 + c] == img.at(x + i, y + jj, c),
        decreases ch - j,
    {
        let mut i: u32 = 0;
        while i < cw
            invariant
                img.wf(),
                total == img.data@.len(),
                x + cw <= img.width,
                y + ch <= img.height,
                j < ch,
                i <= cw,
                data@.len() == j * cw as int * 4 + i * 4,
                forall|ii: int, jj: int, c: int|
                    0 <= ii < cw && 0 <= jj < j && 0 <= c < 4 ==> #[trigger] data@[(jj * cw as int
                        + ii) * 4 + c] == img.at(x + ii, y + jj, c),
                forall|ii: int, c: int|
                    0 <= ii < i && 0 <= c < 4 ==> #[trigger] data@[(j * cw as int + ii) * 4 + c]
                        == img.at(x + ii, y + j, c),
            decreases cw - i,
        {
            let ghost data0 = data@;
            let sy = y as usize + j as usize;
            let sx = x as usize + i as usize;
            proof {
                assert((sy * img.width as int + sx) * 4 + 3 < img.data@.len() && 0 <= sy
                    * img.width as int) by (nonlinear_arith)
                    requires
                        0 <= sy < img.height as int,
                        0 <= sx < img.width as int,
                        img.data@.len() == img.width as int * img.height as int * 4,
                ;
            }
            let base = (sy * img.width as usize + sx) * 4;
            data.push(img.data[base]);
            data.push(img.data[base + 1]);
            data.push(img.data[base + 2]);
            data.push(img.data[base + 3]);
            proof {
                assert(sy as int == y + j);
                assert(sx as int == x + i);
                assert(base as int == ((y + j) * (img.width as int) + (x + i)) * 4);
                assert forall|ii: int, jj: int, c: int|
                    0 <= ii < cw && 0 <= jj < j && 0 <= c < 4 implies #[trigger] data@[(jj
                    * cw as int + ii) * 4 + c] == img.at(x + ii, y + jj, c) by {
                    assert(0 <= (jj * cw as int + ii) * 4 + c < j * cw as int * 4)
                        by (nonlinear_arith)
                        requires
                            0 <= ii < cw as int,
                            0 <= jj <= j - 1,
                            0 <= c < 4,
                    ;
                    assert(data@[(jj * cw as int + ii) * 4 + c] == data0[(jj * cw as int + ii) * 4
                        + c]);
                }
                assert forall|ii: int, c: int|
                    0 <= ii < i + 1 && 0 <= c < 4 implies #[trigger] data@[(j * cw as int + ii) * 4
                    + c] == img.at(x + ii, y + j, c) by {
                    if ii < i {
                        assert(0 <= (j * cw as int + ii) * 4 + c < j * cw as int * 4 + i * 4);
                        assert(data@[(j * cw as int + ii) * 4 + c] == data0[(j * cw as int + ii) * 4
                            + c]);
                    } else {
                        assert((j * cw as int + ii) * 4 + c == data0.len() + c);
                    }
                }
            }
            i = i + 1;
        }
        j = j + 1;
        proof {
            assert(j * cw as int * 4 == (j - 1) * cw as int * 4 + cw as int * 4) by (nonlinear_arith);
        }
    }
    proof {
        assert(ch as int * cw as int * 4 == cw as int * ch as int * 4) by (nonlinear_arith);
    }
    ImageBuf { data, width: cw, height: ch }
}

} // verus!
