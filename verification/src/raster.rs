//! An RGBA raster held as plain bytes, and what it means to cut a window out
//! of one.
use vstd::prelude::*;
use crate::geometry::Dimensions;

verus! {

/// An image of `width` by `height` pixels. `pixels` holds the rows from top
/// to bottom, each from left to right, four bytes to a pixel: red, green,
/// blue, alpha.
#[derive(Clone, Debug, PartialEq, Eq)]
pub struct Raster {
    pub width: u32,
    pub height: u32,
    pub pixels: Vec<u8>,
}

/// The number of bytes that an image of the extent `d` takes.
pub open spec fn byte_len(d: Dimensions) -> int {
    4 * d.width * d.height
}

/// The bytes of the window of `window_width` by `window_height` pixels whose
/// top-left corner is at `(x, y)` in an image that is `width` pixels wide.
/// Byte `k` of the window belongs to channel `k % 4` of its pixel `k / 4`,
/// which is the pixel in column `x + (k / 4) % window_width` and row
/// `y + (k / 4) / window_width` of the image.
pub open spec fn window_of(
    pixels: Seq<u8>,
    width: int,
    x: int,
    y: int,
    window_width: int,
    window_height: int,
) -> Seq<u8> {
    Seq::new(
        (4 * window_width * window_height) as nat,
        |k: int|
            pixels[4 * ((y + (k / 4) / window_width) * width + x + (k / 4) % window_width) + k
                % 4],
    )
}

impl Raster {
    /// The extent of the image.
    pub open spec fn dimensions(&self) -> Dimensions {
        Dimensions { width: self.width, height: self.height }
    }

    /// The buffer holds exactly the pixels of the image.
    pub open spec fn well_formed(&self) -> bool {
        self.pixels@.len() == byte_len(self.dimensions())
    }

    /// The buffer holds at least the pixels of the image.
    pub open spec fn covers_dimensions(&self) -> bool {
        self.pixels@.len() >= byte_len(self.dimensions())
    }

    /// The bytes that make up the image: the buffer without what lies beyond
    /// the last pixel.
    pub open spec fn image_bytes(&self) -> Seq<u8>
        recommends
            self.covers_dimensions(),
    {
        self.pixels@.subrange(0, byte_len(self.dimensions()))
    }
}

/// Channel `c` of the pixel in column `i` and row `j` of a window is channel
/// `c` of the pixel in column `x + i` and row `y + j` of the image.
pub proof fn lemma_window_pixel(
    pixels: Seq<u8>,
    width: int,
    x: int,
    y: int,
    window_width: int,
    window_height: int,
    i: int,
    j: int,
    c: int,
)
    requires
        0 <= i < window_width,
        0 <= j < window_height,
        0 <= c < 4,
    ensures
        0 <= 4 * (j * window_width + i) + c < window_of(
            pixels,
            width,
            x,
            y,
            window_width,
            window_height,
        ).len(),
        window_of(pixels, width, x, y, window_width, window_height)[4 * (j * window_width + i)
            + c] == pixels[4 * ((y + j) * width + (x + i)) + c],
{
    let p = j * window_width + i;
    let k = 4 * p + c;
    assert(0 <= p < window_width * window_height && p / window_width == j && p % window_width
        == i) by (nonlinear_arith)
        requires
            p == j * window_width + i,
            0 <= i < window_width,
            0 <= j < window_height,
    {
        assert(j * window_width <= (window_height - 1) * window_width);
    }
    assert(4 * window_width * window_height == 4 * (window_width * window_height))
        by (nonlinear_arith);
    assert(k / 4 == p && k % 4 == c);
    assert((y + j) * width + x + i == (y + j) * width + (x + i));
}

/// The window that spans the whole image is the image.
pub proof fn lemma_full_window(pixels: Seq<u8>, width: int, height: int)
    requires
        width >= 0,
        height >= 0,
        pixels.len() >= 4 * width * height,
    ensures
        window_of(pixels, width, 0, 0, width, height) == pixels.subrange(0, 4 * width * height),
{
    let n = 4 * width * height;
    assert(n >= 0) by (nonlinear_arith)
        requires
            n == 4 * width * height,
            width >= 0,
            height >= 0,
    ;
    let w = window_of(pixels, width, 0, 0, width, height);
    assert forall|k: int| 0 <= k < n implies w[k] == pixels[k] by {
        let p = k / 4;
        assert(width > 0) by (nonlinear_arith)
            requires
                4 * width * height > 0,
                width >= 0,
        ;
        assert((p / width) * width + p % width == p) by (nonlinear_arith)
            requires
                width > 0,
        ;
    }
    assert(w =~= pixels.subrange(0, n));
}

} // verus!
