//! RGBA pixel buffers: the backing store of a glyph atlas and the output of
//! the rasterizer.
//!
//! A buffer holds `width * height` pixels in row-major order; pixel `(x, y)`
//! sits at flat index `y * width + x`.

use vstd::prelude::*;

verus! {

use crate::color::Rgba;

/// A rectangular RGBA image: a row-major pixel buffer with its dimensions.
pub struct Image {
    width: usize,
    height: usize,
    pixels: Vec<Rgba>,
}

impl Image {
    /// Well-formed: the buffer holds exactly `width * height` pixels.
    pub closed spec fn wf(&self) -> bool {
        self.pixels@.len() == self.width * self.height
    }

    pub closed spec fn spec_width(&self) -> int {
        self.width as int
    }

    pub closed spec fn spec_height(&self) -> int {
        self.height as int
    }

    /// Width and height are machine words: they fit in `usize`.
    pub proof fn lemma_dims_bounded(&self)
        ensures
            0 <= self.spec_width() <= usize::MAX,
            0 <= self.spec_height() <= usize::MAX,
    {
    }

    /// The pixel at flat (row-major) index `i`.
    pub closed spec fn pixel_at(&self, i: int) -> Rgba {
        self.pixels@[i]
    }

    /// The pixel at column `x` of row `y`.
    pub open spec fn pixel(&self, x: int, y: int) -> Rgba {
        self.pixel_at(y * self.spec_width() + x)
    }

    pub fn width(&self) -> (w: usize)
        ensures
            w as int == self.spec_width(),
    {
        self.width
    }

    pub fn height(&self) -> (h: usize)
        ensures
            h as int == self.spec_height(),
    {
        self.height
    }

    /// An image of the given dimensions over a buffer already known to
    /// hold exactly `width * height` pixels.
    pub fn new(width: usize, height: usize, pixels: Vec<Rgba>) -> (img: Image)
        requires
            pixels@.len() == width * height,
        ensures
            img.wf(),
            img.spec_width() == width,
            img.spec_height() == height,
            forall|i: int| 0 <= i < pixels@.len() ==> img.pixel_at(i) == pixels@[i],
    {
        Image { width, height, pixels }
    }

    /// An image of the given dimensions over the given buffer; answers
    /// `None` exactly when the buffer's length is not `width * height`.
    pub fn from_pixels(width: usize, height: usize, pixels: Vec<Rgba>) -> (r: Option<Image>)
        ensures
            match r {
                Some(img) => {
                    &&& pixels@.len() == width * height
                    &&& img.wf()
                    &&& img.spec_width() == width
                    &&& img.spec_height() == height
                    &&& forall|i: int| 0 <= i < pixels@.len() ==> img.pixel_at(i) == pixels@[i]
                },
                None => pixels@.len() != width * height,
            },
    {
        let len = pixels.len();
        match width.checked_mul(height) {
            Some(n) => {
                if len == n {
                    Some(Image { width, height, pixels })
                } else {
                    None
                }
            },
            None => {
                // The product overflows usize, so no buffer can be that long.
                None
            },
        }
    }

    /// The pixel at `(x, y)`.
    pub fn get_pixel(&self, x: usize, y: usize) -> (p: Rgba)
        requires
            self.wf(),
            x < self.spec_width(),
            y < self.spec_height(),
        ensures
            p == self.pixel(x as int, y as int),
    {
        let n = self.pixels.len();
        proof {
            assert(y * self.width + x < self.width * self.height) by (nonlinear_arith)
                requires
                    x < self.width,
                    y < self.height,
            ;
            assert(y * self.width + x < n);
        }
        self.pixels[y * self.width + x]
    }

    /// The buffer flattened to bytes, four per pixel, in the channel order
    /// red, green, blue, alpha.
    pub fn to_rgba_bytes(&self) -> (bytes: Vec<u8>)
        requires
            self.wf(),
        ensures
            bytes@.len() == 4 * self.spec_width() * self.spec_height(),
            forall|i: int|
                0 <= i < self.spec_width() * self.spec_height() ==> {
                    &&& bytes@[4 * i] == (#[trigger] self.pixel_at(i)).r
                    &&& bytes@[4 * i + 1] == self.pixel_at(i).g
                    &&& bytes@[4 * i + 2] == self.pixel_at(i).b
                    &&& bytes@[4 * i + 3] == self.pixel_at(i).a
                },
    {
        let n = self.pixels.len();
        let mut bytes: Vec<u8> = Vec::new();
        let mut i: usize = 0;
        while i < n
            invariant
                n == self.pixels@.len(),
                i <= n,
                bytes@.len() == 4 * i,
                forall|j: int|
                    0 <= j < i ==> {
                        &&& bytes@[4 * j] == (#[trigger] self.pixel_at(j)).r
                        &&& bytes@[4 * j + 1] == self.pixel_at(j).g
                        &&& bytes@[4 * j + 2] == self.pixel_at(j).b
                        &&& bytes@[4 * j + 3] == self.pixel_at(j).a
                    },
            decreases n - i,
        {
            let p = self.pixels[i];
            bytes.push(p.r);
            bytes.push(p.g);
            bytes.push(p.b);
            bytes.push(p.a);
            i = i + 1;
        }
        proof {
            assert(4 * self.pixels@.len() == 4 * self.spec_width() * self.spec_height())
                by (nonlinear_arith)
                requires
                    self.pixels@.len() == self.width * self.height,
                    self.spec_width() == self.width as int,
                    self.spec_height() == self.height as int,
            ;
        }
        bytes
    }
}

} // verus!
