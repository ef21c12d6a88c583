//! Pixels and the rectangular buffer that holds a rendered image.

use vstd::prelude::*;
use crate::error_handler::RayTracerError;
use crate::error_handler::RayTracerResult;

verus! {

/// One pixel: three colour channels of eight bits each.
#[derive(Debug, Clone, Copy, PartialEq, Eq, Structural)]
pub struct Pixel {
    pub r: u8,
    pub g: u8,
    pub b: u8,
}

impl Pixel {
    /// The pixel with all channels at zero.
    pub fn black_pixel() -> (p: Self)
        ensures
            p == (Pixel { r: 0, g: 0, b: 0 }),
    {
        Self { r: 0, g: 0, b: 0 }
    }

    /// The pixel with the given channels.
    pub fn new(r: u8, g: u8, b: u8) -> (p: Self)
        ensures
            p == (Pixel { r, g, b }),
    {
        Self { r, g, b }
    }
}

/// What an image buffer holds: its dimensions and its pixels, row after row.
pub struct ImageView {
    pub width: nat,
    pub height: nat,
    pub pixels: Seq<Pixel>,
}

impl ImageView {
    /// There is exactly one pixel for each coordinate pair.
    pub open spec fn wf(self) -> bool {
        self.pixels.len() == self.width * self.height
    }

    /// The all-black image of the given dimensions.
    pub open spec fn blank(width: nat, height: nat) -> ImageView {
        ImageView {
            width,
            height,
            pixels: Seq::new(width * height, |i: int| Pixel { r: 0, g: 0, b: 0 }),
        }
    }

    /// Whether column `x` of row `y` lies inside the image.
    pub open spec fn contains(self, x: int, y: int) -> bool {
        0 <= x < self.width && 0 <= y < self.height
    }

    /// Where the pixel at column `x` of row `y` is stored.
    pub open spec fn index_of(self, x: int, y: int) -> int {
        y * self.width + x
    }

    /// The pixel at column `x` of row `y`.
    pub open spec fn pixel_at(self, x: int, y: int) -> Pixel {
        self.pixels[self.index_of(x, y)]
    }

    /// The image with the pixel at column `x` of row `y` replaced.
    pub open spec fn put(self, x: int, y: int, pixel: Pixel) -> ImageView {
        ImageView { pixels: self.pixels.update(self.index_of(x, y), pixel), ..self }
    }
}

/// Every coordinate pair inside the image has a slot of its own in the pixel sequence.
pub proof fn lemma_index_in_bounds(img: ImageView, x: int, y: int)
    requires
        img.wf(),
        img.contains(x, y),
    ensures
        0 <= img.index_of(x, y) < img.pixels.len(),
{
    let w = img.width as int;
    let h = img.height as int;
    assert(y * w + w <= h * w) by (nonlinear_arith)
        requires
            0 <= y < h,
            0 <= w,
    ;
    assert(0 <= y * w) by (nonlinear_arith)
        requires
            0 <= y,
            0 <= w,
    ;
}

/// Two coordinate pairs inside the image share a slot only if they are the same pair.
pub proof fn lemma_index_injective(img: ImageView, x1: int, y1: int, x2: int, y2: int)
    requires
        img.contains(x1, y1),
        img.contains(x2, y2),
        img.index_of(x1, y1) == img.index_of(x2, y2),
    ensures
        x1 == x2,
        y1 == y2,
{
    let w = img.width as int;
    if y1 < y2 {
        assert(y1 * w + w <= y2 * w) by (nonlinear_arith)
            requires
                y1 < y2,
                0 <= w,
        ;
    } else if y2 < y1 {
        assert(y2 * w + w <= y1 * w) by (nonlinear_arith)
            requires
                y2 < y1,
                0 <= w,
        ;
    }
}

/// A pixel that was put at a coordinate is read back there, and every other
/// pixel of the image is as it was.
pub proof fn lemma_put_then_read(img: ImageView, x: int, y: int, pixel: Pixel, x2: int, y2: int)
    requires
        img.wf(),
        img.contains(x, y),
        img.contains(x2, y2),
    ensures
        img.put(x, y, pixel).wf(),
        img.put(x, y, pixel).pixel_at(x, y) == pixel,
        (x2 != x || y2 != y) ==> img.put(x, y, pixel).pixel_at(x2, y2) == img.pixel_at(x2, y2),
{
    lemma_index_in_bounds(img, x, y);
    lemma_index_in_bounds(img, x2, y2);
    if x2 != x || y2 != y {
        if img.index_of(x, y) == img.index_of(x2, y2) {
            lemma_index_injective(img, x, y, x2, y2);
        }
    }
}

/// A rectangular image, stored row after row.
pub struct ImageBuffer {
    pixels: Vec<Pixel>,
    w: usize,
    h: usize,
}

impl View for ImageBuffer {
    type V = ImageView;

    closed spec fn view(&self) -> ImageView {
        ImageView { width: self.w as nat, height: self.h as nat, pixels: self.pixels@ }
    }
}

impl ImageBuffer {
    #[verifier::type_invariant]
    spec fn well_formed(self) -> bool {
        self.pixels@.len() == self.w * self.h <= usize::MAX
    }

    /// A black image of the given dimensions.
    pub fn new(width: usize, height: usize) -> (img: Self)
        requires
            width * height <= usize::MAX,
        ensures
            img@ == ImageView::blank(width as nat, height as nat),
            img@.wf(),
    {
        let pixels = vec![Pixel::black_pixel(); width * height];
        assert(pixels@ =~= ImageView::blank(width as nat, height as nat).pixels);
        Self { pixels, w: width, h: height }
    }

    /// The number of columns.
    pub fn width(&self) -> (w: usize)
        ensures
            w == self@.width,
            self@.wf(),
    {
        proof {
            use_type_invariant(self);
        }
        self.w
    }

    /// The number of rows.
    pub fn height(&self) -> (h: usize)
        ensures
            h == self@.height,
            self@.wf(),
    {
        proof {
            use_type_invariant(self);
        }
        self.h
    }

    /// The storage index of the pixel at column `x` of row `y`, or
    /// `OutsideImageBuffer` when the image has no such pixel.
    pub fn get_index(&self, x: usize, y: usize) -> (r: RayTracerResult<usize>)
        ensures
            match r {
                Ok(i) => self@.contains(x as int, y as int) && i == self@.index_of(
                    x as int,
                    y as int,
                ) && i < self@.pixels.len(),
                Err(e) => !self@.contains(x as int, y as int) && e is OutsideImageBuffer,
            },
    {
        proof {
            use_type_invariant(self);
        }
        if y < self.h && x < self.w {
            proof {
                lemma_index_in_bounds(self@, x as int, y as int);
            }
            return Ok(y * self.w + x);
        } else {
            return Err(RayTracerError::OutsideImageBuffer);
        }
    }

    /// The pixel at column `x` of row `y`.
    pub fn get_pixel(&self, x: usize, y: usize) -> (r: RayTracerResult<Pixel>)
        ensures
            match r {
                Ok(p) => self@.contains(x as int, y as int) && p == self@.pixel_at(
                    x as int,
                    y as int,
                ),
                Err(e) => !self@.contains(x as int, y as int) && e is OutsideImageBuffer,
            },
    {
        match self.get_index(x, y) {
            Ok(i) => Ok(self.pixels[i]),
            Err(e) => Err(e),
        }
    }

    /// Replaces the pixel at column `x` of row `y`. An image that has no such
    /// pixel is left as it was.
    pub fn set_pixel(&mut self, x: usize, y: usize, pixel: Pixel) -> (r: RayTracerResult<()>)
        ensures
            match r {
                Ok(_) => old(self)@.contains(x as int, y as int) && final(self)@ == old(self)@.put(
                    x as int,
                    y as int,
                    pixel,
                ),
                Err(e) => !old(self)@.contains(x as int, y as int) && e is OutsideImageBuffer
                    && final(self)@ == old(self)@,
            },
            final(self)@.wf(),
    {
        proof {
            use_type_invariant(&*self);
        }
        match self.get_index(x, y) {
            Ok(i) => {
                self.pixels[i] = pixel;
                Ok(())
            },
            Err(e) => Err(e),
        }
    }
}

} // verus!
