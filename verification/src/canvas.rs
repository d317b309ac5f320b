//! The pixel buffer that text is drawn on.

use vstd::prelude::*;
use crate::color::Rgba;

verus! {

/// The mathematical picture that a canvas holds: a colour for every
/// coordinate of a `width` by `height` rectangle.
pub struct Raster {
    pub width: int,
    pub height: int,
    pub pixels: Map<(int, int), Rgba>,
}

impl Raster {
    /// Whether `(x, y)` is a coordinate of the picture.
    pub open spec fn contains(self, x: int, y: int) -> bool {
        0 <= x < self.width && 0 <= y < self.height
    }

    /// The colour at `(x, y)`.
    pub open spec fn at(self, x: int, y: int) -> Rgba {
        self.pixels[(x, y)]
    }

    /// The picture with the colour at `(x, y)` replaced.
    pub open spec fn with_pixel(self, x: int, y: int, color: Rgba) -> Raster {
        Raster { pixels: self.pixels.insert((x, y), color), ..self }
    }

    /// The picture holds a colour exactly for the coordinates of its rectangle.
    pub open spec fn wf(self) -> bool {
        &&& 0 <= self.width
        &&& 0 <= self.height
        &&& forall|x: int, y: int| #[trigger]
            self.pixels.dom().contains((x, y)) <==> self.contains(x, y)
    }
}

/// A mutable RGBA pixel buffer, stored row by row from the top.
#[derive(Debug)]
pub struct Canvas {
    pub width: u32,
    pub height: u32,
    pub pixels: Vec<Rgba>,
}

/// Position of `(x, y)` in a row-major buffer of the given width.
pub open spec fn pixel_index(width: int, x: int, y: int) -> int {
    y * width + x
}

/// Every coordinate of a rectangle has a position inside its buffer.
pub proof fn lemma_pixel_index_bounds(width: int, height: int, x: int, y: int)
    requires
        0 <= x < width,
        0 <= y < height,
    ensures
        0 <= y * width,
        0 <= pixel_index(width, x, y) < width * height,
{
    assert(0 <= y * width && (y + 1) * width <= height * width) by (nonlinear_arith)
        requires
            0 <= y < height,
            0 < width,
    ;
    assert((y + 1) * width == y * width + width) by (nonlinear_arith);
    assert(height * width == width * height) by (nonlinear_arith);
}

/// Two distinct coordinates of a row-major buffer have distinct positions.
pub proof fn lemma_pixel_index_injective(width: int, x1: int, y1: int, x2: int, y2: int)
    requires
        0 <= x1 < width,
        0 <= x2 < width,
        pixel_index(width, x1, y1) == pixel_index(width, x2, y2),
    ensures
        x1 == x2,
        y1 == y2,
{
    assert(y1 == y2) by (nonlinear_arith)
        requires
            0 <= x1 < width,
            0 <= x2 < width,
            y1 * width + x1 == y2 * width + x2,
    ;
}

/// Every position of a row-major buffer belongs to one coordinate of its
/// rectangle.
pub proof fn lemma_pixel_index_onto(width: int, height: int, index: int)
    requires
        0 < width,
        0 <= index < width * height,
    ensures
        0 <= index % width < width,
        0 <= index / width < height,
        pixel_index(width, index % width, index / width) == index,
{
    vstd::arithmetic::div_mod::lemma_fundamental_div_mod(index, width);
    vstd::arithmetic::div_mod::lemma_mod_bound(index, width);
    let x = index % width;
    let y = index / width;
    assert(width * y == y * width) by (nonlinear_arith);
    assert(0 <= y < height) by (nonlinear_arith)
        requires
            index == y * width + x,
            0 <= x < width,
            0 <= index < width * height,
    ;
}

impl View for Canvas {
    type V = Raster;

    open spec fn view(&self) -> Raster {
        Raster {
            width: self.width as int,
            height: self.height as int,
            pixels: Map::new(
                |p: (int, int)| 0 <= p.0 < self.width && 0 <= p.1 < self.height,
                |p: (int, int)| self.pixels@[pixel_index(self.width as int, p.0, p.1)],
            ),
        }
    }
}

impl Canvas {
    /// The buffer holds one colour for each pixel of the rectangle.
    pub open spec fn wf(&self) -> bool {
        self.pixels@.len() == self.width * self.height
    }

    /// A canvas of one colour, or `None` where the number of pixels does not
    /// fit the machine's addresses.
    pub fn new(width: u32, height: u32, fill: Rgba) -> (made: Option<Canvas>)
        ensures
            made is Some <==> width * height <= usize::MAX,
            made is Some ==> {
                let canvas = made->0;
                &&& canvas.wf()
                &&& canvas.width == width
                &&& canvas.height == height
                &&& forall|x: int, y: int| #[trigger]
                    canvas@.contains(x, y) ==> canvas@.at(x, y) == fill
            },
    {
        assert(width * height <= 0xffff_ffff * 0xffff_ffff) by (nonlinear_arith)
            requires
                0 <= width <= 0xffff_ffff,
                0 <= height <= 0xffff_ffff,
        ;
        let total: u64 = width as u64 * height as u64;
        if total > usize::MAX as u64 {
            return None;
        }
        let mut pixels: Vec<Rgba> = Vec::new();
        let mut i: u64 = 0;
        while i < total
            invariant
                i <= total,
                pixels@.len() == i,
                forall|j: int| 0 <= j < i ==> pixels@[j] == fill,
            decreases total - i,
        {
            pixels.push(fill);
            i += 1;
        }
        let canvas = Canvas { width, height, pixels };
        proof {
            assert forall|x: int, y: int| #[trigger] canvas@.contains(x, y) implies canvas@.at(
                x,
                y,
            ) == fill by {
                lemma_pixel_index_bounds(width as int, height as int, x, y);
            }
        }
        Some(canvas)
    }

    /// A canvas over the given row-major pixels, or `None` where their number
    /// is not `width * height`.
    pub fn from_pixels(width: u32, height: u32, pixels: Vec<Rgba>) -> (made: Option<Canvas>)
        ensures
            made is Some <==> pixels@.len() == width * height,
            made is Some ==> made->0 == (Canvas { width, height, pixels }),
            made is Some ==> made->0.wf(),
    {
        assert(width * height <= 0xffff_ffff * 0xffff_ffff) by (nonlinear_arith)
            requires
                0 <= width <= 0xffff_ffff,
                0 <= height <= 0xffff_ffff,
        ;
        let total: u64 = width as u64 * height as u64;
        if pixels.len() as u64 == total {
            Some(Canvas { width, height, pixels })
        } else {
            None
        }
    }

    /// Width in pixels.
    pub fn width(&self) -> (width: u32)
        ensures
            width == self@.width,
    {
        self.width
    }

    /// Height in pixels.
    pub fn height(&self) -> (height: u32)
        ensures
            height == self@.height,
    {
        self.height
    }

    /// The colour at `(x, y)`.
    pub fn get_pixel(&self, x: u32, y: u32) -> (color: Rgba)
        requires
            self.wf(),
            x < self.width,
            y < self.height,
        ensures
            color == self@.at(x as int, y as int),
    {
        proof {
            lemma_pixel_index_bounds(self.width as int, self.height as int, x as int, y as int);
            assert(self.pixels.len() <= usize::MAX);
            assert(y * self.width <= pixel_index(self.width as int, x as int, y as int));
        }
        let index: usize = y as usize * self.width as usize + x as usize;
        self.pixels[index]
    }

    /// Replaces the colour at `(x, y)`.
    pub fn put_pixel(&mut self, x: u32, y: u32, color: Rgba)
        requires
            old(self).wf(),
            x < old(self).width,
            y < old(self).height,
        ensures
            final(self).wf(),
            final(self)@ == old(self)@.with_pixel(x as int, y as int, color),
    {
        proof {
            lemma_pixel_index_bounds(self.width as int, self.height as int, x as int, y as int);
            assert(self.pixels.len() <= usize::MAX);
            assert(y * self.width <= pixel_index(self.width as int, x as int, y as int));
        }
        let index: usize = y as usize * self.width as usize + x as usize;
        self.pixels.set(index, color);
        proof {
            let width = self.width as int;
            assert forall|p: (int, int)|
                0 <= p.0 < self.width && 0 <= p.1 < self.height implies #[trigger] self@.pixels[p]
                == old(self)@.with_pixel(x as int, y as int, color).pixels[p] by {
                lemma_pixel_index_bounds(width, self.height as int, p.0, p.1);
                if p != (x as int, y as int) {
                    if pixel_index(width, p.0, p.1) == pixel_index(width, x as int, y as int) {
                        lemma_pixel_index_injective(width, p.0, p.1, x as int, y as int);
                    }
                }
            }
            assert(self@.pixels =~= old(self)@.with_pixel(x as int, y as int, color).pixels);
        }
    }
}

/// Two canvases that hold the same picture hold the same pixels in the same
/// places of their buffers.
pub proof fn lemma_view_determines_pixels(a: Canvas, b: Canvas)
    requires
        a.wf(),
        b.wf(),
        a@ == b@,
    ensures
        a.width == b.width,
        a.height == b.height,
        a.pixels@ == b.pixels@,
{
    let width = a.width as int;
    let height = a.height as int;
    assert(a.pixels@.len() == b.pixels@.len());
    assert forall|i: int| 0 <= i < a.pixels@.len() implies a.pixels@[i] == b.pixels@[i] by {
        if width == 0 {
            assert(width * height == 0) by (nonlinear_arith)
                requires
                    width == 0,
            ;
        } else {
            lemma_pixel_index_onto(width, height, i);
            let p = (i % width, i / width);
            assert(a@.pixels[p] == a.pixels@[i]);
            assert(b@.pixels[p] == b.pixels@[i]);
        }
    }
    assert(a.pixels@ =~= b.pixels@);
}

} // verus!
