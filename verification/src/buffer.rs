//! The pixel buffer: a row-major grid of colors with bounds-checked writes.

use vstd::prelude::*;
use vstd::arithmetic::div_mod::lemma_fundamental_div_mod;
use crate::color::Color;
use crate::present::Transfer;

verus! {

/// A `width` by `height` grid of colors, stored row by row with the origin in
/// the top-left corner.
pub struct Buffer {
    width: usize,
    height: usize,
    pixels: Vec<Color>,
}

impl View for Buffer {
    type V = Seq<Color>;

    /// The backing storage, row-major.
    closed spec fn view(&self) -> Seq<Color> {
        self.pixels@
    }
}

impl Buffer {
    #[verifier::type_invariant]
    spec fn inv(&self) -> bool {
        self.pixels@.len() == self.width * self.height
    }

    pub closed spec fn spec_width(&self) -> usize {
        self.width
    }

    pub closed spec fn spec_height(&self) -> usize {
        self.height
    }

    /// The storage holds exactly one color per coordinate, and no more
    /// colors than can be counted.
    pub open spec fn wf(&self) -> bool {
        self@.len() == self.spec_width() * self.spec_height() <= usize::MAX
    }

    /// Whether `(x, y)` names a pixel of this buffer.
    pub open spec fn contains(&self, x: int, y: int) -> bool {
        0 <= x < self.spec_width() && 0 <= y < self.spec_height()
    }

    /// The color at `(x, y)`; meaningful when `contains(x, y)`.
    pub open spec fn pixel(&self, x: int, y: int) -> Color {
        self@[y * self.spec_width() + x]
    }

    /// A buffer of `width * height` pixels, all black.
    pub fn new(width: usize, height: usize) -> (buffer: Buffer)
        requires
            width * height <= usize::MAX,
        ensures
            buffer.wf(),
            buffer.spec_width() == width,
            buffer.spec_height() == height,
            buffer@ == Seq::new((width * height) as nat, |i: int| Color::spec_black()),
            forall|x: int, y: int|
                buffer.contains(x, y) ==> #[trigger] buffer.pixel(x, y) == Color::spec_black(),
    {
        let pixels = vec![Color::black(); width * height];
        let buffer = Buffer { width, height, pixels };
        proof {
            assert forall|x: int, y: int| buffer.contains(x, y) implies #[trigger] buffer.pixel(
                x,
                y,
            ) == Color::spec_black() by {
                lemma_index_in_range(width as int, height as int, x, y);
            }
        }
        buffer
    }

    /// Writes `color` at `(x, y)` if that coordinate lies inside the buffer,
    /// and does nothing otherwise.
    pub fn set_pixel(&mut self, x: usize, y: usize, color: Color)
        ensures
            final(self).wf(),
            final(self).spec_width() == old(self).spec_width(),
            final(self).spec_height() == old(self).spec_height(),
            old(self).contains(x as int, y as int) ==> final(self)@ == old(self)@.update(
                y * old(self).spec_width() + x,
                color,
            ),
            !old(self).contains(x as int, y as int) ==> final(self)@ == old(self)@,
            forall|i: int, j: int|
                final(self).contains(i, j) ==> #[trigger] final(self).pixel(i, j) == if i == x
                    && j == y {
                    color
                } else {
                    old(self).pixel(i, j)
                },
    {
        proof {
            use_type_invariant(&*self);
            assert(self.pixels@.len() == self.pixels.len());
        }
        if x < self.width && y < self.height {
            proof {
                lemma_index_in_range(
                    self.width as int,
                    self.height as int,
                    x as int,
                    y as int,
                );
                assert(self.width * self.height == self.pixels.len());
            }
            let index: usize = y * self.width + x;
            self.pixels[index] = color;
            proof {
                assert forall|i: int, j: int| self.contains(i, j) implies #[trigger] self.pixel(
                    i,
                    j,
                ) == if i == x && j == y {
                    color
                } else {
                    old(self).pixel(i, j)
                } by {
                    lemma_index_in_range(self.width as int, self.height as int, i, j);
                    if j * self.width + i == y * self.width + x {
                        lemma_index_injective(self.width as int, i, j, x as int, y as int);
                    }
                }
            }
        }
    }

    /// Read-only access to the backing storage, row-major from the top-left.
    pub fn get(&self) -> (pixels: &Vec<Color>)
        ensures
            pixels@ == self@,
            self.wf(),
    {
        proof {
            use_type_invariant(self);
            assert(self.pixels@.len() == self.pixels.len());
        }
        &self.pixels
    }

    /// The transfer that puts the whole buffer on the display, with its
    /// top-left corner at `(x, y)`.
    pub open spec fn spec_blit_at(&self, x: usize, y: usize) -> Transfer {
        Transfer {
            start: 0,
            end: self@.len() as usize,
            x,
            y,
            width: self.spec_width(),
            height: self.spec_height(),
        }
    }

    /// The transfer that puts the whole buffer on the display, with its
    /// top-left corner at the origin.
    pub fn blit(&self) -> (transfer: Transfer)
        ensures
            transfer == self.spec_blit_at(0, 0),
            transfer.wf(),
            transfer.on_display(self.spec_width(), self.spec_height()),
    {
        self.blit_at(0, 0)
    }

    /// The transfer that puts the whole buffer on the display, with its
    /// top-left corner at `(x, y)`.
    pub fn blit_at(&self, x: usize, y: usize) -> (transfer: Transfer)
        ensures
            transfer == self.spec_blit_at(x, y),
            transfer.wf(),
    {
        proof {
            use_type_invariant(self);
            assert(self.pixels@.len() == self.pixels.len());
        }
        Transfer {
            start: 0,
            end: self.pixels.len(),
            x,
            y,
            width: self.width,
            height: self.height,
        }
    }

    #[verifier::when_used_as_spec(spec_width)]
    pub fn width(&self) -> (width: usize)
        ensures
            width == self.spec_width(),
            self.wf(),
    {
        proof {
            use_type_invariant(self);
            assert(self.pixels@.len() == self.pixels.len());
        }
        self.width
    }

    #[verifier::when_used_as_spec(spec_height)]
    pub fn height(&self) -> (height: usize)
        ensures
            height == self.spec_height(),
            self.wf(),
    {
        proof {
            use_type_invariant(self);
            assert(self.pixels@.len() == self.pixels.len());
        }
        self.height
    }
}

/// The pixels of a buffer are all there is to it: two buffers of one size
/// that agree on every pixel hold the same storage.
pub proof fn lemma_same_pixels_same_view(a: Buffer, b: Buffer)
    requires
        a.wf(),
        b.wf(),
        a.spec_width() == b.spec_width(),
        a.spec_height() == b.spec_height(),
        forall|x: int, y: int| a.contains(x, y) ==> #[trigger] a.pixel(x, y) == b.pixel(x, y),
    ensures
        a@ == b@,
{
    let width = a.spec_width() as int;
    let height = a.spec_height() as int;
    assert forall|i: int| 0 <= i < a@.len() implies a@[i] == b@[i] by {
        assert(width > 0) by (nonlinear_arith)
            requires
                0 <= i < width * height,
                0 <= width,
        ;
        let x = i % width;
        let y = i / width;
        lemma_fundamental_div_mod(i, width);
        assert(width * y == y * width) by (nonlinear_arith);
        assert(y < height) by (nonlinear_arith)
            requires
                y * width + x < width * height,
                0 <= x,
                0 < width,
        ;
        assert(0 <= y) by (nonlinear_arith)
            requires
                y == i / width,
                0 <= i,
                0 < width,
        ;
        assert(a.contains(x, y));
        assert(a.pixel(x, y) == b.pixel(x, y));
    }
    assert(a@ =~= b@);
}

/// The linear index of an in-bounds coordinate lies inside the storage.
pub proof fn lemma_index_in_range(width: int, height: int, x: int, y: int)
    requires
        0 <= x < width,
        0 <= y < height,
    ensures
        0 <= y * width + x < width * height,
{
    assert(y * width + x < width * height) by (nonlinear_arith)
        requires
            0 <= x < width,
            0 <= y < height,
    {
        assert((y + 1) * width <= height * width);
    }
    assert(0 <= y * width) by (nonlinear_arith)
        requires
            0 <= y,
            0 <= width,
    ;
}

/// Two in-bounds coordinates with the same linear index are the same
/// coordinate.
pub proof fn lemma_index_injective(width: int, x1: int, y1: int, x2: int, y2: int)
    requires
        0 <= x1 < width,
        0 <= x2 < width,
        0 <= y1,
        0 <= y2,
        y1 * width + x1 == y2 * width + x2,
    ensures
        x1 == x2,
        y1 == y2,
{
    if y1 < y2 {
        assert((y1 + 1) * width <= y2 * width) by (nonlinear_arith)
            requires
                y1 + 1 <= y2,
                0 <= width,
        ;
        assert((y1 + 1) * width == y1 * width + width) by (nonlinear_arith);
    } else if y2 < y1 {
        assert((y2 + 1) * width <= y1 * width) by (nonlinear_arith)
            requires
                y2 + 1 <= y1,
                0 <= width,
        ;
        assert((y2 + 1) * width == y2 * width + width) by (nonlinear_arith);
    }
}

} // verus!
