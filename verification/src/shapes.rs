//! Filled primitive shapes and their rasterization into a [`Buffer`].
//!
//! Positions and sizes are given in half pixels, so that a shape can sit on
//! the middle line of a buffer of odd height: `PIXEL` is one pixel, `HALF`
//! half of one. A position may lie anywhere on the plane, also left of or
//! above the buffer. A size or radius below zero gives a shape that covers
//! nothing.
//!
//! The edges of a shape are cut down to whole pixels: an edge falls on the
//! column or row that holds it, so a shape leans towards its lower and left
//! side by less than a pixel. The far edge is found from the sum of position
//! and size, not from the two cut down apart. A shape paints every pixel of
//! the target buffer that it covers and leaves all others alone: whatever
//! falls outside the buffer is dropped by the buffer's own bounds check.

use vstd::prelude::*;
use crate::buffer::Buffer;
use crate::color::Color;

verus! {

/// Half a pixel, the unit of every position and size.
pub const HALF: i64 = 1;

/// One pixel, in half pixels.
pub const PIXEL: i64 = 2;

/// A point on the plane, in half pixels. Pixel `(x, y)` of a buffer is the
/// point `(x * PIXEL, y * PIXEL)`.
#[derive(Clone, Copy, Debug, PartialEq, Eq, Structural)]
pub struct Point2D {
    pub x: i64,
    pub y: i64,
}

impl Default for Point2D {
    /// The origin, the top-left corner of every buffer.
    fn default() -> (point: Point2D)
        ensures
            point.x == 0,
            point.y == 0,
    {
        Point2D { x: 0, y: 0 }
    }
}

/// Something that can be painted into a buffer in a single color.
pub trait Shape {
    /// Whether the shape occupies the pixel at `(x, y)`.
    spec fn covers(&self, x: int, y: int) -> bool;

    /// The color the shape is painted in.
    spec fn paint(&self) -> Color;

    /// Paints the shape: every pixel of `buffer` that the shape covers takes
    /// the shape's color, every other pixel keeps its own.
    fn render(&self, buffer: &mut Buffer)
        ensures
            final(buffer).width() == old(buffer).width(),
            final(buffer).height() == old(buffer).height(),
            forall|x: int, y: int|
                final(buffer).contains(x, y) ==> #[trigger] final(buffer).pixel(x, y)
                    == if self.covers(x, y) {
                    self.paint()
                } else {
                    old(buffer).pixel(x, y)
                },
    ;
}

/// The column or row that a coordinate, given in half pixels, falls on: the
/// coordinate cut down to whole pixels, and where that is no index, the
/// nearest end of the index range.
pub open spec fn index_of(coordinate: int) -> int {
    if coordinate < 0 {
        0
    } else if coordinate / 2 > usize::MAX {
        usize::MAX as int
    } else {
        coordinate / 2
    }
}

fn index(coordinate: i128) -> (index: usize)
    ensures
        index == index_of(coordinate as int),
{
    if coordinate < 0 {
        0
    } else if coordinate / 2 > usize::MAX as i128 {
        usize::MAX
    } else {
        (coordinate / 2) as usize
    }
}

/// Paints the pixels of `buffer` whose column lies in `begin_x..end_x` and
/// whose row lies in `begin_y..end_y`.
pub(crate) fn fill_box(
    buffer: &mut Buffer,
    begin_x: usize,
    end_x: usize,
    begin_y: usize,
    end_y: usize,
    color: Color,
)
    ensures
        final(buffer).width() == old(buffer).width(),
        final(buffer).height() == old(buffer).height(),
        forall|x: int, y: int|
            final(buffer).contains(x, y) ==> #[trigger] final(buffer).pixel(x, y) == if begin_x
                <= x < end_x && begin_y <= y < end_y {
                color
            } else {
                old(buffer).pixel(x, y)
            },
{
    let ghost before = *buffer;
    let mut x: usize = begin_x;
    while x < end_x
        invariant
            begin_x <= x,
            x <= end_x || x == begin_x,
            buffer.width() == before.width(),
            buffer.height() == before.height(),
            forall|i: int, j: int|
                buffer.contains(i, j) ==> #[trigger] buffer.pixel(i, j) == if begin_x <= i < x
                    && begin_y <= j < end_y {
                    color
                } else {
                    before.pixel(i, j)
                },
        decreases end_x - x,
    {
        let mut y: usize = begin_y;
        while y < end_y
            invariant
                begin_x <= x < end_x,
                begin_y <= y,
                y <= end_y || y == begin_y,
                buffer.width() == before.width(),
                buffer.height() == before.height(),
                forall|i: int, j: int|
                    buffer.contains(i, j) ==> #[trigger] buffer.pixel(i, j) == if (begin_x <= i < x
                        && begin_y <= j < end_y) || (i == x && begin_y <= j < y) {
                        color
                    } else {
                        before.pixel(i, j)
                    },
            decreases end_y - y,
        {
            buffer.set_pixel(x, y, color);
            y += 1;
        }
        x += 1;
    }
}

/// A filled axis-aligned square with sides of length `size` and its
/// top-left corner at `position`.
pub struct Square {
    pub size: i64,
    pub position: Point2D,
    pub color: Color,
}

impl Square {
    pub fn new(size: i64, position: Point2D, color: Color) -> (square: Square)
        ensures
            square == (Square { size, position, color }),
    {
        Square { size, position, color }
    }
}

impl Shape for Square {
    /// The columns from the one that holds the left edge up to, but not
    /// including, the one that holds the right edge, and the rows likewise.
    open spec fn covers(&self, x: int, y: int) -> bool {
        &&& index_of(self.position.x as int) <= x < index_of(self.position.x + self.size)
        &&& index_of(self.position.y as int) <= y < index_of(self.position.y + self.size)
    }

    open spec fn paint(&self) -> Color {
        self.color
    }

    fn render(&self, buffer: &mut Buffer) {
        let begin_x: usize = index(self.position.x as i128);
        let end_x: usize = index(self.position.x as i128 + self.size as i128);
        let begin_y: usize = index(self.position.y as i128);
        let end_y: usize = index(self.position.y as i128 + self.size as i128);
        fill_box(buffer, begin_x, end_x, begin_y, end_y, self.color);
    }
}

/// A square is the rectangle whose width and height are both its size: the
/// two cover the same pixels and paint them alike.
pub proof fn lemma_square_is_rectangle(square: Square, x: int, y: int)
    ensures
        square.covers(x, y) == (Rectangle {
            width: square.size,
            height: square.size,
            position: square.position,
            color: square.color,
        }).covers(x, y),
        square.paint() == (Rectangle {
            width: square.size,
            height: square.size,
            position: square.position,
            color: square.color,
        }).paint(),
{
}

/// A filled axis-aligned rectangle of size `width` by `height`, with its
/// top-left corner at `position`.
pub struct Rectangle {
    pub width: i64,
    pub height: i64,
    pub position: Point2D,
    pub color: Color,
}

impl Rectangle {
    pub fn new(width: i64, height: i64, position: Point2D, color: Color) -> (rectangle:
        Rectangle)
        ensures
            rectangle == (Rectangle { width, height, position, color }),
    {
        Rectangle { width, height, position, color }
    }
}

impl Shape for Rectangle {
    /// The columns from the one that holds the left edge up to, but not
    /// including, the one that holds the right edge, and the rows likewise.
    open spec fn covers(&self, x: int, y: int) -> bool {
        &&& index_of(self.position.x as int) <= x < index_of(self.position.x + self.width)
        &&& index_of(self.position.y as int) <= y < index_of(self.position.y + self.height)
    }

    open spec fn paint(&self) -> Color {
        self.color
    }

    fn render(&self, buffer: &mut Buffer) {
        let begin_x: usize = index(self.position.x as i128);
        let end_x: usize = index(self.position.x as i128 + self.width as i128);
        let begin_y: usize = index(self.position.y as i128);
        let end_y: usize = index(self.position.y as i128 + self.height as i128);
        fill_box(buffer, begin_x, end_x, begin_y, end_y, self.color);
    }
}

/// Where position and size are whole pixels, nothing is cut: a rectangle of
/// `width` by `height` pixels with its corner on pixel `(left, top)` covers
/// the columns from `left` up to, but not including, `left + width`, and the
/// rows likewise.
pub proof fn lemma_rectangle_of_whole_pixels(
    rectangle: Rectangle,
    left: int,
    top: int,
    width: int,
    height: int,
    x: int,
    y: int,
)
    requires
        rectangle.position.x == 2 * left,
        rectangle.position.y == 2 * top,
        rectangle.width == 2 * width,
        rectangle.height == 2 * height,
        0 <= x < usize::MAX,
        0 <= y < usize::MAX,
    ensures
        rectangle.covers(x, y) <==> left <= x < left + width && top <= y < top + height,
{
}

/// A filled disk of the given `radius` around the center `position`.
pub struct Circle {
    pub radius: i64,
    pub position: Point2D,
    pub color: Color,
}

/// How far the pixel with the given column or row index lies from a
/// coordinate, in half pixels.
fn span(index: usize, coordinate: i64) -> (distance: u128)
    ensures
        distance == if 2 * index >= coordinate {
            2 * index - coordinate
        } else {
            coordinate - 2 * index
        },
{
    let delta: i128 = 2 * (index as i128) - coordinate as i128;
    if delta < 0 {
        (-delta) as u128
    } else {
        delta as u128
    }
}

impl Circle {
    /// Whether pixel `(x, y)` lies in the bounding box: the columns from the
    /// one that holds the point `radius` left of the center up to, but not
    /// including, the one that holds the point `radius` right of it, and the
    /// rows likewise.
    pub open spec fn in_bounding_box(&self, x: int, y: int) -> bool {
        &&& index_of(self.position.x - self.radius) <= x < index_of(
            self.position.x + self.radius,
        )
        &&& index_of(self.position.y - self.radius) <= y < index_of(
            self.position.y + self.radius,
        )
    }

    /// Whether the Euclidean distance from the center to pixel `(x, y)` is
    /// at most `radius`, stated over the squares and in half pixels.
    pub open spec fn within_radius(&self, x: int, y: int) -> bool {
        &&& self.radius >= 0
        &&& (2 * x - self.position.x) * (2 * x - self.position.x) + (2 * y - self.position.y)
            * (2 * y - self.position.y) <= self.radius * self.radius
    }

    pub fn new(radius: i64, position: Point2D, color: Color) -> (circle: Circle)
        ensures
            circle == (Circle { radius, position, color }),
    {
        Circle { radius, position, color }
    }

    /// The distance test for one pixel of the bounding box.
    fn reaches(&self, x: usize, y: usize) -> (inside: bool)
        requires
            self.in_bounding_box(x as int, y as int),
        ensures
            inside == self.within_radius(x as int, y as int),
    {
        let dx: u128 = span(x, self.position.x);
        let dy: u128 = span(y, self.position.y);
        proof {
            assert(self.radius > 0);
            assert(dx <= self.radius + 1);
            assert(dy <= self.radius + 1);
        }
        let reach: u128 = self.radius as u128;
        proof {
            let cx = self.position.x as int;
            let cy = self.position.y as int;
            assert(reach * reach <= 0xFFFF_FFFF_FFFF_FFFF * 0xFFFF_FFFF_FFFF_FFFF)
                by (nonlinear_arith)
                requires
                    0 <= reach <= 0xFFFF_FFFF_FFFF_FFFF,
            ;
            assert(dx * dx == (2 * x - cx) * (2 * x - cx)) by (nonlinear_arith)
                requires
                    dx == 2 * x - cx || dx == cx - 2 * x,
            ;
            assert(dy * dy == (2 * y - cy) * (2 * y - cy)) by (nonlinear_arith)
                requires
                    dy == 2 * y - cy || dy == cy - 2 * y,
            ;
            if dx <= reach {
                assert(dx * dx <= reach * reach) by (nonlinear_arith)
                    requires
                        0 <= dx <= reach,
                ;
            } else {
                assert(dx * dx > reach * reach) by (nonlinear_arith)
                    requires
                        0 <= reach < dx,
                ;
            }
            if dy <= reach {
                assert(dy * dy <= reach * reach) by (nonlinear_arith)
                    requires
                        0 <= dy <= reach,
                ;
            } else {
                assert(dy * dy > reach * reach) by (nonlinear_arith)
                    requires
                        0 <= reach < dy,
                ;
            }
            assert(0 <= dx * dx) by (nonlinear_arith);
            assert(0 <= dy * dy) by (nonlinear_arith);
        }
        if dx > reach || dy > reach {
            false
        } else {
            let limit: u128 = reach * reach;
            let across: u128 = dx * dx;
            let down: u128 = dy * dy;
            down <= limit - across
        }
    }
}

/// Where center and radius are whole pixels, a disk of `radius` pixels
/// around pixel `(center_x, center_y)` covers the pixels at most `radius`
/// away from that pixel, short of the far edges of its bounding box.
pub proof fn lemma_circle_of_whole_pixels(
    circle: Circle,
    center_x: int,
    center_y: int,
    radius: int,
    x: int,
    y: int,
)
    requires
        circle.position.x == 2 * center_x,
        circle.position.y == 2 * center_y,
        circle.radius == 2 * radius,
        0 <= x < usize::MAX,
        0 <= y < usize::MAX,
    ensures
        circle.covers(x, y) <==> {
            &&& center_x - radius <= x < center_x + radius
            &&& center_y - radius <= y < center_y + radius
            &&& (x - center_x) * (x - center_x) + (y - center_y) * (y - center_y) <= radius
                * radius
        },
{
    let dx = x - center_x;
    let dy = y - center_y;
    assert((2 * x - 2 * center_x) * (2 * x - 2 * center_x) == 4 * (dx * dx))
        by (nonlinear_arith)
        requires
            dx == x - center_x,
    ;
    assert((2 * y - 2 * center_y) * (2 * y - 2 * center_y) == 4 * (dy * dy))
        by (nonlinear_arith)
        requires
            dy == y - center_y,
    ;
    assert((2 * radius) * (2 * radius) == 4 * (radius * radius)) by (nonlinear_arith);
}

impl Shape for Circle {
    /// The pixels of the bounding box whose distance from the center is at
    /// most `radius`; pixels exactly on the boundary are included.
    open spec fn covers(&self, x: int, y: int) -> bool {
        self.in_bounding_box(x, y) && self.within_radius(x, y)
    }

    open spec fn paint(&self) -> Color {
        self.color
    }

    fn render(&self, buffer: &mut Buffer) {
        let begin_x: usize = index(self.position.x as i128 - self.radius as i128);
        let end_x: usize = index(self.position.x as i128 + self.radius as i128);
        let begin_y: usize = index(self.position.y as i128 - self.radius as i128);
        let end_y: usize = index(self.position.y as i128 + self.radius as i128);
        let ghost before = *buffer;
        let mut x: usize = begin_x;
        while x < end_x
            invariant
                begin_x == index_of(self.position.x - self.radius),
                end_x == index_of(self.position.x + self.radius),
                begin_y == index_of(self.position.y - self.radius),
                end_y == index_of(self.position.y + self.radius),
                begin_x <= x,
                x <= end_x || x == begin_x,
                buffer.width() == before.width(),
                buffer.height() == before.height(),
                forall|i: int, j: int|
                    buffer.contains(i, j) ==> #[trigger] buffer.pixel(i, j) == if begin_x <= i < x
                        && self.covers(i, j) {
                        self.color
                    } else {
                        before.pixel(i, j)
                    },
            decreases end_x - x,
        {
            let mut y: usize = begin_y;
            while y < end_y
                invariant
                    begin_x == index_of(self.position.x - self.radius),
                    end_x == index_of(self.position.x + self.radius),
                    begin_y == index_of(self.position.y - self.radius),
                    end_y == index_of(self.position.y + self.radius),
                    begin_x <= x < end_x,
                    begin_y <= y,
                    y <= end_y || y == begin_y,
                    buffer.width() == before.width(),
                    buffer.height() == before.height(),
                    forall|i: int, j: int|
                        buffer.contains(i, j) ==> #[trigger] buffer.pixel(i, j) == if (begin_x <= i
                            < x || (i == x && j < y)) && self.covers(i, j) {
                            self.color
                        } else {
                            before.pixel(i, j)
                        },
                decreases end_y - y,
            {
                if self.reaches(x, y) {
                    buffer.set_pixel(x, y, self.color);
                }
                y += 1;
            }
            x += 1;
        }
    }
}

} // verus!
