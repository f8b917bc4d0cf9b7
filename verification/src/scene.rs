//! The animated scene: a red rectangle, a green square and a blue disk, all
//! hanging from the horizontal middle line of the buffer they are drawn into.
//! In a buffer of odd height that line runs through the middle of a row.
//!
//! All positions and sizes are in half pixels.

use vstd::prelude::*;
use crate::buffer::Buffer;
use crate::color::Color;
use crate::shapes::{index_of, Circle, Point2D, Rectangle, Shape, Square};

verus! {

/// The left edge of the rectangle: the left edge of column 100.
pub const RECTANGLE_X: i64 = 200;

/// The left edge of the square: the left edge of column 200.
pub const SQUARE_X: i64 = 400;

/// The center of the disk on the x axis: the left edge of column 400.
pub const CIRCLE_X: i64 = 800;

/// The width of the rectangle: 50 pixels.
pub const RECTANGLE_WIDTH: i64 = 100;

/// The height of the rectangle: 100 pixels.
pub const RECTANGLE_HEIGHT: i64 = 200;

/// The side of the square: 50 pixels.
pub const SQUARE_SIZE: i64 = 100;

/// The radius of the disk: 50 pixels.
pub const CIRCLE_RADIUS: i64 = 100;

/// The line that the shapes hang from in a buffer of the given height: half
/// the height, which in half pixels is the number of rows. A buffer with
/// more rows than there are coordinates has the line at the last coordinate;
/// such a buffer is too narrow for any shape of the scene to reach.
pub open spec fn spec_middle(height: usize) -> i64 {
    if height > i64::MAX {
        i64::MAX
    } else {
        height as i64
    }
}

/// The line that the shapes hang from in a buffer of the given height: the
/// top edge of the rectangle and of the square, and the center of the disk
/// on the y axis.
#[verifier::when_used_as_spec(spec_middle)]
pub fn middle(height: usize) -> (line: i64)
    ensures
        line == spec_middle(height),
        height <= i64::MAX ==> line == height,
{
    if height as u64 <= i64::MAX as u64 {
        height as i64
    } else {
        i64::MAX
    }
}

/// The red rectangle of the scene for a buffer of the given height.
pub open spec fn spec_rectangle(height: usize) -> Rectangle {
    Rectangle {
        width: RECTANGLE_WIDTH,
        height: RECTANGLE_HEIGHT,
        position: Point2D { x: RECTANGLE_X, y: spec_middle(height) },
        color: Color { red: 255, green: 0, blue: 0 },
    }
}

/// The green square of the scene for a buffer of the given height.
pub open spec fn spec_square(height: usize) -> Square {
    Square {
        size: SQUARE_SIZE,
        position: Point2D { x: SQUARE_X, y: spec_middle(height) },
        color: Color { red: 0, green: 255, blue: 0 },
    }
}

/// The blue disk of the scene for a buffer of the given height.
pub open spec fn spec_circle(height: usize) -> Circle {
    Circle {
        radius: CIRCLE_RADIUS,
        position: Point2D { x: CIRCLE_X, y: spec_middle(height) },
        color: Color { red: 0, green: 0, blue: 255 },
    }
}

/// The red rectangle of the scene for a buffer of the given height.
#[verifier::when_used_as_spec(spec_rectangle)]
pub fn rectangle(height: usize) -> (shape: Rectangle)
    ensures
        shape == spec_rectangle(height),
{
    Rectangle::new(
        RECTANGLE_WIDTH,
        RECTANGLE_HEIGHT,
        Point2D { x: RECTANGLE_X, y: middle(height) },
        Color::new(255, 0, 0),
    )
}

/// The green square of the scene for a buffer of the given height.
#[verifier::when_used_as_spec(spec_square)]
pub fn square(height: usize) -> (shape: Square)
    ensures
        shape == spec_square(height),
{
    Square::new(SQUARE_SIZE, Point2D { x: SQUARE_X, y: middle(height) }, Color::new(0, 255, 0))
}

/// The blue disk of the scene for a buffer of the given height.
#[verifier::when_used_as_spec(spec_circle)]
pub fn circle(height: usize) -> (shape: Circle)
    ensures
        shape == spec_circle(height),
{
    Circle::new(CIRCLE_RADIUS, Point2D { x: CIRCLE_X, y: middle(height) }, Color::new(0, 0, 255))
}

/// Whether the rectangle of the scene covers pixel `(x, y)` of a buffer
/// with `height` rows.
pub open spec fn in_rectangle(height: usize, x: int, y: int) -> bool {
    &&& index_of(RECTANGLE_X as int) <= x < index_of(RECTANGLE_X + RECTANGLE_WIDTH)
    &&& index_of(height as int) <= y < index_of(height + RECTANGLE_HEIGHT)
}

/// Whether the square of the scene covers pixel `(x, y)` of a buffer with
/// `height` rows.
pub open spec fn in_square(height: usize, x: int, y: int) -> bool {
    &&& index_of(SQUARE_X as int) <= x < index_of(SQUARE_X + SQUARE_SIZE)
    &&& index_of(height as int) <= y < index_of(height + SQUARE_SIZE)
}

/// Whether the disk of the scene covers pixel `(x, y)` of a buffer with
/// `height` rows: the pixel lies in the bounding box of the disk and at
/// most the radius away from its center, which is on the line that halves
/// the buffer.
pub open spec fn in_disk(height: usize, x: int, y: int) -> bool {
    &&& index_of(CIRCLE_X - CIRCLE_RADIUS) <= x < index_of(CIRCLE_X + CIRCLE_RADIUS)
    &&& index_of(height - CIRCLE_RADIUS) <= y < index_of(height + CIRCLE_RADIUS)
    &&& (2 * x - CIRCLE_X) * (2 * x - CIRCLE_X) + (2 * y - height) * (2 * y - height)
        <= CIRCLE_RADIUS * CIRCLE_RADIUS
}

/// Whether one of the shapes of the scene covers pixel `(x, y)` of a buffer
/// with `height` rows.
pub open spec fn in_scene(height: usize, x: int, y: int) -> bool {
    in_rectangle(height, x, y) || in_square(height, x, y) || in_disk(height, x, y)
}

/// The color that the scene leaves at pixel `(x, y)` of a buffer with
/// `height` rows, where `under` is what was there before. The shapes are
/// drawn rectangle first, disk last, so a later shape would win over an
/// earlier one.
pub open spec fn scene_color(height: usize, x: int, y: int, under: Color) -> Color {
    if in_disk(height, x, y) {
        Color { red: 0, green: 0, blue: 255 }
    } else if in_square(height, x, y) {
        Color { red: 0, green: 255, blue: 0 }
    } else if in_rectangle(height, x, y) {
        Color { red: 255, green: 0, blue: 0 }
    } else {
        under
    }
}

/// In a buffer that the shapes of the scene can reach, they cover what the
/// scene says: the line they hang from is then the line that halves the
/// buffer.
proof fn lemma_shapes_cover_the_scene(width: usize, height: usize, x: int, y: int)
    requires
        width * height <= usize::MAX,
        0 <= x < width,
        0 <= y < height,
    ensures
        spec_rectangle(height).covers(x, y) == in_rectangle(height, x, y),
        spec_square(height).covers(x, y) == in_square(height, x, y),
        spec_circle(height).covers(x, y) == in_disk(height, x, y),
{
    if height > i64::MAX {
        assert(width <= 1) by (nonlinear_arith)
            requires
                width * height <= usize::MAX,
                usize::MAX <= 0xFFFF_FFFF_FFFF_FFFF,
                height > 0x7FFF_FFFF_FFFF_FFFF,
                0 <= width,
        ;
    }
}

/// Draws the scene over whatever `buf` holds.
pub fn render(buf: &mut Buffer)
    ensures
        final(buf).width() == old(buf).width(),
        final(buf).height() == old(buf).height(),
        forall|x: int, y: int|
            final(buf).contains(x, y) ==> #[trigger] final(buf).pixel(x, y) == scene_color(
                old(buf).height(),
                x,
                y,
                old(buf).pixel(x, y),
            ),
{
    let height: usize = buf.height();
    let ghost before = *buf;
    rectangle(height).render(buf);
    let ghost with_rectangle = *buf;
    square(height).render(buf);
    let ghost with_square = *buf;
    circle(height).render(buf);
    proof {
        assert forall|x: int, y: int| buf.contains(x, y) implies #[trigger] buf.pixel(x, y)
            == scene_color(height, x, y, before.pixel(x, y)) by {
            lemma_shapes_cover_the_scene(before.width(), height, x, y);
            assert(with_square.contains(x, y));
            assert(with_rectangle.contains(x, y));
            let _ = with_square.pixel(x, y);
            let _ = with_rectangle.pixel(x, y);
        }
    }
}

} // verus!
