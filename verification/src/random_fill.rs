//! The randomized fill: squares of random place, size and color, painted
//! straight onto the display.
//!
//! The random numbers come from outside. This module turns them into a
//! square: a side length from `MIN_SIDE` up to but not including
//! `SIDE_LIMIT`, a color, and a position that is moved towards the origin by
//! the side length on each axis where the square would otherwise reach past
//! the edge of the display.

use vstd::prelude::*;
use crate::color::Color;

verus! {

/// The shortest side of a square.
pub const MIN_SIDE: usize = 1;

/// One more than the longest side of a square.
pub const SIDE_LIMIT: usize = 200;

/// The smallest display extent on which every square that has to be moved
/// can be moved: twice the longest side, less one.
pub const MIN_EXTENT: usize = 397;

/// A square to paint on the display, with its top-left corner at `(x, y)`.
#[derive(Clone, Copy, Debug, PartialEq, Eq, Structural)]
pub struct Fill {
    pub x: usize,
    pub y: usize,
    pub size: usize,
    pub color: Color,
}

impl Fill {
    /// The square lies on a display of the given size.
    pub open spec fn on_display(&self, display_width: usize, display_height: usize) -> bool {
        self.x + self.size <= display_width && self.y + self.size <= display_height
    }
}

/// The side length that a random number stands for.
pub open spec fn spec_side(word: usize) -> usize {
    (MIN_SIDE + word % ((SIDE_LIMIT - MIN_SIDE) as usize)) as usize
}

/// The side length that a random number stands for, spread evenly over the
/// allowed lengths.
#[verifier::when_used_as_spec(spec_side)]
pub fn side(word: usize) -> (length: usize)
    ensures
        length == spec_side(word),
        MIN_SIDE <= length < SIDE_LIMIT,
{
    MIN_SIDE + word % (SIDE_LIMIT - MIN_SIDE)
}

/// The color channel that a random number stands for.
pub open spec fn spec_channel(word: usize) -> u8 {
    (word % 256) as u8
}

/// The color channel that a random number stands for: its lowest eight bits.
#[verifier::when_used_as_spec(spec_channel)]
pub fn channel(word: usize) -> (value: u8)
    ensures
        value == spec_channel(word),
{
    (word % 256) as u8
}

/// The coordinate on an axis of length `extent` that a random number stands
/// for.
pub open spec fn spec_coordinate(word: usize, extent: usize) -> usize {
    word % extent
}

/// The coordinate on an axis of length `extent` that a random number stands
/// for. It lies on the axis.
#[verifier::when_used_as_spec(spec_coordinate)]
pub fn coordinate(word: usize, extent: usize) -> (position: usize)
    requires
        extent > 0,
    ensures
        position == spec_coordinate(word, extent),
        position < extent,
{
    word % extent
}

/// Where a square of the given size is put on an axis of length `extent`
/// when it was meant for `position`: `size` closer to the origin if it would
/// reach past the end of the axis, and at `position` otherwise.
pub open spec fn fitted(position: int, size: int, extent: int) -> int {
    if position + size > extent {
        position - size
    } else {
        position
    }
}

/// Moves a square that would reach past the end of the axis towards the
/// origin by its own size. A square that started on the axis then ends on
/// the axis.
pub fn fit(position: usize, size: usize, extent: usize) -> (moved: usize)
    requires
        position + size > extent ==> size <= position,
    ensures
        moved == fitted(position as int, size as int, extent as int),
        position <= extent ==> moved + size <= extent,
{
    if position > extent || size > extent - position {
        position - size
    } else {
        position
    }
}

/// The square that six random numbers stand for on a display of `width` by
/// `height` pixels.
pub open spec fn spec_random_fill(
    x: usize,
    y: usize,
    size: usize,
    red: usize,
    green: usize,
    blue: usize,
    width: usize,
    height: usize,
) -> Fill {
    Fill {
        x: fitted(spec_coordinate(x, width) as int, spec_side(size) as int, width as int) as usize,
        y: fitted(
            spec_coordinate(y, height) as int,
            spec_side(size) as int,
            height as int,
        ) as usize,
        size: spec_side(size),
        color: Color {
            red: spec_channel(red),
            green: spec_channel(green),
            blue: spec_channel(blue),
        },
    }
}

/// Turns six random numbers into the next square to paint on a display of
/// `width` by `height` pixels. The square lies on the display.
pub fn random_fill(
    x: usize,
    y: usize,
    size: usize,
    red: usize,
    green: usize,
    blue: usize,
    width: usize,
    height: usize,
) -> (fill: Fill)
    requires
        width >= MIN_EXTENT,
        height >= MIN_EXTENT,
    ensures
        fill == spec_random_fill(x, y, size, red, green, blue, width, height),
        MIN_SIDE <= fill.size < SIDE_LIMIT,
        fill.on_display(width, height),
{
    let length: usize = side(size);
    let color = Color::new(channel(red), channel(green), channel(blue));
    Fill {
        x: fit(coordinate(x, width), length, width),
        y: fit(coordinate(y, height), length, height),
        size: length,
        color,
    }
}

} // verus!
