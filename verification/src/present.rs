//! What is handed to the display: block transfers of colors.
//!
//! The display itself is not part of this library. A transfer only says
//! which colors go where; whoever owns the device carries it out.

use vstd::prelude::*;

verus! {

/// One block transfer: the colors at `start..end` of a run of colors fill,
/// row by row, the rectangle of `width` by `height` pixels whose top-left
/// corner is at `(x, y)` on the display.
#[derive(Clone, Copy, Debug, PartialEq, Eq, Structural)]
pub struct Transfer {
    pub start: usize,
    pub end: usize,
    pub x: usize,
    pub y: usize,
    pub width: usize,
    pub height: usize,
}

impl Transfer {
    /// The transfer names exactly one color for every pixel of its
    /// rectangle.
    pub open spec fn wf(&self) -> bool {
        self.start <= self.end && self.end - self.start == self.width * self.height
    }

    /// The rectangle lies on a display of the given size.
    pub open spec fn on_display(&self, display_width: usize, display_height: usize) -> bool {
        self.x + self.width <= display_width && self.y + self.height <= display_height
    }

    /// Whether the color at `index` of the run is part of the transfer.
    pub open spec fn moves(&self, index: int) -> bool {
        self.start <= index < self.end
    }

    /// The pixel of the display that receives the color at `index` of the
    /// run.
    pub open spec fn target(&self, index: int) -> (int, int) {
        (
            self.x + (index - self.start) % (self.width as int),
            self.y + (index - self.start) / (self.width as int),
        )
    }
}

} // verus!
