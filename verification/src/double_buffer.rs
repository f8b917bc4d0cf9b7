//! Double buffering: two buffers of the display's size that take turns in
//! receiving the scene and being shown.
//!
//! Both buffers are painted with the background once, when they are made.
//! From then on every frame is drawn into the buffer that is active, that
//! buffer is handed out to be shown, and the other one becomes active. The
//! scene is never drawn into a buffer other than the one that is shown next.
//! The first buffer is active first, so the buffers are shown in the order
//! 0, 1, 0, 1 and so on.

use vstd::prelude::*;
use crate::buffer::Buffer;
use crate::color::Color;
use crate::scene;
use crate::shapes::fill_box;

verus! {

/// The color behind the scene.
pub open spec fn spec_background() -> Color {
    Color { red: 215, green: 215, blue: 215 }
}

/// The color behind the scene, a light grey.
#[verifier::when_used_as_spec(spec_background)]
pub fn background() -> (color: Color)
    ensures
        color == spec_background(),
{
    Color::new(215, 215, 215)
}

/// The index of the buffer that is not `index`.
pub open spec fn other(index: int) -> int {
    1 - index
}

/// The index of the buffer that is active in the given iteration of the
/// loop, counted from zero.
pub open spec fn active_in_iteration(iteration: nat) -> int
    decreases iteration,
{
    if iteration == 0 {
        0
    } else {
        other(active_in_iteration((iteration - 1) as nat))
    }
}

/// The active buffer alternates: it is buffer 0 in every even iteration and
/// buffer 1 in every odd one.
pub proof fn lemma_active_alternates(iteration: nat)
    ensures
        active_in_iteration(iteration) == iteration % 2,
    decreases iteration,
{
    if iteration > 0 {
        lemma_active_alternates((iteration - 1) as nat);
    }
}

/// Two buffers of one size, one of them active.
pub struct DoubleBuffer {
    first: Buffer,
    second: Buffer,
    second_active: bool,
}

impl DoubleBuffer {
    /// The buffer with the given index, 0 or 1.
    pub closed spec fn spec_buffer(&self, index: int) -> Buffer {
        if index == 0 {
            self.first
        } else {
            self.second
        }
    }

    /// The index of the active buffer, 0 or 1.
    pub closed spec fn spec_active_index(&self) -> usize {
        if self.second_active {
            1
        } else {
            0
        }
    }

    /// The active buffer.
    pub open spec fn spec_active(&self) -> Buffer {
        self.spec_buffer(self.active_index() as int)
    }

    /// What holds of the pair before and after every frame: the buffers are
    /// of one size, and wherever the scene does not reach, both show the
    /// background.
    pub open spec fn wf(&self) -> bool {
        &&& self.spec_buffer(0).width() == self.spec_buffer(1).width()
        &&& self.spec_buffer(0).height() == self.spec_buffer(1).height()
        &&& forall|index: int, x: int, y: int|
            0 <= index < 2 && self.spec_buffer(index).contains(x, y) && !scene::in_scene(
                self.spec_buffer(index).height(),
                x,
                y,
            ) ==> #[trigger] self.spec_buffer(index).pixel(x, y) == spec_background()
    }

    /// Two buffers of `width` by `height` pixels, both filled with the
    /// background as by a rectangle of their own size; the first one is
    /// active.
    pub fn new(width: usize, height: usize) -> (buffers: DoubleBuffer)
        requires
            width * height <= usize::MAX,
        ensures
            buffers.wf(),
            buffers.active_index() == active_in_iteration(0),
            forall|index: int|
                0 <= index < 2 ==> {
                    let buffer = #[trigger] buffers.spec_buffer(index);
                    &&& buffer.width() == width
                    &&& buffer.height() == height
                    &&& forall|x: int, y: int|
                        buffer.contains(x, y) ==> #[trigger] buffer.pixel(x, y)
                            == spec_background()
                },
    {
        let mut first = Buffer::new(width, height);
        let mut second = Buffer::new(width, height);
        fill_box(&mut first, 0, width, 0, height, background());
        fill_box(&mut second, 0, width, 0, height, background());
        DoubleBuffer { first, second, second_active: false }
    }

    /// The index of the active buffer, 0 or 1.
    #[verifier::when_used_as_spec(spec_active_index)]
    pub fn active_index(&self) -> (index: usize)
        ensures
            index == self.spec_active_index(),
            index < 2,
    {
        if self.second_active {
            1
        } else {
            0
        }
    }

    /// The active buffer, to be shown once the scene is drawn.
    pub fn active(&self) -> (buffer: &Buffer)
        ensures
            *buffer == self.spec_active(),
    {
        if self.second_active {
            &self.second
        } else {
            &self.first
        }
    }

    /// Draws the scene into the active buffer. The other buffer is not
    /// touched.
    pub fn render(&mut self)
        ensures
            old(self).wf() ==> final(self).wf(),
            final(self).active_index() == old(self).active_index(),
            final(self).spec_buffer(other(old(self).active_index() as int))
                == old(self).spec_buffer(other(old(self).active_index() as int)),
            final(self).spec_active().width() == old(self).spec_active().width(),
            final(self).spec_active().height() == old(self).spec_active().height(),
            forall|x: int, y: int|
                final(self).spec_active().contains(x, y)
                    ==> #[trigger] final(self).spec_active().pixel(x, y) == scene::scene_color(
                    old(self).spec_active().height(),
                    x,
                    y,
                    old(self).spec_active().pixel(x, y),
                ),
    {
        if self.second_active {
            scene::render(&mut self.second);
        } else {
            scene::render(&mut self.first);
        }
    }

    /// Makes the other buffer the active one. Neither buffer is touched.
    pub fn flip(&mut self)
        ensures
            old(self).wf() ==> final(self).wf(),
            final(self).active_index() == other(old(self).active_index() as int),
            final(self).spec_buffer(0) == old(self).spec_buffer(0),
            final(self).spec_buffer(1) == old(self).spec_buffer(1),
    {
        self.second_active = !self.second_active;
    }
}

} // verus!
