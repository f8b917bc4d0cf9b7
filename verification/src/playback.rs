//! Raw-frame playback: a flat stream of colors is cut into frames of a fixed
//! size, which are shown one after the other, each followed by a fixed delay.
//!
//! The last frame is short when the stream does not divide evenly. Playback
//! ends after the last frame.

use vstd::prelude::*;
use vstd::arithmetic::div_mod::{lemma_fundamental_div_mod, lemma_fundamental_div_mod_converse};
use vstd::arithmetic::mul::lemma_mul_inequality;
use crate::color::Color;
use crate::present::Transfer;

verus! {

/// The width of a frame of the recorded stream, in pixels.
pub const FRAME_WIDTH: usize = 320;

/// The height of a frame of the recorded stream, in pixels.
pub const FRAME_HEIGHT: usize = 240;

/// How long each frame stays up before the next one is shown, in
/// microseconds.
pub const FRAME_DELAY_MICROS: usize = 40_000;

/// The colors that a byte stream holds: one for every complete group of three
/// bytes, read as red, green, blue. Bytes after the last complete group are
/// not part of any color.
pub open spec fn decoded(bytes: Seq<u8>) -> Seq<Color> {
    Seq::new(
        (bytes.len() / 3) as nat,
        |i: int| Color { red: bytes[3 * i], green: bytes[3 * i + 1], blue: bytes[3 * i + 2] },
    )
}

/// Reads a byte stream as consecutive red, green, blue triples.
pub fn decode(bytes: &[u8]) -> (colors: Vec<Color>)
    ensures
        colors@ == decoded(bytes@),
{
    let count: usize = bytes.len() / 3;
    let mut colors: Vec<Color> = Vec::new();
    let mut i: usize = 0;
    while i < count
        invariant
            count == bytes@.len() / 3,
            3 * count <= bytes@.len() <= usize::MAX,
            i <= count,
            colors@.len() == i,
            forall|k: int| 0 <= k < i ==> #[trigger] colors@[k] == decoded(bytes@)[k],
        decreases count - i,
    {
        let color = Color::new(bytes[3 * i], bytes[3 * i + 1], bytes[3 * i + 2]);
        colors.push(color);
        i += 1;
    }
    colors
}

/// The number of frames in a stream of `stream_len` colors: `stream_len`
/// divided by `frame_len`, rounded up.
pub open spec fn frame_count(stream_len: nat, frame_len: nat) -> nat {
    if stream_len % frame_len == 0 {
        stream_len / frame_len
    } else {
        stream_len / frame_len + 1
    }
}

/// The offset in the stream at which frame `index` starts.
pub open spec fn frame_start(frame_len: nat, index: nat) -> nat {
    index * frame_len
}

/// The offset in the stream just behind frame `index`.
pub open spec fn frame_end(stream_len: nat, frame_len: nat, index: nat) -> nat {
    if (index + 1) * frame_len <= stream_len {
        (index + 1) * frame_len
    } else {
        stream_len
    }
}

/// Frame `index` of `stream`, for `index` below the number of frames.
pub open spec fn frame(stream: Seq<Color>, frame_len: nat, index: nat) -> Seq<Color> {
    stream.subrange(
        frame_start(frame_len, index) as int,
        frame_end(stream.len(), frame_len, index) as int,
    )
}

/// The first `count` frames of `stream`, one behind the other.
pub open spec fn joined(stream: Seq<Color>, frame_len: nat, count: nat) -> Seq<Color>
    decreases count,
{
    if count == 0 {
        Seq::empty()
    } else {
        joined(stream, frame_len, (count - 1) as nat) + frame(
            stream,
            frame_len,
            (count - 1) as nat,
        )
    }
}

/// The number of frames is the quotient rounded up: that many frames are
/// enough to hold the stream, and one fewer would not be.
pub proof fn lemma_frame_count_is_ceiling(stream_len: nat, frame_len: nat)
    requires
        frame_len > 0,
    ensures
        frame_count(stream_len, frame_len) * frame_len >= stream_len,
        frame_count(stream_len, frame_len) > 0 ==> (frame_count(stream_len, frame_len) - 1)
            * frame_len < stream_len,
        stream_len == 0 <==> frame_count(stream_len, frame_len) == 0,
{
    let q = stream_len as int / frame_len as int;
    lemma_fundamental_div_mod(stream_len as int, frame_len as int);
    assert(frame_len * q == q * frame_len) by (nonlinear_arith);
    assert((q + 1) * frame_len == q * frame_len + frame_len) by (nonlinear_arith);
    assert((q - 1) * frame_len == q * frame_len - frame_len) by (nonlinear_arith);
    assert(0 <= q) by (nonlinear_arith)
        requires
            q == stream_len as int / frame_len as int,
            frame_len > 0,
    ;
    if q == 0 {
        assert(q * frame_len == 0) by (nonlinear_arith)
            requires
                q == 0,
        ;
    }
}

/// Every frame lies inside the stream and is not empty; every frame but the
/// last holds exactly `frame_len` colors, and the last one ends where the
/// stream ends.
pub proof fn lemma_frame_bounds(stream_len: nat, frame_len: nat, index: nat)
    requires
        frame_len > 0,
        index < frame_count(stream_len, frame_len),
    ensures
        frame_start(frame_len, index) < frame_end(stream_len, frame_len, index) <= stream_len,
        frame_end(stream_len, frame_len, index) - frame_start(frame_len, index) <= frame_len,
        index + 1 < frame_count(stream_len, frame_len) ==> frame_end(
            stream_len,
            frame_len,
            index,
        ) - frame_start(frame_len, index) == frame_len,
        index + 1 == frame_count(stream_len, frame_len) ==> frame_end(
            stream_len,
            frame_len,
            index,
        ) == stream_len,
{
    let count = frame_count(stream_len, frame_len) as int;
    lemma_frame_count_is_ceiling(stream_len, frame_len);
    assert((index + 1) * frame_len == index * frame_len + frame_len) by (nonlinear_arith);
    lemma_mul_inequality(index as int, count - 1, frame_len as int);
    if index + 1 < count {
        lemma_mul_inequality(index as int + 1, count - 1, frame_len as int);
    } else {
        assert((index + 1) * frame_len == count * frame_len);
    }
}

/// A frame holds the colors of its part of the stream, in the order of the
/// stream. Every frame but the last holds exactly `frame_len` colors; the
/// last holds at least one and at most `frame_len`.
pub proof fn lemma_frame_holds(stream: Seq<Color>, frame_len: nat, index: nat)
    requires
        frame_len > 0,
        index < frame_count(stream.len(), frame_len),
    ensures
        0 < frame(stream, frame_len, index).len() <= frame_len,
        index + 1 < frame_count(stream.len(), frame_len) ==> frame(stream, frame_len, index).len()
            == frame_len,
        forall|k: int|
            0 <= k < frame(stream, frame_len, index).len() ==> #[trigger] frame(
                stream,
                frame_len,
                index,
            )[k] == stream[index * frame_len + k],
{
    lemma_frame_bounds(stream.len(), frame_len, index);
}

/// The first `count` frames, joined, are the stream up to the end of the last
/// of them.
pub proof fn lemma_joined_is_prefix(stream: Seq<Color>, frame_len: nat, count: nat)
    requires
        frame_len > 0,
        count <= frame_count(stream.len(), frame_len),
    ensures
        joined(stream, frame_len, count) == stream.subrange(
            0,
            if count == 0 {
                0
            } else {
                frame_end(stream.len(), frame_len, (count - 1) as nat) as int
            },
        ),
    decreases count,
{
    if count == 0 {
        assert(joined(stream, frame_len, count) =~= stream.subrange(0, 0));
    } else {
        let last = (count - 1) as nat;
        lemma_joined_is_prefix(stream, frame_len, last);
        lemma_frame_bounds(stream.len(), frame_len, last);
        if last > 0 {
            lemma_frame_bounds(stream.len(), frame_len, (last - 1) as nat);
            assert(frame_end(stream.len(), frame_len, (last - 1) as nat) == frame_start(
                frame_len,
                last,
            ));
        }
        assert(joined(stream, frame_len, count) =~= stream.subrange(
            0,
            frame_end(stream.len(), frame_len, last) as int,
        ));
    }
}

/// All frames of a stream, joined in order, are the stream.
pub proof fn lemma_frames_join_to_stream(stream: Seq<Color>, frame_len: nat)
    requires
        frame_len > 0,
    ensures
        joined(stream, frame_len, frame_count(stream.len(), frame_len)) == stream,
{
    let count = frame_count(stream.len(), frame_len);
    lemma_joined_is_prefix(stream, frame_len, count);
    lemma_frame_count_is_ceiling(stream.len(), frame_len);
    if count > 0 {
        lemma_frame_bounds(stream.len(), frame_len, (count - 1) as nat);
    }
    assert(stream.subrange(0, stream.len() as int) =~= stream);
}

/// Where a frame goes so that it sits in the middle of the display: half of
/// what the display has left over, on each axis.
pub fn centered_offset(
    display_width: usize,
    display_height: usize,
    frame_width: usize,
    frame_height: usize,
) -> (offset: (usize, usize))
    requires
        frame_width <= display_width,
        frame_height <= display_height,
    ensures
        offset.0 == (display_width - frame_width) / 2,
        offset.1 == (display_height - frame_height) / 2,
        offset.0 + frame_width <= display_width,
        offset.1 + frame_height <= display_height,
{
    ((display_width - frame_width) / 2, (display_height - frame_height) / 2)
}

/// What showing one frame takes: a transfer for the rows that the frame
/// fills completely, and one for the part of a row behind them. A full frame
/// has no such part; a short frame may have no complete row.
#[derive(Clone, Copy, Debug, PartialEq, Eq, Structural)]
pub struct Frame {
    pub rows: Option<Transfer>,
    pub rest: Option<Transfer>,
}

/// The transfers that put the colors at `start..end` of a stream, row by row,
/// into a frame of `frame_width` columns whose top-left corner is at
/// `(x, y)`. Pixels of the frame for which the stream has no color are not
/// part of any transfer.
pub open spec fn laid_out(start: usize, end: usize, frame_width: usize, x: usize, y: usize)
    -> Frame {
    let rows = (end - start) / (frame_width as int);
    let rest = (end - start) % (frame_width as int);
    let split = start + rows * frame_width;
    Frame {
        rows: if rows > 0 {
            Some(
                Transfer {
                    start,
                    end: split as usize,
                    x,
                    y,
                    width: frame_width,
                    height: rows as usize,
                },
            )
        } else {
            None
        },
        rest: if rest > 0 {
            Some(
                Transfer {
                    start: split as usize,
                    end,
                    x,
                    y: (y + rows) as usize,
                    width: rest as usize,
                    height: 1,
                },
            )
        } else {
            None
        },
    }
}

impl Frame {
    /// Whether the color at `index` of the stream is part of the frame.
    pub open spec fn moves(&self, index: int) -> bool {
        ||| self.rows is Some && self.rows.unwrap().moves(index)
        ||| self.rest is Some && self.rest.unwrap().moves(index)
    }

    /// The pixel of the display that receives the color at `index` of the
    /// stream, for a color that is part of the frame.
    pub open spec fn target(&self, index: int) -> (int, int) {
        if self.rest is Some && self.rest.unwrap().moves(index) {
            self.rest.unwrap().target(index)
        } else {
            self.rows.unwrap().target(index)
        }
    }

    /// Each transfer names one color for every pixel of its rectangle, and
    /// no color is part of both.
    pub open spec fn wf(&self) -> bool {
        &&& self.rows is Some ==> self.rows.unwrap().wf()
        &&& self.rest is Some ==> self.rest.unwrap().wf()
        &&& self.rows is Some && self.rest is Some ==> self.rows.unwrap().end
            == self.rest.unwrap().start
    }

    /// Both rectangles lie on a display of the given size.
    pub open spec fn on_display(&self, display_width: usize, display_height: usize) -> bool {
        &&& self.rows is Some ==> self.rows.unwrap().on_display(display_width, display_height)
        &&& self.rest is Some ==> self.rest.unwrap().on_display(display_width, display_height)
    }
}

/// The transfers of a frame move exactly the colors at `start..end`, each of
/// them once, stay on every display that the whole frame stays on, and put
/// each color where it stands in the frame: the color `k` places behind
/// `start` goes to column `k % frame_width` and row `k / frame_width` of the
/// frame.
pub proof fn lemma_laid_out(
    start: usize,
    end: usize,
    frame_width: usize,
    frame_height: usize,
    x: usize,
    y: usize,
    display_width: usize,
    display_height: usize,
)
    requires
        frame_width > 0,
        start <= end,
        end - start <= frame_width * frame_height,
        x + frame_width <= display_width,
        y + frame_height <= display_height,
    ensures
        laid_out(start, end, frame_width, x, y).wf(),
        laid_out(start, end, frame_width, x, y).on_display(display_width, display_height),
        forall|index: int| #[trigger]
            laid_out(start, end, frame_width, x, y).moves(index) <==> start <= index < end,
        forall|index: int|
            start <= index < end ==> #[trigger] laid_out(start, end, frame_width, x, y).target(
                index,
            ) == (
                x + (index - start) % (frame_width as int),
                y + (index - start) / (frame_width as int),
            ),
{
    let len = end - start;
    let width = frame_width as int;
    let rows = len / width;
    let rest = len % width;
    let split = start + rows * width;
    lemma_fundamental_div_mod(len, width);
    assert(width * rows == rows * width) by (nonlinear_arith);
    assert(0 <= rows) by (nonlinear_arith)
        requires
            rows == len / width,
            len >= 0,
            width > 0,
    ;
    assert(rows <= frame_height) by (nonlinear_arith)
        requires
            rows * width <= frame_width * frame_height,
            width == frame_width,
            width > 0,
            rows >= 0,
    ;
    if rest > 0 {
        assert(rows < frame_height) by (nonlinear_arith)
            requires
                rows * width + rest <= frame_width * frame_height,
                width == frame_width,
                width > 0,
                rest > 0,
                rows >= 0,
        ;
    }
    if rows == 0 {
        assert(rows * width == 0) by (nonlinear_arith)
            requires
                rows == 0,
        ;
    }
    assert forall|index: int| start <= index < end implies #[trigger] laid_out(
        start,
        end,
        frame_width,
        x,
        y,
    ).target(index) == (
        x + (index - start) % (frame_width as int),
        y + (index - start) / (frame_width as int),
    ) by {
        let k = index - start;
        if index >= split {
            let behind = index - split;
            assert(k == width * rows + behind);
            lemma_fundamental_div_mod_converse(k, width, rows, behind);
            lemma_fundamental_div_mod_converse(behind, rest, 0, behind);
        }
    }
}

/// Where in a stream the playback stands, and where on the display its
/// frames go.
pub struct Playback {
    frame_width: usize,
    frame_height: usize,
    x: usize,
    y: usize,
    shown: usize,
}

impl Playback {
    #[verifier::type_invariant]
    spec fn inv(&self) -> bool {
        &&& self.frame_width > 0
        &&& self.frame_height > 0
        &&& self.frame_width * self.frame_height <= usize::MAX
        &&& self.x + self.frame_width <= usize::MAX
        &&& self.y + self.frame_height <= usize::MAX
    }

    /// The width of a frame in pixels.
    pub closed spec fn spec_frame_width(&self) -> usize {
        self.frame_width
    }

    /// The height of a frame in pixels.
    pub closed spec fn spec_frame_height(&self) -> usize {
        self.frame_height
    }

    /// The number of colors in a full frame.
    pub open spec fn spec_frame_len(&self) -> nat {
        (self.spec_frame_width() * self.spec_frame_height()) as nat
    }

    /// Where on the display the top-left corner of each frame goes.
    pub closed spec fn spec_offset(&self) -> (usize, usize) {
        (self.x, self.y)
    }

    /// The number of frames handed out so far.
    pub closed spec fn spec_shown(&self) -> usize {
        self.shown
    }

    /// A playback of frames of `frame_width` by `frame_height` pixels in the
    /// middle of a display of `display_width` by `display_height` pixels. It
    /// stands before the first frame.
    pub fn new(
        frame_width: usize,
        frame_height: usize,
        display_width: usize,
        display_height: usize,
    ) -> (playback: Playback)
        requires
            0 < frame_width * frame_height <= usize::MAX,
            frame_width <= display_width,
            frame_height <= display_height,
        ensures
            playback.spec_frame_width() == frame_width,
            playback.spec_frame_height() == frame_height,
            playback.spec_frame_len() == frame_width * frame_height,
            playback.spec_offset() == (
                ((display_width - frame_width) / 2) as usize,
                ((display_height - frame_height) / 2) as usize,
            ),
            playback.spec_offset().0 + frame_width <= display_width,
            playback.spec_offset().1 + frame_height <= display_height,
            playback.shown() == 0,
    {
        proof {
            assert(frame_width > 0 && frame_height > 0) by (nonlinear_arith)
                requires
                    0 < frame_width * frame_height,
            ;
        }
        let offset = centered_offset(display_width, display_height, frame_width, frame_height);
        Playback { frame_width, frame_height, x: offset.0, y: offset.1, shown: 0 }
    }

    /// The number of colors in a full frame.
    pub fn frame_len(&self) -> (len: usize)
        ensures
            len == self.spec_frame_len(),
            len > 0,
    {
        proof {
            use_type_invariant(self);
            assert(0 < self.frame_width * self.frame_height) by (nonlinear_arith)
                requires
                    self.frame_width > 0,
                    self.frame_height > 0,
            ;
        }
        self.frame_width * self.frame_height
    }

    /// The number of frames handed out so far.
    #[verifier::when_used_as_spec(spec_shown)]
    pub fn shown(&self) -> (shown: usize)
        ensures
            shown == self.spec_shown(),
    {
        self.shown
    }

    /// The number of frames in a stream of `stream_len` colors.
    pub fn frame_count(&self, stream_len: usize) -> (count: usize)
        ensures
            count == frame_count(stream_len as nat, self.spec_frame_len()),
    {
        let frame_len: usize = self.frame_len();
        if stream_len % frame_len == 0 {
            stream_len / frame_len
        } else {
            proof {
                lemma_frame_count_is_ceiling(stream_len as nat, frame_len as nat);
                let count = frame_count(stream_len as nat, frame_len as nat);
                assert(count - 1 <= (count - 1) * frame_len) by (nonlinear_arith)
                    requires
                        count >= 1,
                        frame_len >= 1,
                ;
            }
            stream_len / frame_len + 1
        }
    }

    /// Hands out the next frame of a stream of `stream_len` colors, or
    /// nothing once all frames of the stream have been handed out.
    pub fn next_frame(&mut self, stream_len: usize) -> (next: Option<Frame>)
        ensures
            final(self).spec_frame_width() == old(self).spec_frame_width(),
            final(self).spec_frame_height() == old(self).spec_frame_height(),
            final(self).spec_offset() == old(self).spec_offset(),
            old(self).shown() < frame_count(stream_len as nat, old(self).spec_frame_len())
                ==> {
                &&& next == Some(
                    laid_out(
                        frame_start(old(self).spec_frame_len(), old(self).shown() as nat)
                            as usize,
                        frame_end(
                            stream_len as nat,
                            old(self).spec_frame_len(),
                            old(self).shown() as nat,
                        ) as usize,
                        old(self).spec_frame_width(),
                        old(self).spec_offset().0,
                        old(self).spec_offset().1,
                    ),
                )
                &&& final(self).shown() == old(self).shown() + 1
            },
            old(self).shown() >= frame_count(stream_len as nat, old(self).spec_frame_len())
                ==> next is None && final(self).shown() == old(self).shown(),
    {
        proof {
            use_type_invariant(&*self);
        }
        let frame_len: usize = self.frame_len();
        let count: usize = self.frame_count(stream_len);
        if self.shown < count {
            proof {
                lemma_frame_bounds(stream_len as nat, frame_len as nat, self.shown as nat);
                assert((self.shown + 1) * frame_len == self.shown * frame_len + frame_len)
                    by (nonlinear_arith);
            }
            let start: usize = self.shown * frame_len;
            let end: usize = if stream_len - start >= frame_len {
                start + frame_len
            } else {
                stream_len
            };
            let frame = lay_out(start, end, self.frame_width, self.frame_height, self.x, self.y);
            self.shown = self.shown + 1;
            Some(frame)
        } else {
            None
        }
    }
}

/// Computes the transfers of one frame.
fn lay_out(
    start: usize,
    end: usize,
    frame_width: usize,
    frame_height: usize,
    x: usize,
    y: usize,
) -> (frame: Frame)
    requires
        frame_width > 0,
        start <= end,
        end - start <= frame_width * frame_height,
        y + frame_height <= usize::MAX,
    ensures
        frame == laid_out(start, end, frame_width, x, y),
{
    let len: usize = end - start;
    let rows: usize = len / frame_width;
    let rest: usize = len % frame_width;
    proof {
        lemma_fundamental_div_mod(len as int, frame_width as int);
        assert(frame_width * rows == rows * frame_width) by (nonlinear_arith);
        assert(rows <= frame_height) by (nonlinear_arith)
            requires
                rows * frame_width <= frame_width * frame_height,
                frame_width > 0,
        ;
    }
    let split: usize = start + rows * frame_width;
    Frame {
        rows: if rows > 0 {
            Some(Transfer { start, end: split, x, y, width: frame_width, height: rows })
        } else {
            None
        },
        rest: if rest > 0 {
            Some(Transfer { start: split, end, x, y: y + rows, width: rest, height: 1 })
        } else {
            None
        },
    }
}

} // verus!
