//! Decoded frame records and the canvas size they span.

use vstd::prelude::*;
use crate::error::PlaybackError;

verus! {

/// One decoded still image of the animation: placement, display delay,
/// indexed pixels and the raw palette it resolves against.
///
/// A frame is immutable once decoded; the core only reads it.
#[derive(Debug, Clone, PartialEq, Eq)]
pub struct Frame {
    /// Width of the frame's own pixel rectangle.
    pub width: u16,
    /// Height of the frame's own pixel rectangle.
    pub height: u16,
    /// Vertical offset of the rectangle within the canvas.
    pub top: u16,
    /// Horizontal offset of the rectangle within the canvas.
    pub left: u16,
    /// Display delay in hundredths of a second.
    pub delay: u16,
    /// One palette index per pixel, row-major, `width * height` entries.
    pub buffer: Vec<u8>,
    /// Flat interleaved `(r, g, b)` byte triples, at most 256 of them.
    pub palette: Vec<u8>,
}

impl Frame {
    /// The shape the external decoder guarantees: a full pixel buffer, a
    /// palette of whole triples for at most 256 colors, and extents that
    /// fit the 16-bit coordinate space.
    pub open spec fn wf(&self) -> bool {
        &&& self.buffer@.len() == self.width * self.height
        &&& self.palette@.len() % 3 == 0
        &&& self.palette@.len() <= 768
        &&& self.left + self.width <= u16::MAX
        &&& self.top + self.height <= u16::MAX
    }
}

/// The right edge farthest to the right over all frames:
/// `max(left + width)`.
pub open spec fn spec_extent_x(frames: Seq<Frame>) -> int
    decreases frames.len(),
{
    if frames.len() == 0 {
        0
    } else {
        let rest = spec_extent_x(frames.drop_last());
        let own = frames.last().left + frames.last().width;
        if own >= rest {
            own
        } else {
            rest
        }
    }
}

/// The bottom edge farthest down over all frames: `max(top + height)`.
pub open spec fn spec_extent_y(frames: Seq<Frame>) -> int
    decreases frames.len(),
{
    if frames.len() == 0 {
        0
    } else {
        let rest = spec_extent_y(frames.drop_last());
        let own = frames.last().top + frames.last().height;
        if own >= rest {
            own
        } else {
            rest
        }
    }
}

/// Every frame lies within the bounding box of the whole sequence.
pub proof fn lemma_extents_cover(frames: Seq<Frame>, i: int)
    requires
        0 <= i < frames.len(),
    ensures
        frames[i].left + frames[i].width <= spec_extent_x(frames),
        frames[i].top + frames[i].height <= spec_extent_y(frames),
    decreases frames.len(),
{
    if i < frames.len() - 1 {
        lemma_extents_cover(frames.drop_last(), i);
    }
}

/// When every frame fits the 16-bit coordinate space, so does the
/// bounding box.
pub proof fn lemma_extents_bounded(frames: Seq<Frame>)
    requires
        forall|i: int|
            0 <= i < frames.len() ==> frames[i].left + frames[i].width <= u16::MAX && frames[i].top
                + frames[i].height <= u16::MAX,
    ensures
        0 <= spec_extent_x(frames) <= u16::MAX,
        0 <= spec_extent_y(frames) <= u16::MAX,
    decreases frames.len(),
{
    if frames.len() > 0 {
        lemma_extents_bounded(frames.drop_last());
    }
}

/// The size of the canvas that contains every frame of the sequence:
/// width `max(left + width)`, height `max(top + height)`.
///
/// An empty sequence has no bounding box and is rejected as a decode
/// failure.
pub fn get_image_size(frames: &Vec<Frame>) -> (r: Result<(u16, u16), PlaybackError>)
    requires
        forall|i: int|
            0 <= i < frames@.len() ==> frames@[i].left + frames@[i].width <= u16::MAX
                && frames@[i].top + frames@[i].height <= u16::MAX,
    ensures
        frames@.len() == 0 ==> r == Err::<(u16, u16), PlaybackError>(PlaybackError::DecodeFailure),
        frames@.len() > 0 ==> r == Ok::<(u16, u16), PlaybackError>(
            (spec_extent_x(frames@) as u16, spec_extent_y(frames@) as u16),
        ),
{
    if frames.len() == 0 {
        return Err(PlaybackError::DecodeFailure);
    }
    let mut width: u16 = 0;
    let mut height: u16 = 0;
    let mut i: usize = 0;
    while i < frames.len()
        invariant
            0 <= i <= frames@.len(),
            forall|j: int|
                0 <= j < frames@.len() ==> frames@[j].left + frames@[j].width <= u16::MAX
                    && frames@[j].top + frames@[j].height <= u16::MAX,
            width == spec_extent_x(frames@.take(i as int)),
            height == spec_extent_y(frames@.take(i as int)),
        decreases frames@.len() - i,
    {
        let f = &frames[i];
        let x_edge: u16 = f.left + f.width;
        let y_edge: u16 = f.top + f.height;
        if x_edge > width {
            width = x_edge;
        }
        if y_edge > height {
            height = y_edge;
        }
        proof {
            assert(frames@.take(i + 1).drop_last() =~= frames@.take(i as int));
            assert(frames@.take(i + 1).last() == frames@[i as int]);
        }
        i = i + 1;
    }
    proof {
        assert(frames@.take(frames@.len() as int) =~= frames@);
    }
    Ok((width, height))
}

} // verus!
