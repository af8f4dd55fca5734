//! The playback loop's state: canvas, sequencer and timer, advanced one
//! tick at a time.
//!
//! The surrounding application runs the actual loop: it asks for a tick,
//! hands the canvas to its presenter, blocks for the returned wait and
//! repeats until the presenter signals termination.

use vstd::prelude::*;
use crate::compositor::Canvas;
use crate::compositor::fill_palette;
use crate::compositor::merge_frame;
use crate::compositor::spec_bad_palette_index;
use crate::compositor::spec_merged;
use crate::compositor::spec_out_of_bounds;
use crate::compositor::spec_palette;
use crate::error::PlaybackError;
use crate::frame::Frame;
use crate::frame::get_image_size;
use crate::frame::lemma_extents_cover;
use crate::frame::spec_extent_x;
use crate::frame::spec_extent_y;
use crate::sequencer::Counter;
use crate::sequencer::spec_next_index;
use crate::sequencer::spec_next_value;
use crate::timer::Timer;
use crate::timer::spec_next_tick;
use crate::timer::spec_wait;

verus! {

/// The most an interval derived from a frame delay can be:
/// `u16::MAX` hundredths of a second, in milliseconds.
pub const MAX_INTERVAL_MS: u64 = 655350;

/// Whether a decoded frame sequence is playable: nonempty, with every
/// frame shaped as the decoder guarantees.
pub open spec fn spec_frames_ok(frames: Seq<Frame>) -> bool {
    frames.len() > 0 && forall|i: int| 0 <= i < frames.len() ==> (#[trigger] frames[i]).wf()
}

/// Owns the canvas and the per-tick machinery of playback.
#[derive(Debug, Clone, PartialEq, Eq)]
pub struct Player {
    /// The decoded frame sequence, read-only during playback.
    pub frames: Vec<Frame>,
    /// The persistent canvas frames are merged onto.
    pub canvas: Canvas,
    /// Produces the index of the frame to show next.
    pub sequencer: Counter,
    /// Paces playback to the frames' delays.
    pub timer: Timer,
    /// The default background color, used for unspecified palette slots.
    pub background: u32,
}

impl Player {
    /// What `tick` relies on: a sound canvas and timer, and every frame
    /// well formed and inside the canvas.
    pub open spec fn data_wf(&self) -> bool {
        &&& self.canvas.wf()
        &&& self.timer.wf()
        &&& forall|i: int|
            0 <= i < self.frames@.len() ==> (#[trigger] self.frames@[i]).wf()
                && self.frames@[i].left + self.frames@[i].width <= self.canvas.width
                && self.frames@[i].top + self.frames@[i].height <= self.canvas.height
    }

    /// The full invariant `new` establishes: on top of `data_wf`, the
    /// sequence is nonempty and the sequencer ranges over exactly its
    /// indices, so a tick always finds its frame.
    pub open spec fn wf(&self) -> bool {
        &&& self.data_wf()
        &&& self.frames@.len() > 0
        &&& self.sequencer.max == self.frames@.len()
    }

    /// Builds the playback state for a decoded frame sequence: sizes the
    /// canvas to the bounding box of every frame, fills it with the
    /// background color, and starts sequencer and timer.
    ///
    /// A sequence that is empty or holds a malformed frame is rejected
    /// as a decode failure.
    pub fn new(frames: Vec<Frame>, background: u32, now_ms: u64) -> (r: Result<
        Player,
        PlaybackError,
    >)
        ensures
            !spec_frames_ok(frames@) ==> r == Err::<Player, PlaybackError>(
                PlaybackError::DecodeFailure,
            ),
            spec_frames_ok(frames@) ==> (r matches Ok(p) && {
                &&& p.wf()
                &&& p.frames == frames
                &&& p.background == background
                &&& p.sequencer.max == frames@.len()
                &&& p.sequencer.value == 0
                &&& p.canvas.width == spec_extent_x(frames@)
                &&& p.canvas.height == spec_extent_y(frames@)
                &&& forall|i: int|
                    0 <= i < p.canvas.buffer@.len() ==> p.canvas.buffer@[i] == background
                &&& p.timer.interval == 1000
                &&& p.timer.initialize_time == now_ms
                &&& p.timer.last_updated == now_ms
                &&& p.timer.printer.fps == 1
                &&& p.timer.printer.count == 0
                &&& p.timer.printer.last_updated == now_ms
            }),
    {
        if frames.len() == 0 {
            return Err(PlaybackError::DecodeFailure);
        }
        let mut i: usize = 0;
        while i < frames.len()
            invariant
                i <= frames@.len(),
                forall|j: int| 0 <= j < i ==> (#[trigger] frames@[j]).wf(),
            decreases frames@.len() - i,
        {
            let f = &frames[i];
            proof {
                assert((f.width as int) * (f.height as int) <= 0xFFFF * 0xFFFF)
                    by (nonlinear_arith)
                    requires
                        f.width <= 0xFFFF,
                        f.height <= 0xFFFF,
                ;
            }
            let pixels: usize = (f.width as usize) * (f.height as usize);
            if f.buffer.len() != pixels {
                return Err(PlaybackError::DecodeFailure);
            }
            if f.palette.len() % 3 != 0 || f.palette.len() > 768 {
                return Err(PlaybackError::DecodeFailure);
            }
            if (f.left as u32) + (f.width as u32) > 0xFFFF || (f.top as u32) + (f.height as u32)
                > 0xFFFF {
                return Err(PlaybackError::DecodeFailure);
            }
            i = i + 1;
        }
        let size = match get_image_size(&frames) {
            Ok(size) => size,
            Err(e) => {
                return Err(e);
            },
        };
        let canvas = Canvas::new(size.0, size.1, background);
        let sequencer = Counter::new(frames.len());
        let timer = Timer::new(1, now_ms);
        let p = Player { frames, canvas, sequencer, timer, background };
        proof {
            crate::frame::lemma_extents_bounded(p.frames@);
            assert(p.canvas.width == spec_extent_x(p.frames@));
            assert(p.canvas.height == spec_extent_y(p.frames@));
            assert forall|j: int| 0 <= j < p.frames@.len() implies (#[trigger] p.frames@[j]).wf()
                && p.frames@[j].left + p.frames@[j].width <= p.canvas.width && p.frames@[j].top
                + p.frames@[j].height <= p.canvas.height by {
                lemma_extents_cover(p.frames@, j);
            }
        }
        Ok(p)
    }

    /// Advances playback by one tick: asks the sequencer for the frame
    /// index, merges that frame onto the canvas — the first frame of the
    /// cycle fills, later frames respect transparency — retargets the
    /// timer at the frame's delay (hundredths of a second, as
    /// milliseconds) and returns how long the caller must now block.
    ///
    /// A sequencer index with no matching frame is reported, never
    /// trusted; under the full invariant `wf` it cannot occur.
    pub fn tick(&mut self, now_ms: u64) -> (r: Result<u64, PlaybackError>)
        requires
            old(self).data_wf(),
            now_ms + MAX_INTERVAL_MS <= u64::MAX,
        ensures
            final(self).data_wf(),
            final(self).frames == old(self).frames,
            final(self).background == old(self).background,
            final(self).canvas.width == old(self).canvas.width,
            final(self).canvas.height == old(self).canvas.height,
            final(self).sequencer.max == old(self).sequencer.max,
            final(self).sequencer.value == spec_next_value(
                old(self).sequencer.max as nat,
                old(self).sequencer.value as nat,
            ),
            ({
                let idx = spec_next_index(
                    old(self).sequencer.max as nat,
                    old(self).sequencer.value as nat,
                );
                if idx >= old(self).frames@.len() {
                    &&& r == Err::<u64, PlaybackError>(PlaybackError::FrameIndexOutOfRange)
                    &&& final(self).canvas == old(self).canvas
                    &&& final(self).timer == old(self).timer
                } else {
                    let f = old(self).frames@[idx as int];
                    let pal = spec_palette(f.palette@, old(self).background);
                    let interval = (f.delay * 10) as int;
                    &&& final(self).canvas.buffer@ == spec_merged(
                        old(self).canvas,
                        f,
                        pal,
                        idx == 0,
                    )
                    &&& final(self).timer.interval == f.delay * 10
                    &&& final(self).timer.initialize_time == old(self).timer.initialize_time
                    &&& final(self).timer.printer == old(self).timer.printer
                    &&& final(self).timer.last_updated == spec_next_tick(
                        old(self).timer.last_updated as int,
                        interval,
                        now_ms as int,
                    )
                    &&& r == Ok::<u64, PlaybackError>(
                        spec_wait(
                            old(self).timer.last_updated as int,
                            interval,
                            now_ms as int,
                        ) as u64,
                    )
                }
            }),
            old(self).wf() ==> final(self).wf() && r is Ok,
    {
        let idx = self.sequencer.update();
        if idx >= self.frames.len() {
            return Err(PlaybackError::FrameIndexOutOfRange);
        }
        let is_first = idx == 0;
        let delay = self.frames[idx].delay;
        let palette = fill_palette(&self.frames[idx].palette, self.background);
        proof {
            assert(!spec_out_of_bounds(self.canvas, self.frames@[idx as int]));
            assert(!spec_bad_palette_index(self.frames@[idx as int], palette@));
        }
        let merged = merge_frame(&mut self.canvas, &self.frames[idx], &palette, is_first);
        if let Err(e) = merged {
            return Err(e);
        }
        self.timer.interval = (delay as u64) * 10;
        let wait = self.timer.sleep(now_ms);
        Ok(wait)
    }
}

} // verus!
