//! Error kinds of the playback core.

use vstd::prelude::*;

verus! {

/// A terminal playback failure; frame data is static, so none of these is
/// retried.
#[derive(Debug, Clone, Copy, PartialEq, Eq, Structural)]
pub enum PlaybackError {
    /// The decoded frame sequence is unusable: empty, or a frame breaks
    /// the decoder's guarantees (buffer length, palette shape, size).
    DecodeFailure,
    /// The sequencer produced an index with no matching frame.
    FrameIndexOutOfRange,
    /// A frame's offset plus size would write outside the canvas.
    CompositeBoundsViolation,
    /// A pixel references a palette slot beyond the palette's length.
    PaletteIndexOutOfRange,
}

} // verus!
