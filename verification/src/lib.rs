//! Playback core for palette-indexed frame animations.
//!
//! The library covers the frame scheduling and compositing engine of an
//! animation player: packing and blending of 24-bit RGB colors, a cyclic
//! frame-index sequencer, a drift-corrected interval timer, and the pixel
//! compositor that resolves indexed frames against a palette and merges
//! them onto a persistent canvas.  Decoding image containers and owning a
//! drawing surface are left to the surrounding application.

pub mod color;
pub mod compositor;
pub mod decimal;
pub mod error;
pub mod frame;
pub mod player;
pub mod sequencer;
pub mod timer;

use vstd::prelude::*;

verus! {

} // verus!
