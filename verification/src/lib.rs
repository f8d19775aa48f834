//! A fixed-point polyphonic sample-playback and mixing engine.
//!
//! The engine maps trigger codes to pre-loaded mono clips, mixes the active
//! voices one frame at a time into an interleaved stereo buffer, keeps loops
//! locked to a tempo grid, and bounds the output with a soft clipper. All
//! audio values are Q16 fixed point: 65536 stands for a full-scale 1.0.

pub mod engine;
pub mod math;
pub mod tempo;
pub mod types;

use vstd::prelude::*;

verus! {

/// Unit gain in Q16 fixed point: 65536 stands for 1.0.
pub const Q16_ONE: i32 = 65536;

} // verus!
