//! Push-to-talk dictation core: audio sample processing, container
//! encoding, and the state machines behind the capture, hotkey and
//! text-injection actors.

pub mod codec;
pub mod config;
pub mod dsp;
pub mod hotkey;
pub mod injector;
pub mod opus;
pub mod recorder;
pub mod stats;
pub mod transcribe;
pub mod wav;

use vstd::prelude::*;

verus! {

/// Target rate for encoded speech audio, in Hz.
pub const TARGET_SAMPLE_RATE: u32 = 16000;

} // verus!
