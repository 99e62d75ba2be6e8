//! Verified core of a local voice-typing tool: transcript formatting,
//! speech detection on recorded audio, capture bookkeeping and the
//! decisions of the dictation daemon.
use vstd::prelude::*;

pub mod capture;
pub mod clipboard;
pub mod daemon;
pub mod desktop;
pub mod history;
pub mod keys;
pub mod model;
pub mod paths;
pub mod platform;
pub mod session;
pub mod speech;
pub mod text;
pub mod uinput;

verus! {

} // verus!
