//! Microphone capture and audio preprocessing, on their integer side.
pub mod dsp;
pub mod recorder;

pub use recorder::{append_capped, capture_sizes, pick_device, AudioError, DeviceChoice};
