//! Frame averaging and windowed temporal blending over 8-bit pixel buffers.
//!
//! A [`frame::Frame`] is a height x width x channel array of `u8` samples.
//! [`reduce::average`] takes the per-sample mean of a batch of frames, and
//! [`blend::blend`] streams a batch through a [`window::BoundedWindow`],
//! emitting the mean of the window at a fixed cadence.

pub mod error;
pub mod frame;
pub mod reduce;
pub mod window;
pub mod blend;
