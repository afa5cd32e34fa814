//! Channel averaging over planar pixel buffers.
//!
//! A [`PixelBuffer`] keeps the red, green, blue and alpha intensities of an
//! image in four parallel channels. [`average_channels`] replaces the colour
//! channels of every opaque pixel by their average, as selected by the flags
//! of a [`FilterAverageChannels`]; [`average_channels_range`] does so for a
//! range of pixels and [`average_channels_in_place`] within one buffer. The
//! module [`laws`] proves what holds of all of them.

pub mod config;
pub mod filter;
pub mod laws;
pub mod pixel;

pub use config::FilterAverageChannels;
pub use filter::{
    average_channels, average_channels_in_place, average_channels_range, FilterError,
};
pub use pixel::{Pixel, PixelBuffer};
