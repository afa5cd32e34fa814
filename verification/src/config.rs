//! The filter's configuration and what it makes of a single pixel.

use vstd::prelude::*;
use crate::pixel::Pixel;

verus! {

/// Configuration of the channel-averaging filter.
///
/// The `include_*` flags choose the channels that count towards the divisor
/// of the average. The `exclude_*` flags choose the channels that the filter
/// neither sums nor overwrites. The two groups are independent of each other:
/// a channel may count towards the divisor and still be kept as it is.
#[derive(Clone, Copy, Debug, PartialEq, Eq, Structural)]
pub struct FilterAverageChannels {
    /// Number of pixels to process, counted from the start of the buffers.
    pub length: u64,
    pub include_red: bool,
    pub include_green: bool,
    pub include_blue: bool,
    pub exclude_red: bool,
    pub exclude_green: bool,
    pub exclude_blue: bool,
}

/// The 8-bit intensity that stands for `value`: `value` itself where it is
/// at most 255, and 255 for everything above.
pub open spec fn narrowed(value: int) -> u8 {
    if value > 255 {
        255u8
    } else {
        value as u8
    }
}

impl FilterAverageChannels {
    /// Number of channels that count towards the divisor: 0 to 3.
    pub open spec fn spec_divisor(&self) -> int {
        (if self.include_red { 1int } else { 0int })
            + (if self.include_green { 1int } else { 0int })
            + (if self.include_blue { 1int } else { 0int })
    }

    /// Number of colour channels that the filter overwrites: 0 to 3.
    pub open spec fn spec_written(&self) -> int {
        (if self.exclude_red { 0int } else { 1int })
            + (if self.exclude_green { 0int } else { 1int })
            + (if self.exclude_blue { 0int } else { 1int })
    }

    /// Sum of the colour intensities of `pixel` over the channels that are
    /// not excluded.
    pub open spec fn spec_channel_sum(&self, pixel: Pixel) -> int {
        (if self.exclude_red { 0int } else { pixel.red as int })
            + (if self.exclude_green { 0int } else { pixel.green as int })
            + (if self.exclude_blue { 0int } else { pixel.blue as int })
    }

    /// The intensity that the filter writes for an opaque pixel when the
    /// divisor is positive: the truncated quotient of the channel sum by the
    /// divisor, narrowed to 8 bits. The quotient is spelled out for each of
    /// the three divisors that can occur.
    pub open spec fn spec_average(&self, pixel: Pixel) -> u8 {
        let sum = self.spec_channel_sum(pixel);
        let divisor = self.spec_divisor();
        narrowed(
            if divisor == 1 {
                sum
            } else if divisor == 2 {
                sum / 2
            } else {
                sum / 3
            },
        )
    }

    /// The values that the filter has for the channels of `pixel`, before the
    /// `exclude_*` flags decide which of them reach the output.
    ///
    /// A transparent pixel stands for itself, and so does every pixel when the
    /// divisor is zero. Otherwise the three colours become the average and
    /// alpha stays.
    pub open spec fn spec_replacement(&self, pixel: Pixel) -> Pixel {
        if pixel.alpha == 0 || self.spec_divisor() == 0 {
            pixel
        } else {
            Pixel {
                red: self.spec_average(pixel),
                green: self.spec_average(pixel),
                blue: self.spec_average(pixel),
                alpha: pixel.alpha,
            }
        }
    }

    /// The output pixel that the filter leaves where it read `input` and the
    /// output held `prior`.
    ///
    /// A transparent input is copied whole. Of an opaque input, alpha is
    /// copied, an excluded colour keeps what the output held, and every other
    /// colour takes its replacement.
    pub open spec fn filtered_pixel(&self, input: Pixel, prior: Pixel) -> Pixel {
        let fresh = self.spec_replacement(input);
        Pixel {
            red: if input.alpha != 0 && self.exclude_red { prior.red } else { fresh.red },
            green: if input.alpha != 0 && self.exclude_green { prior.green } else { fresh.green },
            blue: if input.alpha != 0 && self.exclude_blue { prior.blue } else { fresh.blue },
            alpha: input.alpha,
        }
    }

    /// Counts the channels that count towards the divisor.
    pub fn divisor(&self) -> (d: u16)
        ensures
            d == self.spec_divisor(),
    {
        let mut d: u16 = 0;
        if self.include_red {
            d = d + 1;
        }
        if self.include_green {
            d = d + 1;
        }
        if self.include_blue {
            d = d + 1;
        }
        d
    }

    /// Sums the colour intensities of `pixel` over the channels that are not
    /// excluded, in 16 bits so that three intensities cannot wrap.
    pub fn channel_sum(&self, pixel: Pixel) -> (sum: u16)
        ensures
            sum == self.spec_channel_sum(pixel),
    {
        let mut sum: u16 = 0;
        if !self.exclude_red {
            sum = sum + pixel.red as u16;
        }
        if !self.exclude_green {
            sum = sum + pixel.green as u16;
        }
        if !self.exclude_blue {
            sum = sum + pixel.blue as u16;
        }
        sum
    }

    /// Computes the values that the filter has for the channels of `pixel`.
    pub fn replacement(&self, pixel: Pixel) -> (fresh: Pixel)
        ensures
            fresh == self.spec_replacement(pixel),
    {
        let divisor: u16 = self.divisor();
        if pixel.alpha == 0 || divisor == 0 {
            return pixel;
        }
        let sum: u16 = self.channel_sum(pixel);
        let quotient: u16 = sum / divisor;
        proof {
            if divisor == 1 {
                assert(quotient == sum / 1);
            } else if divisor == 2 {
                assert(quotient == sum / 2);
            } else {
                assert(quotient == sum / 3);
            }
        }
        let average: u8 = if quotient > 255 {
            255
        } else {
            quotient as u8
        };
        Pixel { red: average, green: average, blue: average, alpha: pixel.alpha }
    }

    /// Computes the output pixel for one input pixel and what the output held
    /// at its place.
    pub fn filter_pixel(&self, input: Pixel, prior: Pixel) -> (out: Pixel)
        ensures
            out == self.filtered_pixel(input, prior),
    {
        let fresh = self.replacement(input);
        let opaque = input.alpha != 0;
        Pixel {
            red: if opaque && self.exclude_red { prior.red } else { fresh.red },
            green: if opaque && self.exclude_green { prior.green } else { fresh.green },
            blue: if opaque && self.exclude_blue { prior.blue } else { fresh.blue },
            alpha: input.alpha,
        }
    }
}

} // verus!
