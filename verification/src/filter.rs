//! The channel-averaging filter over whole buffers and over ranges of them.

use vstd::prelude::*;
use crate::config::FilterAverageChannels;
use crate::pixel::{Pixel, PixelBuffer};

verus! {

/// Why the filter did not run.
#[derive(Clone, Copy, Debug, PartialEq, Eq, Structural)]
pub enum FilterError {
    /// A buffer holds fewer pixels than the configuration asks to process.
    LengthMismatch,
}

/// Both buffers hold at least as many pixels as `config` asks to process.
pub open spec fn fits(config: FilterAverageChannels, input: Seq<Pixel>, output: Seq<Pixel>) -> bool {
    config.length <= input.len() && config.length <= output.len()
}

/// The output after the filter has processed the pixels from `start` up to,
/// not including, `end`, as far as they lie below `config.length`: each of
/// them is filtered, every other pixel of `prior` stays.
pub open spec fn filtered_range(
    config: FilterAverageChannels,
    input: Seq<Pixel>,
    prior: Seq<Pixel>,
    start: int,
    end: int,
) -> Seq<Pixel> {
    Seq::new(
        prior.len(),
        |i: int|
            if start <= i < end && i < config.length {
                config.filtered_pixel(input[i], prior[i])
            } else {
                prior[i]
            },
    )
}

/// The output after the filter has processed all `config.length` pixels.
pub open spec fn filtered(
    config: FilterAverageChannels,
    input: Seq<Pixel>,
    prior: Seq<Pixel>,
) -> Seq<Pixel> {
    filtered_range(config, input, prior, 0, config.length as int)
}

/// Writes what the filter makes of the input pixel `pixel` to `output` at
/// `index`. The excluded colours of an opaque pixel are not written.
fn write_filtered(
    output: &mut PixelBuffer,
    index: usize,
    pixel: Pixel,
    config: &FilterAverageChannels,
)
    requires
        index < old(output)@.len(),
    ensures
        final(output)@ == old(output)@.update(
            index as int,
            config.filtered_pixel(pixel, old(output)@[index as int]),
        ),
{
    let fresh = config.replacement(pixel);
    let opaque = pixel.alpha != 0;
    if !(opaque && config.exclude_red) {
        output.set_red(index, fresh.red);
    }
    if !(opaque && config.exclude_green) {
        output.set_green(index, fresh.green);
    }
    if !(opaque && config.exclude_blue) {
        output.set_blue(index, fresh.blue);
    }
    output.set_alpha(index, pixel.alpha);
}

/// Filters the pixels of `input` from `start` up to, not including, `end`
/// into `output`, as far as they lie below `config.length`.
///
/// The lengths are checked once, before anything is written: with a buffer
/// shorter than `config.length` the call fails and `output` is as it was.
/// Calls on ranges that together cover all indices below `config.length`
/// leave what one call of [`average_channels`] leaves, in whatever order
/// they are made.
pub fn average_channels_range(
    input: &PixelBuffer,
    output: &mut PixelBuffer,
    config: &FilterAverageChannels,
    start: u64,
    end: u64,
) -> (result: Result<(), FilterError>)
    ensures
        result is Ok <==> fits(*config, input@, old(output)@),
        result is Ok ==> final(output)@ == filtered_range(
            *config,
            input@,
            old(output)@,
            start as int,
            end as int,
        ),
        result is Err ==> result == Err::<(), FilterError>(FilterError::LengthMismatch)
            && *final(output) == *old(output),
{
    if config.length > input.len() as u64 || config.length > output.len() as u64 {
        return Err(FilterError::LengthMismatch);
    }
    let stop: u64 = if end < config.length {
        end
    } else {
        config.length
    };
    if start >= stop {
        return Ok(());
    }
    let last: usize = stop as usize;
    let mut index: usize = start as usize;
    while index < last
        invariant
            start <= index <= last,
            last == if end < config.length {
                end
            } else {
                config.length
            },
            fits(*config, input@, old(output)@),
            output@ == filtered_range(
                *config,
                input@,
                old(output)@,
                start as int,
                index as int,
            ),
        decreases last - index,
    {
        write_filtered(output, index, input.pixel(index), config);
        index = index + 1;
    }
    Ok(())
}

/// Filters the first `config.length` pixels of `input` into `output`.
///
/// A transparent pixel is copied whole. Of an opaque pixel, alpha is copied,
/// an excluded colour is left as `output` held it, and every other colour
/// takes the average, or the input's own intensity when no channel counts
/// towards the divisor. Pixels from `config.length` on are left as they were.
///
/// The lengths are checked once, before anything is written: with a buffer
/// shorter than `config.length` the call fails and `output` is as it was.
pub fn average_channels(
    input: &PixelBuffer,
    output: &mut PixelBuffer,
    config: &FilterAverageChannels,
) -> (result: Result<(), FilterError>)
    ensures
        result is Ok <==> fits(*config, input@, old(output)@),
        result is Ok ==> final(output)@ == filtered(*config, input@, old(output)@),
        result is Err ==> result == Err::<(), FilterError>(FilterError::LengthMismatch)
            && *final(output) == *old(output),
        result is Ok ==> forall|i: int|
            0 <= i < config.length && input@[i].alpha == 0 ==> #[trigger] final(output)@[i]
                == input@[i],
        result is Ok && config.spec_divisor() == 0 ==> forall|i: int|
            0 <= i < config.length && input@[i].alpha != 0 ==> {
                let written = #[trigger] final(output)@[i];
                &&& written.alpha == input@[i].alpha
                &&& !config.exclude_red ==> written.red == input@[i].red
                &&& !config.exclude_green ==> written.green == input@[i].green
                &&& !config.exclude_blue ==> written.blue == input@[i].blue
            },
{
    average_channels_range(input, output, config, 0, config.length)
}

/// Filters the first `config.length` pixels of `buffer` where they stand.
///
/// The buffer is input and output at once: an excluded colour of an opaque
/// pixel keeps the intensity that it has. With a buffer shorter than
/// `config.length` the call fails and `buffer` is as it was.
pub fn average_channels_in_place(buffer: &mut PixelBuffer, config: &FilterAverageChannels) -> (result:
    Result<(), FilterError>)
    ensures
        result is Ok <==> config.length <= old(buffer)@.len(),
        result is Ok ==> final(buffer)@ == filtered(*config, old(buffer)@, old(buffer)@),
        result is Err ==> result == Err::<(), FilterError>(FilterError::LengthMismatch)
            && *final(buffer) == *old(buffer),
{
    if config.length > buffer.len() as u64 {
        return Err(FilterError::LengthMismatch);
    }
    let last: usize = config.length as usize;
    let mut index: usize = 0;
    while index < last
        invariant
            index <= last,
            last == config.length,
            config.length <= old(buffer)@.len(),
            buffer@ == filtered_range(
                *config,
                old(buffer)@,
                old(buffer)@,
                0,
                index as int,
            ),
        decreases last - index,
    {
        let pixel = buffer.pixel(index);
        write_filtered(buffer, index, pixel, config);
        index = index + 1;
    }
    Ok(())
}

} // verus!
