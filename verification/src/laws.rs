//! What holds of the filter on all inputs.

use vstd::prelude::*;
use crate::config::{narrowed, FilterAverageChannels};
use crate::filter::{filtered, filtered_range};
use crate::pixel::Pixel;

verus! {

/// A transparent pixel comes out as it went in, whatever the flags say and
/// whatever the output held.
pub proof fn lemma_transparent_pixel_is_copied(
    config: FilterAverageChannels,
    input: Pixel,
    prior: Pixel,
)
    requires
        input.alpha == 0,
    ensures
        config.filtered_pixel(input, prior) == input,
{
}

/// When no channel counts towards the divisor, an opaque pixel keeps its
/// alpha and every colour that is not excluded.
pub proof fn lemma_zero_divisor_copies_channels(
    config: FilterAverageChannels,
    input: Pixel,
    prior: Pixel,
)
    requires
        !config.include_red && !config.include_green && !config.include_blue,
        input.alpha != 0,
    ensures
        config.filtered_pixel(input, prior).alpha == input.alpha,
        !config.exclude_red ==> config.filtered_pixel(input, prior).red == input.red,
        !config.exclude_green ==> config.filtered_pixel(input, prior).green == input.green,
        !config.exclude_blue ==> config.filtered_pixel(input, prior).blue == input.blue,
{
}

/// An excluded colour of an opaque pixel is left as the output held it.
pub proof fn lemma_excluded_channels_stay(
    config: FilterAverageChannels,
    input: Pixel,
    prior: Pixel,
)
    requires
        input.alpha != 0,
    ensures
        config.exclude_red ==> config.filtered_pixel(input, prior).red == prior.red,
        config.exclude_green ==> config.filtered_pixel(input, prior).green == prior.green,
        config.exclude_blue ==> config.filtered_pixel(input, prior).blue == prior.blue,
{
}

/// The written average is the truncated quotient of the channel sum by the
/// divisor, narrowed to 8 bits.
pub proof fn lemma_average_is_narrowed_quotient(config: FilterAverageChannels, pixel: Pixel)
    requires
        0 < config.spec_divisor(),
    ensures
        config.spec_average(pixel) == narrowed(
            config.spec_channel_sum(pixel) / config.spec_divisor(),
        ),
{
    let sum = config.spec_channel_sum(pixel);
    let divisor = config.spec_divisor();
    if divisor == 1 {
        assert(sum / divisor == sum);
    } else if divisor == 2 {
        assert(sum / divisor == sum / 2);
    } else {
        assert(sum / divisor == sum / 3);
    }
}

/// When at least as many channels count towards the divisor as are summed,
/// the quotient fits in 8 bits and is written as it is.
pub proof fn lemma_average_is_exact(config: FilterAverageChannels, pixel: Pixel)
    requires
        0 < config.spec_divisor(),
        config.spec_written() <= config.spec_divisor(),
    ensures
        config.spec_average(pixel) == config.spec_channel_sum(pixel) / config.spec_divisor(),
{
    lemma_average_is_narrowed_quotient(config, pixel);
    let sum = config.spec_channel_sum(pixel);
    let divisor = config.spec_divisor();
    assert(sum <= 255 * config.spec_written());
    if divisor == 1 {
        assert(sum / 1 <= 255);
    } else if divisor == 2 {
        assert(sum / 2 <= 255);
    } else {
        assert(sum / 3 <= 255);
    }
}

/// The two outputs agree wherever the filter, reading `input`, writes
/// nothing: on the excluded colours of opaque pixels below `config.length`,
/// and on every pixel from `config.length` on.
pub open spec fn alike_where_untouched(
    config: FilterAverageChannels,
    input: Seq<Pixel>,
    first: Seq<Pixel>,
    second: Seq<Pixel>,
) -> bool {
    &&& first.len() == second.len()
    &&& forall|i: int|
        #![trigger first[i]]
        0 <= i < first.len() ==> if i < config.length {
            input[i].alpha != 0 ==> {
                &&& config.exclude_red ==> first[i].red == second[i].red
                &&& config.exclude_green ==> first[i].green == second[i].green
                &&& config.exclude_blue ==> first[i].blue == second[i].blue
            }
        } else {
            first[i] == second[i]
        }
}

/// Filtering one input with one configuration into two outputs leaves the
/// same pixels in both, if and only if the two agreed wherever the filter
/// writes nothing. What the filter writes depends on the input and the
/// configuration alone.
pub proof fn lemma_same_result_in_separate_outputs(
    config: FilterAverageChannels,
    input: Seq<Pixel>,
    first: Seq<Pixel>,
    second: Seq<Pixel>,
)
    ensures
        filtered(config, input, first) == filtered(config, input, second) <==> alike_where_untouched(
            config,
            input,
            first,
            second,
        ),
{
    let a = filtered(config, input, first);
    let b = filtered(config, input, second);
    if alike_where_untouched(config, input, first, second) {
        assert(a =~= b);
    }
    if a == b {
        assert(first.len() == a.len());
        assert(second.len() == b.len());
        assert forall|i: int| #![trigger first[i]] 0 <= i < first.len() implies if i
            < config.length {
            input[i].alpha != 0 ==> {
                &&& config.exclude_red ==> first[i].red == second[i].red
                &&& config.exclude_green ==> first[i].green == second[i].green
                &&& config.exclude_blue ==> first[i].blue == second[i].blue
            }
        } else {
            first[i] == second[i]
        } by {
            assert(a[i] == b[i]);
        }
    }
}

/// Filtering an output a second time, with the same input and
/// configuration, changes nothing.
pub proof fn lemma_second_pass_changes_nothing(
    config: FilterAverageChannels,
    input: Seq<Pixel>,
    prior: Seq<Pixel>,
)
    ensures
        filtered(config, input, filtered(config, input, prior)) == filtered(config, input, prior),
{
    assert(filtered(config, input, filtered(config, input, prior)) =~= filtered(
        config,
        input,
        prior,
    ));
}

/// Processing a range in two parts, one after the other, leaves what
/// processing it at once leaves.
pub proof fn lemma_range_splits(
    config: FilterAverageChannels,
    input: Seq<Pixel>,
    prior: Seq<Pixel>,
    start: int,
    middle: int,
    end: int,
)
    requires
        start <= middle <= end,
    ensures
        filtered_range(
            config,
            input,
            filtered_range(config, input, prior, start, middle),
            middle,
            end,
        ) == filtered_range(config, input, prior, start, end),
{
    assert(filtered_range(
        config,
        input,
        filtered_range(config, input, prior, start, middle),
        middle,
        end,
    ) =~= filtered_range(config, input, prior, start, end));
}

/// Two ranges, whether they overlap or not, can be processed in either
/// order.
pub proof fn lemma_ranges_commute(
    config: FilterAverageChannels,
    input: Seq<Pixel>,
    prior: Seq<Pixel>,
    first: (int, int),
    second: (int, int),
)
    ensures
        filtered_range(
            config,
            input,
            filtered_range(config, input, prior, first.0, first.1),
            second.0,
            second.1,
        ) == filtered_range(
            config,
            input,
            filtered_range(config, input, prior, second.0, second.1),
            first.0,
            first.1,
        ),
{
    assert(filtered_range(
        config,
        input,
        filtered_range(config, input, prior, first.0, first.1),
        second.0,
        second.1,
    ) =~= filtered_range(
        config,
        input,
        filtered_range(config, input, prior, second.0, second.1),
        first.0,
        first.1,
    ));
}

/// Whether one of `ranges` holds the index `i`. A range is a pair of its
/// start and its end, and holds the indices from the start up to, not
/// including, the end.
pub open spec fn covered(ranges: Seq<(int, int)>, i: int) -> bool {
    exists|k: int| 0 <= k < ranges.len() && (#[trigger] ranges[k]).0 <= i < ranges[k].1
}

/// The output after `ranges` have been processed one after the other, from
/// the first entry to the last.
pub open spec fn filtered_in_ranges(
    config: FilterAverageChannels,
    input: Seq<Pixel>,
    prior: Seq<Pixel>,
    ranges: Seq<(int, int)>,
) -> Seq<Pixel>
    decreases ranges.len(),
{
    if ranges.len() == 0 {
        prior
    } else {
        filtered_range(
            config,
            input,
            filtered_in_ranges(config, input, prior, ranges.drop_last()),
            ranges.last().0,
            ranges.last().1,
        )
    }
}

/// After `ranges` have been processed one after the other, exactly the
/// pixels that some range holds are filtered, each as if it had been
/// processed once: neither the order of the ranges nor an overlap among
/// them shows in the output.
pub proof fn lemma_filtered_in_ranges(
    config: FilterAverageChannels,
    input: Seq<Pixel>,
    prior: Seq<Pixel>,
    ranges: Seq<(int, int)>,
)
    ensures
        filtered_in_ranges(config, input, prior, ranges).len() == prior.len(),
        forall|i: int|
            0 <= i < prior.len() ==> #[trigger] filtered_in_ranges(config, input, prior, ranges)[i]
                == if covered(ranges, i) && i < config.length {
                config.filtered_pixel(input[i], prior[i])
            } else {
                prior[i]
            },
    decreases ranges.len(),
{
    if ranges.len() > 0 {
        let earlier = ranges.drop_last();
        let last = ranges.last();
        lemma_filtered_in_ranges(config, input, prior, earlier);
        assert forall|i: int| 0 <= i < prior.len() implies #[trigger] filtered_in_ranges(
            config,
            input,
            prior,
            ranges,
        )[i] == if covered(ranges, i) && i < config.length {
            config.filtered_pixel(input[i], prior[i])
        } else {
            prior[i]
        } by {
            assert(covered(ranges, i) <==> covered(earlier, i) || last.0 <= i < last.1) by {
                if covered(earlier, i) {
                    let k = choose|k: int|
                        0 <= k < earlier.len() && (#[trigger] earlier[k]).0 <= i < earlier[k].1;
                    assert(ranges[k] == earlier[k]);
                }
                if last.0 <= i < last.1 {
                    assert(ranges[ranges.len() - 1] == last);
                }
                if covered(ranges, i) {
                    let k = choose|k: int|
                        0 <= k < ranges.len() && (#[trigger] ranges[k]).0 <= i < ranges[k].1;
                    if k < ranges.len() - 1 {
                        assert(earlier[k] == ranges[k]);
                    }
                }
            }
        }
    }
}

/// The order in which the pixels are processed does not matter. However
/// the indices below `config.length` are divided into ranges, and in
/// whatever order the ranges are processed, forwards, backwards or one pixel
/// at a time, the output is what the filter leaves in one pass.
pub proof fn lemma_order_is_immaterial(
    config: FilterAverageChannels,
    input: Seq<Pixel>,
    prior: Seq<Pixel>,
    ranges: Seq<(int, int)>,
)
    requires
        forall|i: int| 0 <= i < config.length ==> covered(ranges, i),
    ensures
        filtered_in_ranges(config, input, prior, ranges) == filtered(config, input, prior),
{
    lemma_filtered_in_ranges(config, input, prior, ranges);
    assert(filtered_in_ranges(config, input, prior, ranges) =~= filtered(config, input, prior));
}

} // verus!
