use sc_wasm_rust::{average_channels, FilterAverageChannels, Pixel, PixelBuffer};

fn settings(counted: [bool; 3], kept: [bool; 3]) -> FilterAverageChannels {
    FilterAverageChannels {
        length: 1,
        include_red: counted[0],
        include_green: counted[1],
        include_blue: counted[2],
        exclude_red: kept[0],
        exclude_green: kept[1],
        exclude_blue: kept[2],
    }
}

fn flags(bits: u8) -> [bool; 3] {
    [bits & 1 != 0, bits & 2 != 0, bits & 4 != 0]
}

#[test]
fn divisor_counts_the_included_channels() {
    let none = [false, false, false];
    assert_eq!(settings(none, none).divisor(), 0);
    assert_eq!(settings([true, false, false], none).divisor(), 1);
    assert_eq!(settings([false, true, false], none).divisor(), 1);
    assert_eq!(settings([false, false, true], none).divisor(), 1);
    assert_eq!(settings([true, true, false], none).divisor(), 2);
    assert_eq!(settings([true, false, true], none).divisor(), 2);
    assert_eq!(settings([false, true, true], none).divisor(), 2);
    assert_eq!(settings([true, true, true], none).divisor(), 3);
    // The exclusion flags have no part in it.
    assert_eq!(settings([true, true, true], [true, true, true]).divisor(), 3);
    assert_eq!(settings(none, [true, true, true]).divisor(), 0);
}

#[test]
fn channel_sum_leaves_out_excluded_channels() {
    let all = [true, true, true];
    let pixel = Pixel { red: 30, green: 60, blue: 90, alpha: 255 };
    assert_eq!(settings(all, [false, false, false]).channel_sum(pixel), 180);
    assert_eq!(settings(all, [true, false, false]).channel_sum(pixel), 150);
    assert_eq!(settings(all, [false, true, false]).channel_sum(pixel), 120);
    assert_eq!(settings(all, [false, false, true]).channel_sum(pixel), 90);
    assert_eq!(settings(all, [true, true, false]).channel_sum(pixel), 90);
    assert_eq!(settings(all, [true, true, true]).channel_sum(pixel), 0);
    // The inclusion flags have no part in it.
    assert_eq!(settings([false, false, false], [false, false, false]).channel_sum(pixel), 180);
    // Three full intensities do not wrap.
    let white = Pixel { red: 255, green: 255, blue: 255, alpha: 0 };
    assert_eq!(settings(all, [false, false, false]).channel_sum(white), 765);
}

#[test]
fn replacement_averages_opaque_pixels() {
    let none = [false, false, false];
    let pixel = Pixel { red: 30, green: 60, blue: 90, alpha: 255 };
    assert_eq!(
        settings([true, true, true], none).replacement(pixel),
        Pixel { red: 60, green: 60, blue: 60, alpha: 255 }
    );
    assert_eq!(
        settings([true, true, false], none).replacement(pixel),
        Pixel { red: 90, green: 90, blue: 90, alpha: 255 }
    );
    assert_eq!(
        settings([false, false, true], none).replacement(pixel),
        Pixel { red: 180, green: 180, blue: 180, alpha: 255 }
    );
    assert_eq!(
        settings([true, true, true], [false, true, true]).replacement(pixel),
        Pixel { red: 10, green: 10, blue: 10, alpha: 255 }
    );
    assert_eq!(
        settings([true, true, true], [true, true, true]).replacement(pixel),
        Pixel { red: 0, green: 0, blue: 0, alpha: 255 }
    );
    let bright = Pixel { red: 200, green: 100, blue: 1, alpha: 3 };
    assert_eq!(
        settings([false, true, false], none).replacement(bright),
        Pixel { red: 255, green: 255, blue: 255, alpha: 3 }
    );
    assert_eq!(
        settings([false, true, true], none).replacement(bright),
        Pixel { red: 150, green: 150, blue: 150, alpha: 3 }
    );
}

#[test]
fn replacement_keeps_transparent_pixels_and_zero_divisors() {
    let clear = Pixel { red: 30, green: 60, blue: 90, alpha: 0 };
    let solid = Pixel { red: 30, green: 60, blue: 90, alpha: 1 };
    for bits in 0..8u8 {
        assert_eq!(settings([true, true, true], flags(bits)).replacement(clear), clear);
        assert_eq!(settings([false, false, false], flags(bits)).replacement(clear), clear);
        assert_eq!(settings([false, false, false], flags(bits)).replacement(solid), solid);
    }
}

#[test]
fn filter_pixel_keeps_excluded_channels_of_opaque_pixels() {
    let all = [true, true, true];
    let input = Pixel { red: 30, green: 60, blue: 90, alpha: 255 };
    let prior = Pixel { red: 1, green: 2, blue: 3, alpha: 4 };
    assert_eq!(
        settings(all, [false, false, false]).filter_pixel(input, prior),
        Pixel { red: 60, green: 60, blue: 60, alpha: 255 }
    );
    assert_eq!(
        settings(all, [false, false, true]).filter_pixel(input, prior),
        Pixel { red: 30, green: 30, blue: 3, alpha: 255 }
    );
    assert_eq!(
        settings(all, [true, false, false]).filter_pixel(input, prior),
        Pixel { red: 1, green: 50, blue: 50, alpha: 255 }
    );
    assert_eq!(
        settings(all, [true, true, true]).filter_pixel(input, prior),
        Pixel { red: 1, green: 2, blue: 3, alpha: 255 }
    );
    assert_eq!(
        settings([false, false, false], [false, true, false]).filter_pixel(input, prior),
        Pixel { red: 30, green: 2, blue: 90, alpha: 255 }
    );
    let clear = Pixel { red: 30, green: 60, blue: 90, alpha: 0 };
    assert_eq!(settings(all, [true, true, true]).filter_pixel(clear, prior), clear);
}

#[test]
fn filter_pixel_agrees_with_the_buffer_filter() {
    let inputs = [
        Pixel { red: 30, green: 60, blue: 90, alpha: 255 },
        Pixel { red: 255, green: 255, blue: 255, alpha: 1 },
        Pixel { red: 9, green: 8, blue: 7, alpha: 0 },
        Pixel { red: 0, green: 0, blue: 1, alpha: 200 },
    ];
    let prior = Pixel { red: 11, green: 22, blue: 33, alpha: 44 };
    for counted in 0..8u8 {
        for kept in 0..8u8 {
            let config = settings(flags(counted), flags(kept));
            for input in inputs {
                let source = PixelBuffer::new(
                    vec![input.red],
                    vec![input.green],
                    vec![input.blue],
                    vec![input.alpha],
                );
                let target = PixelBuffer::new(
                    vec![prior.red],
                    vec![prior.green],
                    vec![prior.blue],
                    vec![prior.alpha],
                );
                match (source, target) {
                    (Some(source), Some(mut target)) => {
                        assert_eq!(average_channels(&source, &mut target, &config), Ok(()));
                        assert_eq!(target.get(0), Some(config.filter_pixel(input, prior)));
                    }
                    _ => panic!("channels of one length were refused"),
                }
            }
        }
    }
}

#[test]
fn new_takes_channels_of_one_length() {
    let buffer = PixelBuffer::new(vec![1, 2], vec![3, 4], vec![5, 6], vec![7, 8]);
    match buffer {
        Some(buffer) => {
            assert_eq!(buffer.len(), 2);
            assert_eq!(buffer.get(0), Some(Pixel { red: 1, green: 3, blue: 5, alpha: 7 }));
            assert_eq!(buffer.get(1), Some(Pixel { red: 2, green: 4, blue: 6, alpha: 8 }));
        }
        None => panic!("channels of one length were refused"),
    }
    let empty = PixelBuffer::new(vec![], vec![], vec![], vec![]);
    assert_eq!(empty.map(|buffer| buffer.len()), Some(0));
}

#[test]
fn new_refuses_channels_of_different_lengths() {
    assert_eq!(PixelBuffer::new(vec![1], vec![1, 2], vec![1, 2], vec![1, 2]), None);
    assert_eq!(PixelBuffer::new(vec![1, 2], vec![1], vec![1, 2], vec![1, 2]), None);
    assert_eq!(PixelBuffer::new(vec![1, 2], vec![1, 2], vec![1], vec![1, 2]), None);
    assert_eq!(PixelBuffer::new(vec![1, 2], vec![1, 2], vec![1, 2], vec![1]), None);
    assert_eq!(PixelBuffer::new(vec![], vec![], vec![], vec![0]), None);
    assert_eq!(PixelBuffer::new(vec![1, 2, 3], vec![1, 2], vec![1, 2], vec![1, 2]), None);
}

#[test]
fn get_is_none_past_the_end() {
    match PixelBuffer::new(vec![1, 2], vec![3, 4], vec![5, 6], vec![7, 8]) {
        Some(buffer) => {
            assert_eq!(buffer.get(2), None);
            assert_eq!(buffer.get(usize::MAX), None);
        }
        None => panic!("channels of one length were refused"),
    }
}

#[test]
fn into_channels_returns_what_new_took() {
    match PixelBuffer::new(vec![1, 2], vec![3, 4], vec![5, 6], vec![7, 8]) {
        Some(buffer) => {
            assert_eq!(buffer.into_channels(), (vec![1, 2], vec![3, 4], vec![5, 6], vec![7, 8]));
        }
        None => panic!("channels of one length were refused"),
    }
}

#[test]
fn clone_copies_every_channel() {
    let all = [true, true, true];
    let source = PixelBuffer::new(vec![30, 1], vec![60, 1], vec![90, 1], vec![255, 1]);
    match (source, PixelBuffer::new(vec![1, 2], vec![3, 4], vec![5, 6], vec![7, 8])) {
        (Some(source), Some(mut buffer)) => {
            let copy = buffer.clone();
            assert_eq!(copy, buffer);
            let config = settings(all, [false, false, false]);
            assert_eq!(average_channels(&source, &mut buffer, &config), Ok(()));
            assert_ne!(copy, buffer);
            assert_eq!(copy.into_channels(), (vec![1, 2], vec![3, 4], vec![5, 6], vec![7, 8]));
            assert_eq!(buffer.into_channels(), (vec![60, 2], vec![60, 4], vec![60, 6], vec![255, 8]));
        }
        _ => panic!("channels of one length were refused"),
    }
}
