use synth_one::dsp::filter::{Bin, Filter, SimpleFilter};
use synth_one::fixed::ONE;

#[test]
fn new_clamps_the_cutoff_parameter() {
    assert_eq!(SimpleFilter::new(-5, 48000).frequency_norm, 0);
    assert_eq!(SimpleFilter::new(70000, 48000).frequency_norm, ONE);
    assert_eq!(SimpleFilter::new(12345, 48000).frequency_norm, 12345);
}

#[test]
fn cutoff_bucket_is_the_normalized_fraction_of_the_spectrum() {
    let filter = SimpleFilter::new(ONE / 2, 48000);
    assert_eq!(filter.cutoff_bucket_index(25), 12);
    let open = SimpleFilter::new(ONE, 48000);
    assert_eq!(open.cutoff_bucket_index(25), 25);
    let closed = SimpleFilter::new(0, 48000);
    assert_eq!(closed.cutoff_bucket_index(25), 0);
}

#[test]
fn brick_wall_zeroes_bins_at_and_above_the_cutoff() {
    // Four bins, cutoff halfway: bins 2 and 3 are silenced.
    let filter = SimpleFilter::new(ONE / 2, 48000);
    let mut spectrum = vec![
        Bin { re: 8, im: -8 },
        Bin { re: 100, im: 50 },
        Bin { re: 7, im: 7 },
        Bin { re: -3, im: 12 },
    ];
    filter.process(&mut spectrum, 4);
    assert_eq!(spectrum[2], Bin { re: 0, im: 0 });
    assert_eq!(spectrum[3], Bin { re: 0, im: 0 });
}

#[test]
fn kept_bins_are_normalized_by_the_block_length() {
    let filter = SimpleFilter::new(ONE, 48000);
    let mut spectrum = vec![Bin { re: 8, im: -8 }, Bin { re: 7, im: -7 }];
    filter.process(&mut spectrum, 4);
    assert_eq!(spectrum[0], Bin { re: 2, im: -2 });
    // Truncation is toward zero.
    assert_eq!(spectrum[1], Bin { re: 1, im: -1 });
}

#[test]
fn fully_open_filter_only_normalizes() {
    let filter = SimpleFilter::new(ONE, 48000);
    let mut spectrum = vec![Bin { re: 10, im: 20 }, Bin { re: -30, im: 40 }];
    filter.process(&mut spectrum, 1);
    assert_eq!(spectrum, vec![Bin { re: 10, im: 20 }, Bin { re: -30, im: 40 }]);
}
