use veoluz::render::{count_bins, max_brightness, opaque_rgba, percentile_bin};

#[test]
fn max_brightness_of_the_grid() {
    let data = vec![3u32, 9, 4, 7, 100];
    assert_eq!(max_brightness(&data, 2, 2), 9);
    assert_eq!(max_brightness(&data, 5, 1), 100);
}

#[test]
fn max_brightness_of_an_empty_grid_is_zero() {
    let data = vec![3u32, 9];
    assert_eq!(max_brightness(&data, 0, 5), 0);
    assert_eq!(max_brightness(&data, 2, 0), 0);
}

#[test]
fn count_bins_counts_each_bin() {
    let bins = count_bins(&[0, 2, 2, 1, 2], 4);
    assert_eq!(bins, vec![1, 1, 3, 0]);
}

#[test]
fn count_bins_totals_the_pixel_count() {
    let indices: Vec<usize> = (0..1000).map(|i| (i * 7) % 13).collect();
    let bins = count_bins(&indices, 13);
    assert_eq!(bins.iter().sum::<usize>(), 1000);
}

#[test]
fn percentile_bin_finds_first_bin_over_threshold() {
    assert_eq!(percentile_bin(&[3, 9, 4], 10), Some(1));
    assert_eq!(percentile_bin(&[3, 9, 4], 2), Some(0));
    assert_eq!(percentile_bin(&[3, 9, 4], 15), Some(2));
}

#[test]
fn percentile_bin_none_when_never_exceeded() {
    assert_eq!(percentile_bin(&[3, 9, 4], 16), None);
    assert_eq!(percentile_bin(&[], 0), None);
}

#[test]
fn opaque_rgba_layout() {
    assert_eq!(opaque_rgba(&[(1, 2, 3), (4, 5, 6)]), vec![1, 2, 3, 255, 4, 5, 6, 255]);
    assert_eq!(opaque_rgba(&[]), Vec::<u8>::new());
}
