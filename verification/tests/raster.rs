use veoluz::raster::{plot_brightness, plot_cell, WuPixel, XiaolinWu};

#[test]
fn plot_cell_adds_to_one_cell() {
    let mut data = vec![0u32; 6];
    plot_cell(&mut data, 3, 2, 1, 1, 7);
    assert_eq!(data, vec![0, 0, 0, 0, 7, 0]);
    plot_cell(&mut data, 3, 2, 1, 1, 5);
    assert_eq!(data, vec![0, 0, 0, 0, 12, 0]);
}

#[test]
fn plot_cell_skips_cells_off_the_grid() {
    let mut data = vec![1u32; 6];
    plot_cell(&mut data, 3, 2, 3, 0, 9);
    plot_cell(&mut data, 3, 2, 0, 2, 9);
    assert_eq!(data, vec![1; 6]);
}

#[test]
fn plot_brightness_skips_negative_coordinates() {
    let mut data = vec![0u32; 4];
    plot_brightness(&mut data, 2, 2, -1, 0, 3);
    plot_brightness(&mut data, 2, 2, 0, -1, 3);
    assert_eq!(data, vec![0; 4]);
    plot_brightness(&mut data, 2, 2, 1, 0, 3);
    assert_eq!(data, vec![0, 3, 0, 0]);
}

#[test]
fn wu_draw_writes_colour_and_coverage() {
    let mut data = vec![0u8; 2 * 2 * 4];
    let mut line = XiaolinWu::from_pixels(vec![
        WuPixel { x: 0, y: 0, coverage: 128 },
        WuPixel { x: 1, y: 1, coverage: 255 },
        WuPixel { x: 2, y: 1, coverage: 10 },
        WuPixel { x: -1, y: 0, coverage: 10 },
    ]);
    line.draw(&mut data, 2, 2, 1, 2, 3);
    assert_eq!(data, vec![1, 2, 3, 128, 0, 0, 0, 0, 0, 0, 0, 0, 1, 2, 3, 255]);
    assert_eq!(line.next_pixel(), None);
}

#[test]
fn wu_later_pixels_paint_over_earlier_ones() {
    let mut data = vec![0u8; 4];
    let mut line = XiaolinWu::from_pixels(vec![
        WuPixel { x: 0, y: 0, coverage: 1 },
        WuPixel { x: 0, y: 0, coverage: 2 },
    ]);
    line.draw(&mut data, 1, 1, 9, 9, 9);
    assert_eq!(data, vec![9, 9, 9, 2]);
}

#[test]
fn wu_next_pixel_hands_out_in_order() {
    let a = WuPixel { x: 3, y: 4, coverage: 5 };
    let b = WuPixel { x: 6, y: 7, coverage: 8 };
    let mut line = XiaolinWu::from_pixels(vec![a, b]);
    assert_eq!(line.next_pixel(), Some(a));
    assert_eq!(line.next_pixel(), Some(b));
    assert_eq!(line.next_pixel(), None);
}

#[test]
fn wu_draw_compares_width_as_i16() {
    // A width of 65537 is 1 as an i16: only column 0 is painted.
    let mut data = vec![0u8; 65537 * 4];
    let mut line = XiaolinWu::from_pixels(vec![
        WuPixel { x: 0, y: 0, coverage: 7 },
        WuPixel { x: 1, y: 0, coverage: 7 },
    ]);
    line.draw(&mut data, 65537, 1, 1, 1, 1);
    assert_eq!(&data[0..8], &[1, 1, 1, 7, 0, 0, 0, 0]);
}
