use veoluz::buffers::{accumulate, to_le};

#[test]
fn accumulate_adds_pixelwise() {
    let mut buffer = vec![1u32, 2, 3, 4];
    accumulate(&mut buffer, &[10, 20, 30]);
    assert_eq!(buffer, vec![11, 22, 33, 4]);
}

#[test]
fn to_le_bytes_lowest_first() {
    assert_eq!(to_le(&[0x0102_0304, 0xffff_ffff, 0]), vec![4, 3, 2, 1, 255, 255, 255, 255, 0, 0, 0, 0]);
}

#[test]
fn to_le_matches_std() {
    let values = vec![7u32, 1 << 31, 123_456_789];
    let expected: Vec<u8> = values.iter().flat_map(|v| v.to_le_bytes()).collect();
    assert_eq!(to_le(&values), expected);
}
