use veoluz::share::{decode_share_link, encode_share_link, fragment_payload};

#[test]
fn share_link_round_trip() {
    let scene: Vec<u8> = (0..200u32).map(|i| (i * 31 % 251) as u8).collect();
    let text = encode_share_link(&scene).unwrap();
    assert_eq!(decode_share_link(&text), Some(scene));
}

#[test]
fn share_link_is_compressed_base64() {
    let scene = vec![7u8; 1000];
    let text = encode_share_link(&scene).unwrap();
    assert_eq!(text, base64::encode(miniz_oxide::deflate::compress_to_vec(&scene, 10)));
    assert!(text.len() < 100);
}

#[test]
fn decode_reads_what_the_crates_write() {
    let text = base64::encode(miniz_oxide::deflate::compress_to_vec(b"scene bytes", 10));
    assert_eq!(decode_share_link(&text), Some(b"scene bytes".to_vec()));
}

#[test]
fn decode_rejects_non_base64() {
    assert_eq!(decode_share_link("not base64!"), None);
    assert_eq!(decode_share_link("%%%"), None);
}

#[test]
fn share_text_is_base64_of_expected_length() {
    let scene: Vec<u8> = (0..50u8).collect();
    let text = encode_share_link(&scene).unwrap();
    let stream = miniz_oxide::deflate::compress_to_vec(&scene, 10);
    assert_eq!(text.len(), 4 * ((stream.len() + 2) / 3));
    assert!(text.chars().all(|c| c.is_ascii_alphanumeric() || c == '+' || c == '/' || c == '='));
}

#[test]
fn decode_rejects_non_deflate() {
    let text = base64::encode([0xffu8, 0xff, 0xff]);
    assert_eq!(decode_share_link(&text), None);
}

#[test]
fn fragment_payload_drops_the_hash() {
    assert_eq!(fragment_payload("#abc"), Some("abc"));
    assert_eq!(fragment_payload("#"), Some(""));
    assert_eq!(fragment_payload(""), None);
}
