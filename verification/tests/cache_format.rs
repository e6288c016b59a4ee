use wallman::cache::{decode_raw_cache, encode_raw_cache, raw_file_name, raw_path, RawHeader};

fn header_bytes(width: u32, height: u32, blur: u32, mode: &str) -> [u8; 40] {
    RawHeader::new(width, height, blur, mode).to_bytes()
}

#[test]
fn header_layout_is_magic_words_and_mode() {
    let bytes = header_bytes(1920, 1080, 8, "fill");
    assert_eq!(&bytes[0..8], b"WALLMAN1");
    assert_eq!(&bytes[8..12], &1920u32.to_ne_bytes());
    assert_eq!(&bytes[12..16], &1080u32.to_ne_bytes());
    assert_eq!(&bytes[16..20], &(1920u32 * 4).to_ne_bytes());
    assert_eq!(&bytes[20..24], &8u32.to_ne_bytes());
    assert_eq!(&bytes[24..28], b"fill");
    assert!(bytes[28..40].iter().all(|b| *b == 0));
}

#[test]
fn header_mode_keeps_at_most_fifteen_bytes() {
    let bytes = header_bytes(10, 10, 3, "abcdefghijklmnopqrstuvwxyz");
    assert_eq!(&bytes[24..39], b"abcdefghijklmno");
    assert_eq!(bytes[39], 0);
}

#[test]
fn header_roundtrip_matches_its_parameters() {
    let bytes = header_bytes(2560, 1440, 12, "center");
    let parsed = RawHeader::from_bytes(&bytes).expect("a written header parses");
    assert!(parsed.matches(2560, 1440, 12, "center"));
    assert_eq!(parsed.to_bytes(), bytes);
}

#[test]
fn header_matches_refuses_other_parameters() {
    let header = RawHeader::new(800, 600, 8, "fit");
    assert!(header.matches(800, 600, 8, "fit"));
    assert!(!header.matches(801, 600, 8, "fit"));
    assert!(!header.matches(800, 601, 8, "fit"));
    assert!(!header.matches(800, 600, 9, "fit"));
    assert!(!header.matches(800, 600, 8, "fill"));
}

#[test]
fn header_modes_equal_in_their_first_fifteen_bytes_match() {
    let header = RawHeader::new(4, 4, 1, "0123456789abcdefXYZ");
    assert!(header.matches(4, 4, 1, "0123456789abcdeQ"));
}

#[test]
fn from_bytes_refuses_short_input() {
    let bytes = header_bytes(1, 1, 1, "fill");
    assert!(RawHeader::from_bytes(&bytes[..39]).is_none());
    assert!(RawHeader::from_bytes(&[]).is_none());
}

#[test]
fn from_bytes_refuses_wrong_magic() {
    let mut bytes = header_bytes(1, 1, 1, "fill");
    bytes[7] = b'2';
    assert!(RawHeader::from_bytes(&bytes).is_none());
}

#[test]
fn from_bytes_refuses_wrong_stride() {
    let mut bytes = header_bytes(100, 100, 1, "fill");
    bytes[16..20].copy_from_slice(&401u32.to_ne_bytes());
    assert!(RawHeader::from_bytes(&bytes).is_none());
}

#[test]
fn from_bytes_refuses_overflowing_stride() {
    let mut bytes = header_bytes(100, 100, 1, "fill");
    bytes[8..12].copy_from_slice(&0x4000_0000u32.to_ne_bytes());
    bytes[16..20].copy_from_slice(&0u32.to_ne_bytes());
    assert!(RawHeader::from_bytes(&bytes).is_none());
}

#[test]
fn from_bytes_refuses_dimensions_over_16384() {
    assert!(RawHeader::from_bytes(&header_bytes(16384, 16384, 1, "fill")).is_some());
    assert!(RawHeader::from_bytes(&header_bytes(16385, 1, 1, "fill")).is_none());
    assert!(RawHeader::from_bytes(&header_bytes(1, 16385, 1, "fill")).is_none());
}

#[test]
fn from_bytes_reads_only_the_first_forty_bytes() {
    let mut data = header_bytes(2, 3, 4, "tile").to_vec();
    data.extend_from_slice(&[9, 9, 9]);
    let parsed = RawHeader::from_bytes(&data).expect("trailing bytes are ignored");
    assert!(parsed.matches(2, 3, 4, "tile"));
}

#[test]
fn raw_cache_roundtrip_gives_back_the_pixels() {
    let pixels: Vec<u8> = (0..(3 * 2 * 4)).map(|i| i as u8).collect();
    let data = encode_raw_cache(3, 2, 8, "fill", &pixels);
    assert_eq!(data.len(), 40 + pixels.len());
    let loaded = decode_raw_cache(&data, 3, 2, 8, "fill");
    assert_eq!(loaded, Some((pixels, 3, 2)));
}

#[test]
fn raw_cache_refuses_another_request() {
    let pixels = vec![1u8; 2 * 2 * 4];
    let data = encode_raw_cache(2, 2, 8, "fill", &pixels);
    assert_eq!(decode_raw_cache(&data, 2, 2, 9, "fill"), None);
    assert_eq!(decode_raw_cache(&data, 2, 2, 8, "fit"), None);
    assert_eq!(decode_raw_cache(&data, 3, 2, 8, "fill"), None);
    assert_eq!(decode_raw_cache(&data, 2, 3, 8, "fill"), None);
}

#[test]
fn raw_cache_refuses_wrong_pixel_count() {
    let pixels = vec![1u8; 2 * 2 * 4];
    let mut data = encode_raw_cache(2, 2, 8, "fill", &pixels);
    data.push(0);
    assert_eq!(decode_raw_cache(&data, 2, 2, 8, "fill"), None);
    data.truncate(data.len() - 2);
    assert_eq!(decode_raw_cache(&data, 2, 2, 8, "fill"), None);
}

#[test]
fn raw_cache_refuses_truncated_header() {
    let data = encode_raw_cache(1, 1, 1, "fill", &[0, 0, 0, 0]);
    assert_eq!(decode_raw_cache(&data[..20], 1, 1, 1, "fill"), None);
}

#[test]
fn raw_file_name_joins_monitor_and_kind() {
    assert_eq!(raw_file_name("DP-1", "wp"), "DP-1.wp.raw");
    assert_eq!(raw_file_name("eDP-1", "bd"), "eDP-1.bd.raw");
}

#[test]
fn raw_path_places_the_file_in_the_cache_directory() {
    assert_eq!(raw_path("/home/u/.cache/wallman", "DP-1", "wp"), "/home/u/.cache/wallman/DP-1.wp.raw");
    assert_eq!(raw_path("/c/", "eDP-1", "bd"), "/c/eDP-1.bd.raw");
}

#[test]
fn header_bytes_are_laid_out_field_by_field() {
    let b = RawHeader::new(3, 2, 7, "fit").to_bytes();
    assert_eq!(b.len(), 40);
    assert_eq!(&b[0..8], b"WALLMAN1");
    assert_eq!(&b[8..12], &3u32.to_ne_bytes());
    assert_eq!(&b[12..16], &2u32.to_ne_bytes());
    assert_eq!(&b[16..20], &12u32.to_ne_bytes());
    assert_eq!(&b[20..24], &7u32.to_ne_bytes());
    assert_eq!(&b[24..40], b"fit\0\0\0\0\0\0\0\0\0\0\0\0\0");
}
