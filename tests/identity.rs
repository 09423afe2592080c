use eth_wifi_bridge::{mac2str, source_address, SniffError, Sniffer};

fn frame_with_source(src: [u8; 6], payload_len: usize) -> Vec<u8> {
    let mut f = vec![0xffu8; 6];
    f.extend_from_slice(&src);
    f.extend(std::iter::repeat(0x5au8).take(payload_len));
    f
}

#[test]
fn source_address_reads_bytes_six_to_twelve() {
    let f = frame_with_source([0x02, 0xaa, 0xbb, 0xcc, 0x12, 0x34], 40);
    assert_eq!(source_address(&f), Some([0x02, 0xaa, 0xbb, 0xcc, 0x12, 0x34]));
}

#[test]
fn source_address_of_exactly_twelve_bytes() {
    let f = frame_with_source([1, 2, 3, 4, 5, 6], 0);
    assert_eq!(f.len(), 12);
    assert_eq!(source_address(&f), Some([1, 2, 3, 4, 5, 6]));
}

#[test]
fn source_address_of_short_frame_is_none() {
    assert_eq!(source_address(&[0u8; 11]), None);
    assert_eq!(source_address(&[]), None);
}

#[test]
fn fresh_sniffer_has_no_identity() {
    let s = Sniffer::new();
    assert_eq!(s.identity(), None);
}

#[test]
fn sniffed_identity_round_trip() {
    let mut s = Sniffer::new();
    let f = frame_with_source([0x02, 0xaa, 0xbb, 0xcc, 0x12, 0x34], 20);
    assert_eq!(s.offer(&f), Ok(true));
    assert_eq!(s.identity(), Some([0x02, 0xaa, 0xbb, 0xcc, 0x12, 0x34]));
}

#[test]
fn first_frame_wins_over_later_frames() {
    let mut s = Sniffer::new();
    let frames = [
        frame_with_source([0x02, 0, 0, 0, 0, 1], 10),
        frame_with_source([0x02, 0, 0, 0, 0, 2], 10),
        frame_with_source([0x02, 0, 0, 0, 0, 3], 0),
    ];
    assert_eq!(s.offer(&frames[0]), Ok(true));
    assert_eq!(s.offer(&frames[1]), Ok(false));
    assert_eq!(s.offer(&frames[2]), Ok(false));
    assert_eq!(s.identity(), Some([0x02, 0, 0, 0, 0, 1]));
}

#[test]
fn repeated_frame_is_idempotent() {
    let mut s = Sniffer::new();
    let f = frame_with_source([9, 8, 7, 6, 5, 4], 3);
    assert_eq!(s.offer(&f), Ok(true));
    assert_eq!(s.offer(&f), Ok(false));
    assert_eq!(s.identity(), Some([9, 8, 7, 6, 5, 4]));
}

#[test]
fn short_frame_is_refused_and_captures_nothing() {
    let mut s = Sniffer::new();
    assert_eq!(s.offer(&[1u8; 11]), Err(SniffError::FrameTooShort));
    assert_eq!(s.identity(), None);
}

#[test]
fn short_frame_after_capture_keeps_identity() {
    let mut s = Sniffer::new();
    let f = frame_with_source([1, 1, 1, 1, 1, 1], 0);
    assert_eq!(s.offer(&f), Ok(true));
    assert_eq!(s.offer(&[0u8; 4]), Err(SniffError::FrameTooShort));
    assert_eq!(s.identity(), Some([1, 1, 1, 1, 1, 1]));
}

#[test]
fn mac2str_formats_lower_case_hex() {
    assert_eq!(mac2str([0x02, 0xaa, 0xbb, 0xcc, 0x12, 0x34]), "02:aa:bb:cc:12:34");
}

#[test]
fn mac2str_pads_and_covers_extremes() {
    assert_eq!(mac2str([0, 0x0f, 0xf0, 0xff, 0x09, 0xa0]), "00:0f:f0:ff:09:a0");
}
