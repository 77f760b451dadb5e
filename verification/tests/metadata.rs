use packet::ParseMetadata;

#[test]
fn from_packet_keeps_the_three_lengths() {
    let meta = ParseMetadata::from_packet(14, 46, 4);
    assert_eq!(meta.header_len, 14);
    assert_eq!(meta.body_len, 46);
    assert_eq!(meta.footer_len, 4);
}

#[test]
fn from_inner_packet_counts_everything_as_header() {
    let meta = ParseMetadata::from_inner_packet(20);
    assert_eq!(meta.header_len, 20);
    assert_eq!(meta.body_len, 0);
    assert_eq!(meta.footer_len, 0);
}
