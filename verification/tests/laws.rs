use packet::{Buf, Buffer, BufferMut, ParseBuffer, ParseBufferMut, ParseMetadata};

fn ascending(n: u8) -> Vec<u8> {
    (0..n).collect::<Vec<u8>>()
}

fn parts<B: Buffer>(buf: &B) -> (usize, usize, usize) {
    (buf.prefix_len(), ParseBuffer::len(buf), buf.suffix_len())
}

#[test]
fn capacity_stays_through_shrinking_and_growing() {
    let mut buf = Buf::new(ascending(16), 3..12);
    assert_eq!(buf.capacity(), 16);
    assert_eq!(parts(&buf), (3, 9, 4));
    buf.shrink_front(2);
    assert_eq!(parts(&buf), (5, 7, 4));
    buf.shrink_back(3);
    assert_eq!(parts(&buf), (5, 4, 7));
    buf.shrink(1..3);
    assert_eq!(parts(&buf), (6, 2, 8));
    buf.grow_front(6);
    assert_eq!(parts(&buf), (0, 8, 8));
    buf.grow_back(1);
    assert_eq!(parts(&buf), (0, 9, 7));
    buf.reset();
    assert_eq!(parts(&buf), (0, 16, 0));
    let (prefix, len, suffix) = parts(&buf);
    assert_eq!(prefix + len + suffix, buf.capacity());
    assert_eq!(buf.capacity(), 16);
}

#[test]
fn growing_back_undoes_shrinking() {
    let mut buf = Buf::new(ascending(10), ..);
    buf.shrink_front(3);
    buf.shrink_back(2);
    assert_eq!(buf.as_bytes(), &[3, 4, 5, 6, 7][..]);
    buf.grow_back(2);
    buf.grow_front(3);
    assert_eq!(buf.as_bytes(), &[0, 1, 2, 3, 4, 5, 6, 7, 8, 9][..]);
    assert_eq!(parts(&buf), (0, 10, 0));
}

#[test]
fn shrink_is_shrink_front_then_shrink_back() {
    let mut at_once = Buf::new(ascending(10), 1..9);
    let mut in_steps = Buf::new(ascending(10), 1..9);
    at_once.shrink(2..5);
    let len = ParseBuffer::len(&in_steps);
    in_steps.shrink_front(2);
    in_steps.shrink_back(len - 5);
    assert_eq!(at_once.as_bytes(), &[3, 4, 5][..]);
    assert_eq!(at_once.as_bytes(), in_steps.as_bytes());
    assert_eq!(parts(&at_once), (3, 3, 4));
    assert_eq!(parts(&at_once), parts(&in_steps));
}

#[test]
fn shrink_takes_every_kind_of_range() {
    let mut buf = Buf::new(ascending(10), ..);
    buf.shrink(1..);
    assert_eq!(buf.as_bytes(), &[1, 2, 3, 4, 5, 6, 7, 8, 9][..]);
    buf.shrink(..8);
    assert_eq!(buf.as_bytes(), &[1, 2, 3, 4, 5, 6, 7, 8][..]);
    buf.shrink(..=6);
    assert_eq!(buf.as_bytes(), &[1, 2, 3, 4, 5, 6, 7][..]);
    buf.shrink(..);
    assert_eq!(buf.as_bytes(), &[1, 2, 3, 4, 5, 6, 7][..]);
    buf.shrink(1..=5);
    assert_eq!(buf.as_bytes(), &[2, 3, 4, 5, 6][..]);
    buf.shrink((std::ops::Bound::Excluded(0), std::ops::Bound::Included(3)));
    assert_eq!(buf.as_bytes(), &[3, 4, 5][..]);
    buf.grow_front(2);
    buf.grow_back(2);
    buf.shrink(3..3);
    assert!(ParseBuffer::is_empty(&buf));
    assert_eq!(parts(&buf), (4, 0, 6));
}

#[test]
fn a_plain_range_forgets_what_it_dropped() {
    let first = [9u8, 9, 1, 2, 3];
    let second = [7u8, 1, 2, 3];
    let mut a: &[u8] = &first;
    let mut b: &[u8] = &second;
    a.shrink_front(2);
    b.shrink_front(1);
    assert_eq!(a, b);
    assert_eq!(a, &[1, 2, 3][..]);
    let equivalent = a.as_buf();
    assert_eq!(equivalent.prefix_len(), 0);
    assert_eq!(equivalent.suffix_len(), 0);
    assert_eq!(equivalent.capacity(), 3);
}

#[test]
fn a_plain_mutable_range_forgets_what_it_dropped() {
    let mut bytes = [0u8, 1, 2, 3, 4, 5];
    let mut buf: &mut [u8] = &mut bytes;
    buf.shrink_back(2);
    buf.shrink_front(1);
    assert_eq!(ParseBuffer::as_bytes(&buf), &[1, 2, 3][..]);
    let equivalent = buf.as_buf_mut();
    assert_eq!(equivalent.capacity(), 3);
    assert_eq!(equivalent.prefix_len(), 0);
}

#[test]
fn undo_parse_brings_back_stripped_padding() {
    // A 14-byte header, a body of 46 bytes of which the last 6 are padding
    // that the inner parse stripped, and a 4-byte footer.
    let mut buf = Buf::new(ascending(64), 14..54);
    assert_eq!(parts(&buf), (14, 40, 10));
    buf.undo_parse(ParseMetadata::from_packet(14, 46, 4));
    assert_eq!(parts(&buf), (0, 64, 0));
    assert_eq!(buf.as_bytes(), &ascending(64)[..]);
}

#[test]
fn undo_parse_without_missing_padding_grows_by_header_and_footer() {
    let mut buf = Buf::new(ascending(20), 5..15);
    buf.undo_parse(ParseMetadata::from_packet(2, 10, 3));
    assert_eq!(parts(&buf), (3, 15, 2));
    assert_eq!(buf.as_bytes(), &ascending(20)[3..18]);
    // A body longer than the packet's own is left as it is.
    let mut longer = Buf::new(ascending(20), 5..15);
    longer.undo_parse(ParseMetadata::from_packet(2, 4, 3));
    assert_eq!(parts(&longer), (3, 15, 2));
}

#[test]
fn undo_parse_of_an_inner_packet_grows_the_front_only() {
    let mut buf = Buf::new(ascending(12), 12..12);
    buf.undo_parse(ParseMetadata::from_inner_packet(8));
    assert_eq!(parts(&buf), (4, 8, 0));
    assert_eq!(buf.as_bytes(), &[4, 5, 6, 7, 8, 9, 10, 11][..]);
}

#[test]
fn growing_with_zeroes_hides_what_was_there() {
    let mut buf = Buf::new(ascending(8), 3..5);
    buf.grow_front_zero(2);
    assert_eq!(ParseBuffer::as_bytes(&buf), &[0, 0, 3, 4][..]);
    assert_eq!(parts(&buf), (1, 4, 3));
    buf.grow_back_zero(1);
    assert_eq!(ParseBuffer::as_bytes(&buf), &[0, 0, 3, 4, 0][..]);
    assert_eq!(parts(&buf), (1, 5, 2));
    buf.reset();
    assert_eq!(ParseBuffer::as_bytes(&buf), &[0, 0, 0, 3, 4, 0, 6, 7][..]);
}

#[test]
fn reset_zero_keeps_the_body_and_zeroes_the_rest() {
    let mut buf = Buf::new(vec![9u8, 9, 1, 2, 3, 9], 2..5);
    buf.reset_zero();
    assert_eq!(parts(&buf), (0, 6, 0));
    assert_eq!(ParseBuffer::as_bytes(&buf), &[0, 0, 1, 2, 3, 0][..]);
}

#[test]
fn writing_to_the_body_leaves_prefix_and_suffix() {
    let mut buf = Buf::new(ascending(6), 2..4);
    {
        let body = buf.as_bytes_mut();
        assert_eq!(body, &mut [2u8, 3][..]);
        body[0] = 20;
        body[1] = 30;
    }
    assert_eq!(parts(&buf), (2, 2, 2));
    buf.reset();
    assert_eq!(ParseBuffer::as_bytes(&buf), &[0, 1, 20, 30, 4, 5][..]);
}

#[test]
fn a_buf_over_borrowed_bytes_writes_through() {
    let mut bytes = ascending(5);
    {
        let mut buf = Buf::new(&mut bytes[..], 1..4);
        buf.grow_back_zero(1);
        buf.shrink_front(1);
        assert_eq!(ParseBuffer::as_bytes(&buf), &[2, 3, 0][..]);
    }
    assert_eq!(bytes, vec![0, 1, 2, 3, 0]);
}

#[test]
fn as_buf_is_the_same_window() {
    let buf = Buf::new(ascending(10), 2..7);
    let same = buf.as_buf();
    assert_eq!(parts(&same), (2, 5, 3));
    assert_eq!(same.as_bytes(), buf.as_bytes());
    let mut owned = Buf::new(ascending(10), 2..7);
    {
        let mut same = owned.as_buf_mut();
        assert_eq!(parts(&same), (2, 5, 3));
        same.grow_front_zero(1);
    }
    owned.grow_front(1);
    assert_eq!(ParseBuffer::as_bytes(&owned), &[0, 2, 3, 4, 5, 6][..]);
}
