use packet::{Buf, Buffer, BufferView, ByteRegion, ParseBuffer};
use std::ops::Range;
use zerocopy::ByteSlice;

fn ascending(n: u8) -> Vec<u8> {
    (0..n).collect::<Vec<u8>>()
}

struct TestCase {
    shrink: Range<usize>,
    front: usize,
    back: usize,
    cap: usize,
    len: usize,
    pfx: usize,
    sfx: usize,
    contents: &'static [u8],
}

fn test_cases() -> Vec<TestCase> {
    vec![
        TestCase {
            shrink: 0..10,
            front: 0,
            back: 0,
            cap: 10,
            len: 10,
            pfx: 0,
            sfx: 0,
            contents: &[0, 1, 2, 3, 4, 5, 6, 7, 8, 9],
        },
        TestCase {
            shrink: 2..10,
            front: 2,
            back: 0,
            cap: 10,
            len: 8,
            pfx: 2,
            sfx: 0,
            contents: &[2, 3, 4, 5, 6, 7, 8, 9],
        },
        TestCase {
            shrink: 0..8,
            front: 0,
            back: 0,
            cap: 10,
            len: 8,
            pfx: 2,
            sfx: 0,
            contents: &[2, 3, 4, 5, 6, 7, 8, 9],
        },
        TestCase {
            shrink: 0..6,
            front: 0,
            back: 2,
            cap: 10,
            len: 6,
            pfx: 2,
            sfx: 2,
            contents: &[2, 3, 4, 5, 6, 7],
        },
        TestCase {
            shrink: 2..4,
            front: 2,
            back: 2,
            cap: 10,
            len: 2,
            pfx: 4,
            sfx: 4,
            contents: &[4, 5],
        },
    ]
}

fn check_parse_buffer<B: ParseBuffer>(
    buf: &B,
    _cap: usize,
    len: usize,
    _pfx: usize,
    _sfx: usize,
    contents: &[u8],
) {
    assert_eq!(ParseBuffer::len(buf), len);
    assert_eq!(ParseBuffer::as_bytes(buf), contents);
}

fn check_buffer<B: Buffer>(
    buf: &B,
    cap: usize,
    len: usize,
    pfx: usize,
    sfx: usize,
    contents: &[u8],
) {
    assert_eq!(ParseBuffer::len(buf), len);
    assert_eq!(buf.capacity(), cap);
    assert_eq!(buf.prefix_len(), pfx);
    assert_eq!(buf.suffix_len(), sfx);
    assert_eq!(ParseBuffer::as_bytes(buf), contents);
}

fn test_parse_buffer_inner<
    B: ParseBuffer,
    N: Fn(u8) -> B,
    A: Fn(&B, usize, usize, usize, usize, &[u8]),
>(
    new_buf: N,
    check: A,
) -> B {
    let mut at_once = new_buf(10);
    let mut separately = new_buf(10);
    for tc in test_cases() {
        at_once.shrink(tc.shrink.clone());
        separately.shrink_front(tc.front);
        separately.shrink_back(tc.back);
        check(&at_once, tc.cap, tc.len, tc.pfx, tc.sfx, tc.contents);
        check(&separately, tc.cap, tc.len, tc.pfx, tc.sfx, tc.contents);
    }
    at_once
}

fn test_parse_buffer<B: ParseBuffer, N: Fn(u8) -> B>(new_buf: N) {
    test_parse_buffer_inner(new_buf, check_parse_buffer::<B>);
}

fn test_buffer<B: Buffer, F: Fn(u8) -> B>(new_buf: F) {
    let mut buf = test_parse_buffer_inner(new_buf, check_buffer::<B>);
    buf.reset();
    check_buffer(&buf, 10, 10, 0, 0, &[0, 1, 2, 3, 4, 5, 6, 7, 8, 9][..]);
    buf.shrink_front(4);
    buf.shrink_back(4);
    check_buffer(&buf, 10, 2, 4, 4, &[4, 5][..]);

    for tc in test_cases().iter().rev() {
        check_buffer(&buf, tc.cap, tc.len, tc.pfx, tc.sfx, tc.contents);
        buf.grow_front(tc.front);
        buf.grow_back(tc.back);
    }
}

fn test_buffer_view<B: ByteRegion + ByteSlice, BV: BufferView<B>>(mut view: BV) {
    assert_eq!(view.len(), 10);
    assert_eq!(view.take_front(1).unwrap().as_slice(), &[0][..]);
    assert_eq!(view.len(), 9);
    assert_eq!(view.take_back(1).unwrap().as_slice(), &[9][..]);
    assert_eq!(view.len(), 8);
    assert_eq!(view.take_obj_front::<[u8; 2]>().unwrap().into_inner().as_ref(), [1, 2]);
    assert_eq!(view.len(), 6);
    assert_eq!(view.take_obj_back::<[u8; 2]>().unwrap().into_inner().as_ref(), [7, 8]);
    assert_eq!(view.len(), 4);
    assert!(view.take_front(5).is_none());
    assert_eq!(view.len(), 4);
    assert!(view.take_back(5).is_none());
    assert_eq!(view.len(), 4);
    assert_eq!(view.into_rest().as_slice(), &[3, 4, 5, 6][..]);
}

fn test_buffer_view_post<B: Buffer>(buffer: &B, preserves_cap: bool) {
    assert_eq!(ParseBuffer::as_bytes(buffer), &[3, 4, 5, 6][..]);
    if preserves_cap {
        assert_eq!(buffer.prefix_len(), 3);
        assert_eq!(buffer.suffix_len(), 3);
    }
}

#[test]
fn test_byte_slice_impl_buffer() {
    test_parse_buffer::<&[u8], _>(|len| Box::leak(Box::new(ascending(len))));
    let buf = ascending(10);
    let buf: &[u8] = buf.as_ref();
    test_buffer_view::<&[u8], _>(buf);
}

#[test]
fn test_byte_slice_mut_impl_buffer() {
    test_parse_buffer::<&mut [u8], _>(|len| Box::<Vec<u8>>::leak(Box::new(ascending(len))));
    let mut buf = ascending(10);
    let buf: &mut [u8] = buf.as_mut();
    test_buffer_view::<&mut [u8], _>(buf);
}

#[test]
fn test_buf_impl_buffer() {
    test_buffer(|len| Buf::new(ascending(len), ..));
    let mut buf = Buf::new(ascending(10), ..);
    test_buffer_view(buf.buffer_view());
    test_buffer_view_post(&buf, true);
}
