use packet::{
    Buf, Buffer, BufferView, BufferViewMut, ParsablePacket, ParseBuffer, ParseBufferMut,
    ParseMetadata,
};

/// A two-byte header, a body, and a one-byte footer.
struct Frame<'a> {
    header: &'a [u8],
    footer: &'a [u8],
    body_len: usize,
}

impl<'a> ParsablePacket<&'a [u8], ()> for Frame<'a> {
    type Error = &'static str;

    fn parse<BV: BufferView<&'a [u8]>>(buffer: &mut BV, _args: ()) -> Result<Self, Self::Error> {
        if buffer.len() < 3 {
            return Err("frame too short");
        }
        let header = buffer.take_front(2).unwrap();
        let footer = buffer.take_back(1).unwrap();
        Ok(Frame { header, footer, body_len: buffer.len() })
    }

    fn layout(_body: vstd::seq::Seq<u8>, _args: ()) -> Option<ParseMetadata> {
        unreachable!("the layout is for specifications, and is never computed")
    }

    fn metadata(&self) -> ParseMetadata {
        self.parse_metadata()
    }

    fn parse_metadata(&self) -> ParseMetadata {
        ParseMetadata::from_packet(self.header.len(), self.body_len, self.footer.len())
    }
}

/// A one-byte header that gives the length of the body. What follows the
/// body is padding.
struct Message<'a> {
    header: &'a [u8],
    body_len: usize,
}

impl<'a> ParsablePacket<&'a [u8], u8> for Message<'a> {
    type Error = String;

    fn parse<BV: BufferView<&'a [u8]>>(buffer: &mut BV, limit: u8) -> Result<Self, String> {
        let announced = match buffer.as_bytes().first() {
            Some(len) => *len,
            None => return Err(String::from("no header")),
        };
        if announced > limit {
            return Err(String::from("body over the limit"));
        }
        let body_len = announced as usize;
        if buffer.len() < 1 + body_len {
            return Err(String::from("body cut short"));
        }
        let header = buffer.take_front(1).unwrap();
        let padding = buffer.len() - body_len;
        buffer.take_back(padding).unwrap();
        Ok(Message { header, body_len })
    }

    fn layout(_body: vstd::seq::Seq<u8>, _args: u8) -> Option<ParseMetadata> {
        unreachable!("the layout is for specifications, and is never computed")
    }

    fn metadata(&self) -> ParseMetadata {
        self.parse_metadata()
    }

    fn parse_metadata(&self) -> ParseMetadata {
        ParseMetadata::from_packet(self.header.len(), self.body_len, 0)
    }
}

/// A packet that encapsulates nothing: all bytes are its own.
struct Payload<'a> {
    bytes: &'a [u8],
}

impl<'a> ParsablePacket<&'a [u8], ()> for Payload<'a> {
    type Error = ();

    fn parse<BV: BufferView<&'a [u8]>>(buffer: &mut BV, _args: ()) -> Result<Self, ()> {
        Ok(Payload { bytes: buffer.take_rest_front() })
    }

    fn layout(_body: vstd::seq::Seq<u8>, _args: ()) -> Option<ParseMetadata> {
        unreachable!("the layout is for specifications, and is never computed")
    }

    fn metadata(&self) -> ParseMetadata {
        self.parse_metadata()
    }

    fn parse_metadata(&self) -> ParseMetadata {
        ParseMetadata::from_inner_packet(self.bytes.len())
    }
}

/// A two-byte header that can be written to.
struct Stamp<'a> {
    header: &'a mut [u8],
    body_len: usize,
}

impl<'a> ParsablePacket<&'a mut [u8], u8> for Stamp<'a> {
    type Error = ();

    fn parse<BV: BufferView<&'a mut [u8]>>(buffer: &mut BV, _mark: u8) -> Result<Self, ()> {
        let header = buffer.take_front(2).ok_or(())?;
        Ok(Stamp { header, body_len: buffer.len() })
    }

    fn parse_mut<BV: BufferViewMut<&'a mut [u8]>>(buffer: &mut BV, mark: u8) -> Result<Self, ()> {
        if buffer.len() < 3 {
            return Err(());
        }
        let header = buffer.take_front(2).unwrap();
        header[0] = mark;
        buffer.take_back_zero(1).unwrap();
        Ok(Stamp { header, body_len: buffer.len() })
    }

    fn layout(_body: vstd::seq::Seq<u8>, _args: u8) -> Option<ParseMetadata> {
        unreachable!("the layout is for specifications, and is never computed")
    }

    fn metadata(&self) -> ParseMetadata {
        self.parse_metadata()
    }

    fn parse_metadata(&self) -> ParseMetadata {
        ParseMetadata::from_packet(2, self.body_len, 0)
    }
}

fn parts<B: Buffer>(buf: &B) -> (usize, usize, usize) {
    (buf.prefix_len(), ParseBuffer::len(buf), buf.suffix_len())
}

const WIRE: [u8; 9] = [0xA0, 0xA1, 3, 10, 11, 12, 0, 0, 0xF0];

#[test]
fn nested_packets_are_parsed_and_restored_in_reverse() {
    let mut buf = Buf::new(WIRE.to_vec(), ..);

    let frame_meta = {
        let frame = buf.parse::<Frame>().unwrap();
        assert_eq!(frame.header, &[0xA0, 0xA1][..]);
        assert_eq!(frame.footer, &[0xF0][..]);
        frame.parse_metadata()
    };
    assert_eq!(frame_meta, ParseMetadata::from_packet(2, 6, 1));
    assert_eq!(parts(&buf), (2, 6, 1));
    assert_eq!(buf.as_bytes(), &[3, 10, 11, 12, 0, 0][..]);

    let message_meta = {
        let message = buf.parse_with::<u8, Message>(8).unwrap();
        assert_eq!(message.header, &[3][..]);
        message.parse_metadata()
    };
    assert_eq!(message_meta, ParseMetadata::from_packet(1, 3, 0));
    assert_eq!(parts(&buf), (3, 3, 3));
    assert_eq!(buf.as_bytes(), &[10, 11, 12][..]);

    let payload_meta = {
        let payload = buf.parse::<Payload>().unwrap();
        assert_eq!(payload.bytes, &[10, 11, 12][..]);
        payload.parse_metadata()
    };
    assert_eq!(payload_meta, ParseMetadata::from_inner_packet(3));
    assert_eq!(parts(&buf), (6, 0, 3));

    buf.undo_parse(payload_meta);
    assert_eq!(parts(&buf), (3, 3, 3));
    assert_eq!(buf.as_bytes(), &[10, 11, 12][..]);
    buf.undo_parse(message_meta);
    assert_eq!(parts(&buf), (2, 4, 3));
    assert_eq!(buf.as_bytes(), &[3, 10, 11, 12][..]);
    buf.undo_parse(frame_meta);
    assert_eq!(parts(&buf), (0, 9, 0));
    assert_eq!(buf.as_bytes(), &WIRE[..]);
}

#[test]
fn a_failed_parse_leaves_the_buffer_as_it_was() {
    let mut buf = Buf::new(WIRE.to_vec(), 2..8);
    assert_eq!(buf.parse_with::<u8, Message>(2).err(), Some(String::from("body over the limit")));
    assert_eq!(parts(&buf), (2, 6, 1));
    assert_eq!(buf.as_bytes(), &[3, 10, 11, 12, 0, 0][..]);

    let mut short = Buf::new(vec![1u8, 2], ..);
    assert_eq!(short.parse::<Frame>().err(), Some("frame too short"));
    assert_eq!(parts(&short), (0, 2, 0));

    let mut empty: &[u8] = &[];
    assert!(empty.parse_with::<u8, Message>(8).is_err());
    assert!(empty.is_empty());
}

#[test]
fn a_plain_range_is_left_with_the_body_of_the_packet() {
    let mut buf: &[u8] = &WIRE;
    {
        let frame = buf.parse::<Frame>().unwrap();
        assert_eq!(frame.header, &[0xA0, 0xA1][..]);
    }
    assert_eq!(buf, &[3, 10, 11, 12, 0, 0][..]);
    assert!(buf.parse_with::<u8, Message>(8).is_ok());
    assert_eq!(buf, &[10, 11, 12][..]);
    assert!(buf.parse::<Payload>().is_ok());
    assert!(buf.is_empty());
}

#[test]
fn a_plain_mutable_range_can_be_parsed_from_either_way() {
    let mut bytes = WIRE;
    let mut buf: &mut [u8] = &mut bytes;
    assert!(ParseBuffer::parse::<Frame>(&mut buf).is_ok());
    assert_eq!(ParseBuffer::as_bytes(&buf), &[3, 10, 11, 12, 0, 0][..]);
    {
        let stamp = buf.parse_with_mut::<u8, Stamp>(0x77).unwrap();
        assert_eq!(stamp.header, &mut [0x77u8, 10][..]);
        stamp.header[1] = 0x78;
    }
    assert_eq!(ParseBuffer::as_bytes(&buf), &[11, 12, 0][..]);
    drop(buf);
    assert_eq!(bytes, [0xA0, 0xA1, 0x77, 0x78, 11, 12, 0, 0, 0xF0]);
}

#[test]
fn a_mutable_parse_writes_to_what_it_takes() {
    let mut buf = Buf::new(vec![1u8, 2, 3, 4, 5, 6, 7], 1..6);
    let meta = {
        let stamp = buf.parse_with_mut::<u8, Stamp>(0x55).unwrap();
        stamp.header[1] = 0x56;
        stamp.parse_metadata()
    };
    assert_eq!(meta, ParseMetadata::from_packet(2, 2, 0));
    assert_eq!(parts(&buf), (3, 2, 2));
    assert_eq!(ParseBuffer::as_bytes(&buf), &[4, 5][..]);
    buf.reset();
    assert_eq!(ParseBuffer::as_bytes(&buf), &[1, 0x55, 0x56, 4, 5, 0, 7][..]);

    let mut short = Buf::new(vec![1u8, 2], ..);
    assert!(short.parse_with_mut::<u8, Stamp>(9).is_err());
    assert_eq!(parts(&short), (0, 2, 0));
    assert_eq!(ParseBuffer::as_bytes(&short), &[1, 2][..]);
}
