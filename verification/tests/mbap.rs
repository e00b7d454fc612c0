use modbus_client::cursor::ReadBuffer;
use modbus_client::error::{Error, FrameError};
use modbus_client::frame::Frame;
use modbus_client::mbap::{
    MBAPFormatter, MBAPHeader, MBAPParser, MAX_MBAP_FRAME_LENGTH, MBAP_HEADER_LENGTH,
};

#[test]
fn correctly_formats_frame() {
    let mut formatter = MBAPFormatter::new();
    let output = formatter.format(7, 42, &[0x03u8, 0x04].as_ref()).unwrap();

    //                   tx id       proto id    length      unit  payload
    assert_eq!(output, &[0x00, 0x07, 0x00, 0x00, 0x00, 0x03, 0x2A, 0x03, 0x04])
}

#[test]
fn can_parse_frame_from_stream() {
    let mut parser = MBAPParser::new();
    let mut stream = ReadBuffer::new();

    stream.extend(&[0x00, 0x07, 0x00]);
    assert!(matches!(parser.parse(&mut stream), Ok(None)));
    assert_eq!(stream.len(), 3);

    stream.extend(&[0x00, 0x00, 0x02, 0x2A, 0x03]);
    assert!(matches!(parser.parse(&mut stream), Ok(None)));
    assert_eq!(stream.len(), 1);

    stream.extend(&[0x04, 0xFF]);
    let frame = parser.parse(&mut stream).unwrap().unwrap();
    assert_eq!(frame.unit_id(), 42);
    assert_eq!(frame.tx_id(), 7);
    assert_eq!(frame.payload(), &[0x03, 0x04]);
    assert_eq!(stream.len(), 1);
}

#[test]
fn constants_describe_the_largest_frame() {
    assert_eq!(MBAP_HEADER_LENGTH, 7);
    assert_eq!(Frame::MAX_ADU_LENGTH, 253);
    assert_eq!(MAX_MBAP_FRAME_LENGTH, 260);
    assert_eq!(MBAPParser::new().max_frame_size(), 260);
}

#[test]
fn formats_big_endian_fields() {
    let mut formatter = MBAPFormatter::new();
    let payload = vec![0xAAu8; 0x80];
    let output = formatter.format(0x1234, 0xFE, &payload.as_slice()).unwrap();
    assert_eq!(&output[..7], &[0x12, 0x34, 0x00, 0x00, 0x00, 0x81, 0xFE]);
    assert_eq!(&output[7..], payload.as_slice());
}

#[test]
fn formats_an_empty_message() {
    let mut formatter = MBAPFormatter::new();
    let empty: &[u8] = &[];
    let output = formatter.format(1, 2, &empty).unwrap();
    assert_eq!(output, &[0x00, 0x01, 0x00, 0x00, 0x00, 0x01, 0x02]);
}

#[test]
fn formats_the_longest_message() {
    let mut formatter = MBAPFormatter::new();
    let payload = vec![0x55u8; 253];
    let output = formatter.format(0xFFFF, 0, &payload.as_slice()).unwrap();
    assert_eq!(output.len(), 260);
    assert_eq!(&output[..7], &[0xFF, 0xFF, 0x00, 0x00, 0x00, 0xFE, 0x00]);
    assert_eq!(&output[7..], payload.as_slice());
}

#[test]
fn refuses_a_message_that_is_too_long() {
    let mut formatter = MBAPFormatter::new();
    let payload = vec![0u8; 254];
    assert_eq!(formatter.format(1, 1, &payload.as_slice()), Err(Error::Serialization));
}

#[test]
fn formatter_is_reusable_and_keeps_the_last_frame() {
    let mut formatter = MBAPFormatter::new();
    let long: &[u8] = &[1, 2, 3, 4, 5];
    let short: &[u8] = &[9];
    formatter.format(1, 1, &long).unwrap();
    let output = formatter.format(2, 3, &short).unwrap().to_vec();
    assert_eq!(output, vec![0x00, 0x02, 0x00, 0x00, 0x00, 0x02, 0x03, 0x09]);
    assert_eq!(formatter.frame(), output.as_slice());
}

#[test]
fn formats_alike_after_an_older_longer_frame() {
    let mut formatter = MBAPFormatter::new();
    formatter.format(0x1234, 0xFF, &[0xAAu8, 0xBB, 0xCC, 0xDD].as_ref()).unwrap();
    let output = formatter.format(7, 42, &[0x03u8, 0x04].as_ref()).unwrap();
    assert_eq!(output, &[0x00, 0x07, 0x00, 0x00, 0x00, 0x03, 0x2A, 0x03, 0x04]);
}

#[test]
fn finish_passes_a_failure_on() {
    let mut formatter = MBAPFormatter::new();
    assert_eq!(formatter.finish(Err(Error::Validation)), Err(Error::Validation));
}

#[test]
fn finish_refuses_more_than_a_frame_carries() {
    let mut formatter = MBAPFormatter::new();
    assert_eq!(formatter.finish(Ok(254)), Err(Error::Serialization));
    assert_eq!(formatter.finish(Ok(0x1_0000)), Err(Error::Serialization));
    assert_eq!(formatter.finish(Ok(u64::MAX)), Err(Error::Serialization));
}

#[test]
fn finish_sets_the_length_field() {
    let mut formatter = MBAPFormatter::new();
    assert_eq!(formatter.finish(Ok(0)).unwrap(), &[0, 0, 0, 0, 0x00, 0x01, 0]);
    let message: &[u8] = &[0x03, 0x04];
    formatter.format(7, 42, &message).unwrap();
    assert_eq!(formatter.finish(Ok(1)).unwrap(), &[0x00, 0x07, 0x00, 0x00, 0x00, 0x02, 0x2A, 0x03]);
    let sealed = formatter.finish(Ok(253)).unwrap();
    assert_eq!(sealed.len(), 260);
    assert_eq!(&sealed[..9], &[0x00, 0x07, 0x00, 0x00, 0x00, 0xFE, 0x2A, 0x03, 0x04]);
}

#[test]
fn parses_a_frame_in_one_piece() {
    let mut parser = MBAPParser::new();
    let mut stream = ReadBuffer::new();
    stream.extend(&[0x12, 0x34, 0x00, 0x00, 0x00, 0x03, 0x11, 0x01, 0x02, 0x03]);
    let frame = parser.parse(&mut stream).unwrap().unwrap();
    assert_eq!(frame.tx_id(), 0x1234);
    assert_eq!(frame.unit_id(), 0x11);
    assert_eq!(frame.payload(), &[0x01, 0x02, 0x03]);
    assert!(stream.is_empty());
    assert!(matches!(parser.parse(&mut stream), Ok(None)));
}

#[test]
fn parses_a_frame_byte_by_byte() {
    let image = [0x12u8, 0x34, 0x00, 0x00, 0x00, 0x03, 0x11, 0x01, 0x02, 0x03];
    let mut parser = MBAPParser::new();
    let mut stream = ReadBuffer::new();
    let mut emitted = 0;
    for (i, byte) in image.iter().enumerate() {
        stream.extend(&[*byte]);
        match parser.parse(&mut stream).unwrap() {
            None => assert!(i + 1 < image.len()),
            Some(frame) => {
                assert_eq!(i + 1, image.len());
                assert_eq!(frame.tx_id(), 0x1234);
                assert_eq!(frame.unit_id(), 0x11);
                assert_eq!(frame.payload(), &[0x01, 0x02, 0x03]);
                emitted += 1;
            }
        }
    }
    assert_eq!(emitted, 1);
    assert!(stream.is_empty());
}

#[test]
fn parses_every_split_in_two_alike() {
    let image = [0x00u8, 0x09, 0x00, 0x00, 0x00, 0x02, 0x07, 0xAB, 0xCD];
    for cut in 0..=image.len() {
        let mut parser = MBAPParser::new();
        let mut stream = ReadBuffer::new();
        stream.extend(&image[..cut]);
        let first = parser.parse(&mut stream).unwrap();
        let frame = if cut < image.len() {
            assert!(first.is_none());
            stream.extend(&image[cut..]);
            parser.parse(&mut stream).unwrap().unwrap()
        } else {
            first.unwrap()
        };
        assert_eq!(frame.tx_id(), 9);
        assert_eq!(frame.unit_id(), 7);
        assert_eq!(frame.payload(), &[0xAB, 0xCD]);
        assert!(stream.is_empty());
    }
}

#[test]
fn parses_two_frames_in_a_row() {
    let mut parser = MBAPParser::new();
    let mut stream = ReadBuffer::new();
    stream.extend(&[0, 1, 0, 0, 0, 1, 5, 0xAA, 0, 2, 0, 0, 0, 2, 6, 0xBB, 0xCC]);
    let first = parser.parse(&mut stream).unwrap().unwrap();
    assert_eq!((first.tx_id(), first.unit_id(), first.payload()), (1, 5, &[0xAAu8][..]));
    let second = parser.parse(&mut stream).unwrap().unwrap();
    assert_eq!((second.tx_id(), second.unit_id(), second.payload()), (2, 6, &[0xBBu8, 0xCC][..]));
    assert!(matches!(parser.parse(&mut stream), Ok(None)));
}

#[test]
fn short_header_consumes_nothing() {
    let mut parser = MBAPParser::new();
    let mut stream = ReadBuffer::new();
    stream.extend(&[0, 1, 0, 0, 0, 1]);
    assert!(matches!(parser.parse(&mut stream), Ok(None)));
    assert_eq!(stream.len(), 6);
    assert_eq!(parser.wanted(), 7);
}

#[test]
fn header_is_kept_while_the_body_is_short() {
    let mut parser = MBAPParser::new();
    let mut stream = ReadBuffer::new();
    stream.extend(&[0, 1, 0, 0, 0, 4, 9, 1, 2]);
    assert!(matches!(parser.parse(&mut stream), Ok(None)));
    assert_eq!(stream.len(), 2);
    assert_eq!(parser.wanted(), 4);
    assert!(matches!(parser.parse(&mut stream), Ok(None)));
    assert_eq!(stream.len(), 2);
}

#[test]
fn zero_length_gives_an_empty_frame() {
    let mut parser = MBAPParser::new();
    let mut stream = ReadBuffer::new();
    stream.extend(&[0, 1, 0, 0, 0, 0, 9]);
    let frame = parser.parse(&mut stream).unwrap().unwrap();
    assert_eq!(frame.payload().len(), 0);
    assert_eq!(frame.unit_id(), 9);
    assert!(stream.is_empty());
}

#[test]
fn nonzero_protocol_id_is_refused() {
    let mut parser = MBAPParser::new();
    let mut stream = ReadBuffer::new();
    stream.extend(&[0, 1, 0x01, 0x02, 0, 1, 9, 0xAA]);
    assert_eq!(
        parser.parse(&mut stream).err(),
        Some(Error::Frame(FrameError::UnknownProtocolId(0x0102)))
    );
    assert_eq!(stream.len(), 1);
    assert_eq!(parser.wanted(), 7);
}

#[test]
fn protocol_id_is_checked_before_the_length() {
    let mut parser = MBAPParser::new();
    let mut stream = ReadBuffer::new();
    stream.extend(&[0, 1, 0, 1, 0xFF, 0xFF, 9]);
    assert_eq!(
        parser.parse(&mut stream).err(),
        Some(Error::Frame(FrameError::UnknownProtocolId(1)))
    );
}

#[test]
fn oversized_length_is_refused_without_a_body() {
    let mut parser = MBAPParser::new();
    let mut stream = ReadBuffer::new();
    stream.extend(&[0, 1, 0, 0, 0x00, 0xFE, 9]);
    assert_eq!(
        parser.parse(&mut stream).err(),
        Some(Error::Frame(FrameError::BadLength(254)))
    );
}

#[test]
fn oversized_length_is_refused_with_a_body() {
    let mut parser = MBAPParser::new();
    let mut stream = ReadBuffer::new();
    stream.extend(&[0, 1, 0, 0, 0x01, 0x00, 9]);
    stream.extend(&vec![0u8; 256]);
    assert_eq!(
        parser.parse(&mut stream).err(),
        Some(Error::Frame(FrameError::BadLength(256)))
    );
}

#[test]
fn greatest_length_is_accepted() {
    let mut parser = MBAPParser::new();
    let mut stream = ReadBuffer::new();
    stream.extend(&[0, 1, 0, 0, 0x00, 0xFD, 9]);
    stream.extend(&vec![7u8; 253]);
    let frame = parser.parse(&mut stream).unwrap().unwrap();
    assert_eq!(frame.payload(), vec![7u8; 253].as_slice());
}

#[test]
fn parse_header_reads_the_fields() {
    let mut stream = ReadBuffer::new();
    stream.extend(&[0xAB, 0xCD, 0, 0, 0x00, 0x10, 0x21, 0x99]);
    assert_eq!(
        MBAPParser::parse_header(&mut stream),
        Ok(MBAPHeader { tx_id: 0xABCD, length: 0x10, unit_id: 0x21 })
    );
    assert_eq!(stream.len(), 1);
}

#[test]
fn parse_header_needs_seven_bytes() {
    let mut stream = ReadBuffer::new();
    stream.extend(&[0, 0, 0, 0, 0, 0]);
    assert_eq!(MBAPParser::parse_header(&mut stream), Err(Error::InsufficientBytes));
    assert_eq!(stream.len(), 6);
}

#[test]
fn parse_body_takes_the_announced_bytes() {
    let header = MBAPHeader { tx_id: 3, length: 2, unit_id: 4 };
    let mut stream = ReadBuffer::new();
    stream.extend(&[1, 2, 3]);
    let frame = MBAPParser::parse_body(&header, &mut stream).unwrap();
    assert_eq!((frame.tx_id(), frame.unit_id(), frame.payload()), (3, 4, &[1u8, 2][..]));
    assert_eq!(stream.len(), 1);
}

#[test]
fn parse_body_fails_without_consuming() {
    let mut stream = ReadBuffer::new();
    stream.extend(&[1, 2, 3]);
    let short = MBAPHeader { tx_id: 3, length: 4, unit_id: 4 };
    assert_eq!(MBAPParser::parse_body(&short, &mut stream).err(), Some(Error::InsufficientBytes));
    let long = MBAPHeader { tx_id: 3, length: 254, unit_id: 4 };
    assert_eq!(
        MBAPParser::parse_body(&long, &mut stream).err(),
        Some(Error::Frame(FrameError::BadLength(254)))
    );
    assert_eq!(stream.len(), 3);
}

#[test]
fn formatted_frame_is_one_byte_short_for_the_parser() {
    let mut formatter = MBAPFormatter::new();
    let message: &[u8] = &[0x03, 0x04];
    let image = formatter.format(7, 42, &message).unwrap().to_vec();

    let mut parser = MBAPParser::new();
    let mut stream = ReadBuffer::new();
    stream.extend(&image);
    assert!(matches!(parser.parse(&mut stream), Ok(None)));
    assert_eq!(parser.wanted(), 3);
    assert_eq!(stream.len(), 2);

    stream.extend(&[0x05]);
    let frame = parser.parse(&mut stream).unwrap().unwrap();
    assert_eq!(frame.unit_id(), 42);
    assert_eq!(frame.tx_id(), 7);
    assert_eq!(frame.payload(), &[0x03, 0x04, 0x05]);
}
