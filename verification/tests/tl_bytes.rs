use i_am_mt::error::{FormatError, IoError, TlError};
use i_am_mt::tl_types::tl_bytes::{read_payload, write_payload, TLBytes};
use i_am_mt::tl_types::TLType;
use i_am_mt::utils::read_bytes::ByteReader;

fn encode(payload: &[u8]) -> Vec<u8> {
    let mut buffer = vec![];
    let written = TLBytes::from_bytes(payload.to_vec())
        .tl_write(&mut buffer)
        .unwrap();
    assert_eq!(written, buffer.len());
    buffer
}

fn decode(bytes: &[u8]) -> Result<(Vec<u8>, usize), TlError> {
    let mut cursor = ByteReader::new(bytes);
    let value = TLBytes::tl_read(&mut cursor)?;
    Ok((value.into_bytes(), cursor.position()))
}

#[test]
fn eight_bytes_take_twelve() {
    let encoded = encode(b"12345678");
    assert_eq!(
        encoded,
        vec![8, b'1', b'2', b'3', b'4', b'5', b'6', b'7', b'8', 0, 0, 0]
    );
    assert_eq!(decode(&encoded), Ok((b"12345678".to_vec(), 12)));
}

#[test]
fn short_payloads_have_a_one_byte_header() {
    assert_eq!(encode(b""), vec![0, 0, 0, 0]);
    assert_eq!(encode(b"a"), vec![1, b'a', 0, 0]);
    assert_eq!(encode(b"ab"), vec![2, b'a', b'b', 0]);
    assert_eq!(encode(b"abc"), vec![3, b'a', b'b', b'c']);
    assert_eq!(encode(b"abcd"), vec![4, b'a', b'b', b'c', b'd', 0, 0, 0]);
    let longest = vec![7u8; 253];
    let encoded = encode(&longest);
    assert_eq!(encoded.len(), 256);
    assert_eq!(encoded[0], 253);
    assert_eq!(&encoded[1..254], &longest[..]);
    assert_eq!(&encoded[254..], &[0, 0]);
}

#[test]
fn long_payloads_have_a_marker_and_three_length_bytes() {
    let payload = vec![9u8; 254];
    let encoded = encode(&payload);
    assert_eq!(encoded.len(), 260);
    assert_eq!(&encoded[..4], &[254, 254, 0, 0]);
    assert_eq!(&encoded[4..258], &payload[..]);
    assert_eq!(&encoded[258..], &[0, 0]);

    let payload = vec![3u8; 0x01_02_03];
    let encoded = encode(&payload);
    assert_eq!(&encoded[..4], &[254, 0x03, 0x02, 0x01]);
    assert_eq!(encoded.len(), 4 + 0x01_02_03 + 1);
    assert_eq!(decode(&encoded), Ok((payload, 4 + 0x01_02_03 + 1)));
}

#[test]
fn every_size_is_a_multiple_of_four() {
    for len in 0..600usize {
        let payload: Vec<u8> = (0..len).map(|i| (i % 251) as u8 + 1).collect();
        let encoded = encode(&payload);
        let header = if len < 254 { 1 } else { 4 };
        let pad = encoded.len() - header - len;
        assert_eq!((header + len + pad) % 4, 0);
        assert!(pad <= 3);
        assert!(encoded[header + len..].iter().all(|b| *b == 0));
        let mut followed = encoded.clone();
        followed.extend_from_slice(&[0xff, 0xff]);
        assert_eq!(decode(&followed), Ok((payload, encoded.len())));
    }
}

#[test]
fn padding_must_be_zero() {
    assert_eq!(
        decode(&[2, b'a', b'b', 1]),
        Err(TlError::Format(FormatError::NonZeroPadding))
    );
    assert_eq!(
        decode(&[1, b'a', 0, 7]),
        Err(TlError::Format(FormatError::NonZeroPadding))
    );
    assert_eq!(
        decode(&[0, 0, 1, 0]),
        Err(TlError::Format(FormatError::NonZeroPadding))
    );
    let mut long = encode(&vec![1u8; 255]);
    assert_eq!(long.len(), 260);
    long[259] = 1;
    assert_eq!(
        decode(&long),
        Err(TlError::Format(FormatError::NonZeroPadding))
    );
}

#[test]
fn a_failed_read_keeps_the_cursor() {
    let bytes = [0xaa, 2, b'a', b'b', 1];
    let mut cursor = ByteReader::new(&bytes);
    assert!(cursor.set_position(1));
    assert_eq!(
        read_payload(&mut cursor).map(|p| p.to_vec()),
        Err(TlError::Format(FormatError::NonZeroPadding))
    );
    assert_eq!(cursor.position(), 1);
}

#[test]
fn truncated_input_is_the_end_of_the_source() {
    let eof = Err(TlError::Io(IoError::UnexpectedEof));
    assert_eq!(decode(&[]), eof);
    assert_eq!(decode(&[3, b'a', b'b']), eof);
    assert_eq!(decode(&[1, b'a', 0]), eof);
    assert_eq!(decode(&[254, 1, 0]), eof);
    assert_eq!(decode(&[254, 4, 0, 0, 1, 2, 3]), eof);
}

#[test]
fn the_marker_255_announces_nothing() {
    assert_eq!(
        decode(&[255, 0, 0, 0, 0, 0, 0, 0]),
        Err(TlError::Format(FormatError::LengthOutOfRange(255)))
    );
}

#[test]
fn the_long_form_may_announce_a_short_payload() {
    assert_eq!(
        decode(&[254, 2, 0, 0, b'h', b'i', 0, 0]),
        Ok((b"hi".to_vec(), 8))
    );
}

#[test]
fn sixteen_mebibytes_are_too_long() {
    let payload = vec![0u8; 0x100_0000];
    let mut buffer = vec![1, 2, 3];
    assert_eq!(
        write_payload(&payload, &mut buffer),
        Err(TlError::Format(FormatError::LengthOutOfRange(0x100_0000)))
    );
    assert_eq!(buffer, vec![1, 2, 3]);
    let payload = vec![5u8; 0xff_ffff];
    assert_eq!(write_payload(&payload, &mut buffer), Ok(0x100_0000 + 4));
    assert_eq!(&buffer[..7], &[1, 2, 3, 254, 0xff, 0xff, 0xff]);
}

#[test]
fn bytes_keep_their_content() {
    let value = TLBytes::from_bytes(vec![1, 2, 3]);
    assert_eq!(value.as_slice(), &[1, 2, 3]);
    assert_eq!(value.clone().into_bytes(), vec![1, 2, 3]);
    assert_eq!(value, TLBytes::from_bytes(vec![1, 2, 3]));
}
