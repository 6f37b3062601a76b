use i_am_mt::error::{FormatError, IoError, TlError};
use i_am_mt::tl_types::TLType;
use i_am_mt::utils::read_bytes::ByteReader;

#[test]
fn strings_are_utf8_byte_strings() {
    let mut buffer = vec![];
    assert_eq!("hello".to_string().tl_write(&mut buffer), Ok(8));
    assert_eq!(buffer, vec![5, b'h', b'e', b'l', b'l', b'o', 0, 0]);
    let mut cursor = ByteReader::new(&buffer);
    assert_eq!(String::tl_read(&mut cursor), Ok("hello".to_string()));
    assert_eq!(cursor.position(), 8);
}

#[test]
fn strings_round_trip() {
    let long = "x".repeat(300);
    for text in ["", "a", "naïve", "日本語", "🦀 crab", long.as_str()] {
        let mut buffer = vec![];
        let written = text.to_string().tl_write(&mut buffer).unwrap();
        assert_eq!(written, buffer.len());
        assert_eq!(written % 4, 0);
        buffer.push(0x80);
        let mut cursor = ByteReader::new(&buffer);
        assert_eq!(String::tl_read(&mut cursor), Ok(text.to_string()));
        assert_eq!(cursor.position(), written);
    }
}

#[test]
fn the_length_counts_bytes_not_characters() {
    let mut buffer = vec![];
    assert_eq!("é".to_string().tl_write(&mut buffer), Ok(4));
    assert_eq!(buffer, vec![2, 0xc3, 0xa9, 0]);
}

#[test]
fn invalid_utf8_is_refused() {
    for bytes in [
        vec![1u8, 0xff, 0, 0],
        vec![2, 0xc3, 0x28, 0],
        vec![3, 0xed, 0xa0, 0x80],
        vec![2, 0xc0, 0x80, 0],
    ] {
        let mut cursor = ByteReader::new(&bytes);
        assert_eq!(
            String::tl_read(&mut cursor),
            Err(TlError::Format(FormatError::InvalidUtf8))
        );
        assert_eq!(cursor.position(), 0);
    }
}

#[test]
fn string_errors_come_from_the_byte_string() {
    let mut cursor = ByteReader::new(&[2, b'a', b'b', 9]);
    assert_eq!(
        String::tl_read(&mut cursor),
        Err(TlError::Format(FormatError::NonZeroPadding))
    );
    let mut cursor = ByteReader::new(&[5, b'a']);
    assert_eq!(
        String::tl_read(&mut cursor),
        Err(TlError::Io(IoError::UnexpectedEof))
    );
}
