use i_am_mt::error::{FormatError, IoError, TlError};
use i_am_mt::tl_types::tl_bytes::TLBytes;
use i_am_mt::tl_types::TLType;
use i_am_mt::utils::read_bytes::ByteReader;

#[test]
fn test_read_tl_vector_int() {
    let buffer = [
        0x15, 0xc4, 0xb5, 0x1c, 0x03, 0x00, 0x00, 0x00, 0x01, 0x00, 0x00, 0x00, 0x02, 0x00, 0x00,
        0x00, 0x03, 0x00, 0x00, 0x00,
    ];
    let mut cursor = ByteReader::new(&buffer);
    assert_eq!(vec![1, 2, 3], Vec::<i32>::tl_read(&mut cursor).unwrap())
}

#[test]
fn test_write_tl_vector_int() {
    let data = vec![1i32, 2, 3];
    let mut buffer = vec![];
    assert_eq!(20, data.tl_write(&mut buffer).unwrap());
    assert_eq!(
        buffer,
        vec![
            0x15, 0xc4, 0xb5, 0x1c, 0x03, 0x00, 0x00, 0x00, 0x01, 0x00, 0x00, 0x00, 0x02, 0x00,
            0x00, 0x00, 0x03, 0x00, 0x00, 0x00,
        ]
    )
}

#[test]
fn an_empty_vector_is_tag_and_count() {
    let mut buffer = vec![];
    assert_eq!(Vec::<i64>::new().tl_write(&mut buffer), Ok(8));
    assert_eq!(buffer, vec![0x15, 0xc4, 0xb5, 0x1c, 0, 0, 0, 0]);
    let mut cursor = ByteReader::new(&buffer);
    assert_eq!(Vec::<i64>::tl_read(&mut cursor), Ok(vec![]));
    assert_eq!(cursor.position(), 8);
}

#[test]
fn vectors_start_with_tag_and_count() {
    for count in [0usize, 1, 2, 7, 300] {
        let data: Vec<u32> = (0..count as u32).collect();
        let mut buffer = vec![];
        assert_eq!(data.tl_write(&mut buffer), Ok(8 + 4 * count));
        assert_eq!(&buffer[..4], &0x1cb5c415u32.to_le_bytes());
        assert_eq!(&buffer[4..8], &(count as i32).to_le_bytes());
        let mut cursor = ByteReader::new(&buffer);
        assert_eq!(Vec::<u32>::tl_read(&mut cursor), Ok(data));
    }
}

#[test]
fn a_wrong_tag_is_refused() {
    let buffer = [0x16, 0xc4, 0xb5, 0x1c, 0, 0, 0, 0];
    let mut cursor = ByteReader::new(&buffer);
    assert_eq!(
        Vec::<i32>::tl_read(&mut cursor),
        Err(TlError::Format(FormatError::VectorTag(0x1cb5c416)))
    );
    assert_eq!(cursor.position(), 0);
}

#[test]
fn a_negative_count_is_refused() {
    let buffer = [0x15, 0xc4, 0xb5, 0x1c, 0xff, 0xff, 0xff, 0xff, 1, 0, 0, 0];
    let mut cursor = ByteReader::new(&buffer);
    assert_eq!(
        Vec::<i32>::tl_read(&mut cursor),
        Err(TlError::Format(FormatError::NegativeCount(-1)))
    );
    assert_eq!(cursor.position(), 0);
}

#[test]
fn a_count_beyond_the_data_is_refused() {
    let buffer = [0x15, 0xc4, 0xb5, 0x1c, 3, 0, 0, 0, 1, 0, 0, 0, 2, 0, 0, 0];
    let mut cursor = ByteReader::new(&buffer);
    assert_eq!(
        Vec::<i32>::tl_read(&mut cursor),
        Err(TlError::Io(IoError::UnexpectedEof))
    );
    assert_eq!(cursor.position(), 0);
    let buffer = [0x15, 0xc4, 0xb5, 0x1c, 0xff, 0xff, 0xff, 0x7f];
    let mut cursor = ByteReader::new(&buffer);
    assert_eq!(
        Vec::<i32>::tl_read(&mut cursor),
        Err(TlError::Io(IoError::UnexpectedEof))
    );
    let mut cursor = ByteReader::new(&buffer[..6]);
    assert_eq!(
        Vec::<i32>::tl_read(&mut cursor),
        Err(TlError::Io(IoError::UnexpectedEof))
    );
}

#[test]
fn an_element_that_fails_fails_the_vector() {
    let buffer = [
        0x15, 0xc4, 0xb5, 0x1c, 2, 0, 0, 0, 0xb5, 0x75, 0x72, 0x99, 1, 2, 3, 4,
    ];
    let mut cursor = ByteReader::new(&buffer);
    assert_eq!(
        Vec::<bool>::tl_read(&mut cursor),
        Err(TlError::Format(FormatError::BoolSentinel(0x04030201)))
    );
    assert_eq!(cursor.position(), 0);
}

#[test]
fn a_failed_write_leaves_the_sink_as_it_was() {
    let data = vec![
        TLBytes::from_bytes(vec![1, 2, 3]),
        TLBytes::from_bytes(vec![0; 0x100_0000]),
    ];
    let mut buffer = vec![0xab, 0xcd];
    assert_eq!(
        data.tl_write(&mut buffer),
        Err(TlError::Format(FormatError::LengthOutOfRange(0x100_0000)))
    );
    assert_eq!(buffer, vec![0xab, 0xcd]);
}

#[test]
fn vectors_nest() {
    let data = vec![vec!["a".to_string(), "bcd".to_string()], vec![], vec!["".to_string()]];
    let mut buffer = vec![];
    let written = data.tl_write(&mut buffer).unwrap();
    assert_eq!(written, buffer.len());
    assert_eq!(written, 8 + (8 + 4 + 4) + 8 + (8 + 4));
    let mut cursor = ByteReader::new(&buffer);
    assert_eq!(Vec::<Vec<String>>::tl_read(&mut cursor), Ok(data));
    assert_eq!(cursor.position(), written);
}
