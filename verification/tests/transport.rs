use i_am_mt::error::{FormatError, IoError, TlError};
use i_am_mt::transport::tcp_client::{
    recv_package_abridged, recv_package_intermediate, send_package_abridged,
    send_package_intermediate, TransporterVersion,
};
use i_am_mt::utils::read_bytes::ByteReader;

#[test]
fn each_framing_has_its_handshake() {
    assert_eq!(TransporterVersion::Abridged.handshake(), vec![0xef]);
    assert_eq!(
        TransporterVersion::Intermediate.handshake(),
        vec![0xee, 0xee, 0xee, 0xee]
    );
}

#[test]
fn abridged_frames_count_units_of_four_bytes() {
    let mut sink = vec![];
    assert_eq!(send_package_abridged(&[1, 2, 3, 4, 5, 6, 7, 8], &mut sink), Ok(()));
    assert_eq!(sink, vec![2, 1, 2, 3, 4, 5, 6, 7, 8]);
    let mut sink = vec![];
    assert_eq!(send_package_abridged(&[], &mut sink), Ok(()));
    assert_eq!(sink, vec![0]);
    let payload = vec![7u8; 126 * 4];
    let mut sink = vec![];
    assert_eq!(send_package_abridged(&payload, &mut sink), Ok(()));
    assert_eq!(sink[0], 126);
    assert_eq!(sink.len(), 1 + 126 * 4);
}

#[test]
fn long_abridged_frames_have_a_marker_and_three_bytes() {
    let payload = vec![7u8; 127 * 4];
    let mut sink = vec![];
    assert_eq!(send_package_abridged(&payload, &mut sink), Ok(()));
    assert_eq!(&sink[..4], &[127, 127, 0, 0]);
    assert_eq!(&sink[4..], &payload[..]);
    let payload = vec![1u8; 0x0102 * 4];
    let mut sink = vec![9];
    assert_eq!(send_package_abridged(&payload, &mut sink), Ok(()));
    assert_eq!(&sink[..5], &[9, 127, 0x02, 0x01, 0]);
    assert_eq!(sink.len(), 5 + 0x0102 * 4);
}

#[test]
fn abridged_frames_take_whole_units_only() {
    let mut sink = vec![5];
    for len in [1usize, 2, 3, 5, 7] {
        assert_eq!(
            send_package_abridged(&vec![0; len], &mut sink),
            Err(TlError::Format(FormatError::LengthOutOfRange(len)))
        );
        assert_eq!(sink, vec![5]);
    }
}

#[test]
fn intermediate_frames_count_bytes() {
    let mut sink = vec![];
    assert_eq!(send_package_intermediate(&[1, 2, 3], &mut sink), Ok(()));
    assert_eq!(sink, vec![3, 0, 0, 0, 1, 2, 3]);
    let mut sink = vec![];
    assert_eq!(send_package_intermediate(&vec![4u8; 0x0201], &mut sink), Ok(()));
    assert_eq!(&sink[..4], &[0x01, 0x02, 0, 0]);
    assert_eq!(sink.len(), 4 + 0x0201);
}

#[test]
fn frames_are_received_as_they_were_sent() {
    for version in [TransporterVersion::Abridged, TransporterVersion::Intermediate] {
        for units in [0usize, 1, 2, 126, 127, 128, 1000] {
            let payload: Vec<u8> = (0..units * 4).map(|i| (i % 253) as u8).collect();
            let mut wire = vec![];
            assert_eq!(version.send_package(&payload, &mut wire), Ok(()));
            let frame_len = wire.len();
            wire.extend_from_slice(&[0xaa, 0xbb]);
            let mut source = ByteReader::new(&wire);
            assert_eq!(version.recv_package(&mut source), Ok(payload));
            assert_eq!(source.position(), frame_len);
        }
    }
}

#[test]
fn a_frame_that_is_not_all_there_leaves_the_source_alone() {
    let eof = Err(TlError::Io(IoError::UnexpectedEof));
    for bytes in [vec![], vec![2, 1, 2, 3, 4, 5, 6, 7], vec![127, 1, 0], vec![127, 1, 0, 0, 1, 2, 3]] {
        let mut source = ByteReader::new(&bytes);
        assert_eq!(recv_package_abridged(&mut source), eof);
        assert_eq!(source.position(), 0);
    }
    for bytes in [vec![], vec![1, 0, 0], vec![2, 0, 0, 0, 9], vec![0xff, 0xff, 0xff, 0xff, 1]] {
        let mut source = ByteReader::new(&bytes);
        assert_eq!(recv_package_intermediate(&mut source), eof);
        assert_eq!(source.position(), 0);
    }
}

#[test]
fn received_frames_follow_one_another() {
    let wire = [1, 1, 2, 3, 4, 0, 127, 1, 0, 0, 5, 6, 7, 8, 200, 1];
    let mut source = ByteReader::new(&wire);
    assert_eq!(recv_package_abridged(&mut source), Ok(vec![1, 2, 3, 4]));
    assert_eq!(recv_package_abridged(&mut source), Ok(vec![]));
    assert_eq!(recv_package_abridged(&mut source), Ok(vec![5, 6, 7, 8]));
    assert_eq!(
        recv_package_abridged(&mut source),
        Err(TlError::Io(IoError::UnexpectedEof))
    );
    assert_eq!(source.position(), 14);

    let wire = [2, 0, 0, 0, 8, 9, 0, 0, 0, 0];
    let mut source = ByteReader::new(&wire);
    assert_eq!(recv_package_intermediate(&mut source), Ok(vec![8, 9]));
    assert_eq!(recv_package_intermediate(&mut source), Ok(vec![]));
    assert_eq!(source.remaining_len(), 0);
}

#[test]
fn framings_compare_and_copy() {
    let version = TransporterVersion::Abridged;
    let copy = version;
    assert_eq!(version, copy);
    assert_ne!(version, TransporterVersion::Intermediate);
}
