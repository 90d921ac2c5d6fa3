use stopandwait::tx::{prepare_message, TxSession};

const TX_IP: u32 = 0x0A00_0001;

fn payload_of(frame: &stopandwait::packets::frame::Frame) -> Vec<u8> {
    frame.get_payload_and_checksum_and_sequence_byte().0
}

fn sequence_of(frame: &stopandwait::packets::frame::Frame) -> u8 {
    frame.get_payload_and_checksum_and_sequence_byte().2
}

#[test]
fn queue_sequence_bytes_alternate_from_zero() {
    // Frames at even queue positions carry 0x00, odd positions carry 0xFF,
    // whatever the file length does to the number of data frames.
    for file_len in [0usize, 1, 8, 9, 16, 100] {
        let file: Vec<u8> = (0..file_len).map(|i| i as u8).collect();
        let frames = prepare_message(&file, b"name.bin", 8, TX_IP);
        for (i, frame) in frames.iter().enumerate() {
            let expected = if i % 2 == 0 { 0x00 } else { 0xFF };
            assert_eq!(sequence_of(frame), expected);
            assert!(frame.is_valid());
        }
    }
}

#[test]
fn queue_holds_handshake_data_and_trailer_in_order() {
    let file = b"hello";
    let frames = prepare_message(file, b"greet.txt", 8, TX_IP);
    // SOT, parameters, SOF, one data frame, EOF, checksum, filename, EOT.
    assert_eq!(frames.len(), 8);

    let sot = payload_of(&frames[0]);
    assert_eq!(&sot[..7], b"__SOT__");
    assert_eq!(&sot[7..], &[0x0A, 0x00, 0x00, 0x01]);

    let params = payload_of(&frames[1]);
    assert_eq!(params, vec![0x00, 0x08]);

    assert_eq!(payload_of(&frames[2]), b"__SOF__".to_vec());

    // Exactly one data frame carrying the documented envelope.
    assert_eq!(
        payload_of(&frames[3]),
        vec![0x00, 0x05, b'h', b'e', b'l', b'l', b'o', 0x00, 0x00, 0x00]
    );

    let eof = stopandwait::parse_len_prefixed_payload(&payload_of(&frames[4])).to_vec();
    assert_eq!(eof, b"__EOF__".to_vec());

    let checksum_bytes =
        stopandwait::parse_len_prefixed_payload(&payload_of(&frames[5])).to_vec();
    assert_eq!(checksum_bytes, 0x3610A686u32.to_be_bytes().to_vec());

    let name = stopandwait::parse_len_prefixed_payload(&payload_of(&frames[6])).to_vec();
    assert_eq!(name, b"greet.txt".to_vec());

    let eot = stopandwait::parse_len_prefixed_payload(&payload_of(&frames[7])).to_vec();
    assert_eq!(eot, b"__EOT__".to_vec());
}

#[test]
fn oversize_file_splits_into_full_then_small_frame() {
    // D + 1 bytes at D = 16: a full data frame, then one byte and padding.
    let file = vec![0xAAu8; 17];
    let frames = prepare_message(&file, b"a.bin", 16, TX_IP);
    assert_eq!(frames.len(), 9);

    let first = payload_of(&frames[3]);
    assert_eq!(first.len(), 18);
    assert_eq!(&first[..2], &[0x00, 0x10]);
    assert!(first[2..].iter().all(|&b| b == 0xAA));

    let second = payload_of(&frames[4]);
    assert_eq!(second.len(), 18);
    assert_eq!(&second[..2], &[0x00, 0x01]);
    assert_eq!(second[2], 0xAA);
    assert!(second[3..].iter().all(|&b| b == 0x00));

    for (i, frame) in frames.iter().enumerate() {
        let expected = if i % 2 == 0 { 0x00 } else { 0xFF };
        assert_eq!(sequence_of(frame), expected);
    }
}

#[test]
fn empty_file_queue_has_no_data_frames() {
    let frames = prepare_message(b"", b"empty.bin", 8, TX_IP);
    assert_eq!(frames.len(), 7);
    let eof = stopandwait::parse_len_prefixed_payload(&payload_of(&frames[3])).to_vec();
    assert_eq!(eof, b"__EOF__".to_vec());
    // CRC-32 of the empty file is zero.
    let checksum_bytes =
        stopandwait::parse_len_prefixed_payload(&payload_of(&frames[4])).to_vec();
    assert_eq!(checksum_bytes, vec![0, 0, 0, 0]);
}

#[test]
fn session_starts_unconnected_at_queue_head() {
    let tx = TxSession::new(b"hi", b"n", 8, TX_IP);
    assert!(!tx.is_done());
    assert!(!tx.connected);
    assert_eq!(tx.cursor, 0);
    assert_eq!(tx.frames.len(), 8);
    let head = tx.current_frame();
    assert_eq!(&payload_of(head)[..7], b"__SOT__");
}
