use stopandwait::build_len_prefixed_payload;
use stopandwait::bytes_be::{u16_to_be, u32_from_be, u32_to_be};
use stopandwait::frame::flip_bit_in_u8;
use stopandwait::packets::acknowledgement::{build_ack_datagram, GenericAcknowledgement, ACK, NACK};
use stopandwait::packets::GenericPacket;
use stopandwait::packets::{correct_sequence_byte, flip_sequence_byte};
use stopandwait::parse_len_prefixed_payload;
use stopandwait::tx::is_received_buf_valid;

#[test]
fn error_detection_encoding_is_applied_correctly() {
    let b1: u8 = 10;
    let b2: u8 = 201;

    let frame = stopandwait::frame::Frame::new(&[b1, b2]);

    println!("{:08b} -> {:08b}", b1, flip_bit_in_u8(&b1, 1));
    println!("{:08b} -> {:08b}", b2, flip_bit_in_u8(&b2, 3));

    println!("{}", frame.to_binary_string());
}

#[test]
fn frame_error_detection_encoding_is_applied_correctly() {
    let b1: u8 = 10;
    let b2: u8 = 201;
    let _ = (b1, b2);
}

#[test]
fn envelope_roundtrip_returns_payload() {
    let cases: Vec<Vec<u8>> = vec![
        vec![],
        vec![0x00],
        vec![1, 2, 3, 4, 5, 6, 7, 8],
        (0u8..=255).collect(),
    ];
    for data in cases {
        for size in [8u16, 16, 256, 3840] {
            if data.len() <= size as usize {
                let enveloped = build_len_prefixed_payload(&data, size);
                assert_eq!(enveloped.len(), size as usize + 2);
                assert_eq!(parse_len_prefixed_payload(&enveloped), &data[..]);
            }
        }
    }
}

#[test]
fn envelope_writes_length_prefix_and_padding() {
    let enveloped = build_len_prefixed_payload(b"hello", 8);
    assert_eq!(
        enveloped,
        vec![0x00, 0x05, b'h', b'e', b'l', b'l', b'o', 0x00, 0x00, 0x00]
    );
}

#[test]
fn fresh_frame_is_valid_and_one_bit_flip_invalidates_it() {
    for seq in [0x00u8, 0xFF] {
        let payload = [0x12u8, 0x34, 0x56, 0x78, 0x9A];
        let frame = stopandwait::packets::frame::Frame::new(&payload, seq);
        assert!(frame.is_valid());
        // Flip each single bit of payload and checksum (not the sequence
        // byte): the frame must become invalid every time.
        let protected_bytes = frame.content.len() - 1;
        for byte_index in 0..protected_bytes {
            for bit in 0..8u8 {
                let mut corrupted = frame.clone();
                corrupted.content[byte_index] =
                    flip_bit_in_u8(&corrupted.content[byte_index], bit);
                assert!(!corrupted.is_valid());
            }
        }
    }
}

#[test]
fn old_frame_is_valid_and_one_bit_flip_invalidates_it() {
    let payload = [0xDEu8, 0xAD, 0xBE, 0xEF];
    let frame = stopandwait::frame::Frame::new(&payload);
    assert!(frame.is_valid());
    for byte_index in 0..frame.content.len() {
        for bit in 0..8u8 {
            let mut corrupted = frame.clone();
            corrupted.content[byte_index] = flip_bit_in_u8(&corrupted.content[byte_index], bit);
            assert!(!corrupted.is_valid());
        }
    }
}

#[test]
fn flip_sequence_tolerates_up_to_three_bit_flips() {
    assert_eq!(flip_sequence_byte(0x00), 0xFF);
    assert_eq!(flip_sequence_byte(0xFF), 0x00);
    for b in 0u8..=255 {
        let ones = b.count_ones();
        if ones <= 3 {
            // Within Hamming distance 3 of 0x00: corrects to 0x00, flips to 0xFF.
            assert_eq!(correct_sequence_byte(b), 0x00);
            assert_eq!(flip_sequence_byte(b), 0xFF);
        } else if ones >= 5 {
            assert_eq!(flip_sequence_byte(b), 0x00);
        } else {
            // The 4-4 tie defaults to all ones, so the flip gives all zeros.
            assert_eq!(correct_sequence_byte(b), 0xFF);
            assert_eq!(flip_sequence_byte(b), 0x00);
        }
    }
}

#[test]
fn crc32_of_known_inputs() {
    // The CRC-32 wrapper must compute the IEEE checksum, not echo its input.
    assert_eq!(stopandwait::packets::frame::checksum(b"hello"), 0x3610A686);
    assert_eq!(stopandwait::packets::frame::checksum(b""), 0);
}

#[test]
fn big_endian_roundtrips() {
    for x in [0u32, 1, 0x0102_0304, 0xFFFF_FFFF, 0xDEAD_BEEF] {
        let b = u32_to_be(x);
        assert_eq!(b, x.to_be_bytes().to_vec());
        assert_eq!(u32_from_be(b[0], b[1], b[2], b[3]), x);
    }
    assert_eq!(u16_to_be(0x1234), vec![0x12, 0x34]);
}

#[test]
fn ack_packet_carries_code_and_sequence() {
    let ack = ACK::new(0xFF);
    assert!(ack.is_valid());
    assert_eq!(ack.get_ack_and_sequence_byte(), (0b0000_1100, 0xFF));
    assert_eq!(ack.to_bytes(), [0b0000_1100, 0xFF]);
    let reparsed = ACK::from_bytes(ack.to_bytes());
    assert_eq!(reparsed, ack);
    let mut corrupted = ack;
    corrupted.flip_bit(10);
    assert!(!corrupted.is_valid());
}

#[test]
fn ack_datagram_passes_receive_check_and_one_bit_flip_fails_it() {
    let datagram = build_ack_datagram(0xFF, 0xC0A8_0001);
    assert_eq!(datagram.len(), 10);
    assert_eq!(datagram[0], 0b0000_1100);
    assert_eq!(datagram[1], 0xFF);
    assert_eq!(&datagram[2..6], &[0xC0, 0xA8, 0x00, 0x01]);
    assert!(is_received_buf_valid(&datagram));
    for byte_index in 0..10 {
        for bit in 0..8u8 {
            let mut corrupted = datagram.clone();
            corrupted[byte_index] = flip_bit_in_u8(&corrupted[byte_index], bit);
            assert!(!is_received_buf_valid(&corrupted));
        }
    }
    // The all-zero buffer a timeout leaves behind is not a valid ACK either.
    assert!(!is_received_buf_valid(&[0u8; 10]));
    // With a zero bit-error probability the simulated channel hands the
    // acknowledgment on untouched.
    let mut rng = rand::rng();
    let clean = stopandwait::packets::acknowledgement::make_ack_datagram(
        0xFF,
        0xC0A8_0001,
        0,
        1_000_000_000,
        &mut rng,
    );
    assert_eq!(clean, datagram);
}

#[test]
fn corrupt_bytes_is_identity_at_probability_zero_and_negation_at_one() {
    let mut rng = rand::rng();
    let original = [0x00u8, 0xFF, 0x5A, 0xA5];
    let untouched =
        stopandwait::packets::corrupt_bytes(&original, 0, 1_000_000_000, &mut rng);
    assert_eq!(untouched, original.to_vec());
    let inverted = stopandwait::packets::corrupt_bytes(&original, 1, 1, &mut rng);
    let expected: Vec<u8> = original.iter().map(|b| !b).collect();
    assert_eq!(inverted, expected);
}

#[test]
fn simulated_channel_at_probability_one_complements_a_frame() {
    let mut rng = rand::rng();
    let frame = stopandwait::packets::frame::Frame::new(b"payload", 0xFF);
    let untouched = frame.simulate_errors(0, 1_000_000_000, &mut rng);
    assert_eq!(untouched.content, frame.content);
    let inverted = frame.simulate_errors(1, 1, &mut rng);
    let expected: Vec<u8> = frame.content.iter().map(|b| !b).collect();
    assert_eq!(inverted.content, expected);
}

#[test]
fn simulated_channel_at_probability_one_complements_acknowledgments() {
    let mut rng = rand::rng();
    let ack = ACK::new(0xFF);
    assert_eq!(ack.simulate_errors(0, 1, &mut rng), ack);
    assert_eq!(ack.simulate_errors(1, 1, &mut rng).content, !ack.content);
    let nack = NACK::new(0x00);
    assert_eq!(nack.simulate_errors(1, 1, &mut rng).content, !nack.content);

    // The generic wrappers keep the packet's kind and complement likewise.
    let generic = GenericAcknowledgement::ACK(ack);
    match generic.simulate_errors(1, 1, &mut rng) {
        GenericAcknowledgement::ACK(inner) => assert_eq!(inner.content, !ack.content),
        other => panic!("the channel changed the packet's kind: {:?}", other),
    }
    let frame = stopandwait::packets::frame::Frame::new(b"xyz", 0x00);
    match GenericPacket::Frame(frame.clone()).simulate_errors(1, 1, &mut rng) {
        GenericPacket::Frame(inner) => {
            let expected: Vec<u8> = frame.content.iter().map(|b| !b).collect();
            assert_eq!(inner.content, expected);
        }
        other => panic!("the channel changed the packet's kind: {:?}", other),
    }

    // The one-byte legacy packets corrupt a fresh code byte.
    let old_ack = stopandwait::ack::ACK::new();
    assert_eq!(old_ack.simulate_errors(1, 1, &mut rng).content, !0b0000_1100u8);
    let old_nack = stopandwait::nack::NACK::new();
    assert_eq!(old_nack.simulate_errors(1, 1, &mut rng).content, !0b1111_0011u8);

    // The emitted acknowledgment datagram is corrupted over its whole
    // 10-byte image, checksum included.
    let clean = build_ack_datagram(0xFF, 0xC0A8_0001);
    let inverted = stopandwait::packets::acknowledgement::make_ack_datagram(
        0xFF,
        0xC0A8_0001,
        1,
        1,
        &mut rng,
    );
    let expected: Vec<u8> = clean.iter().map(|b| !b).collect();
    assert_eq!(inverted, expected);
    assert!(!is_received_buf_valid(&inverted));
}

#[test]
fn old_checksum_differs_across_messages() {
    let a = stopandwait::frame::checksum(b"hello");
    let b = stopandwait::frame::checksum(b"hellp");
    assert_ne!(a, b);
    assert_eq!(stopandwait::frame::checksum(b""), 0xFFFF);
}

#[test]
fn generic_packets_validate_by_kind() {
    let frame = stopandwait::packets::frame::Frame::new(b"abc", 0x00);
    assert!(GenericPacket::Frame(frame).is_valid());
    let ack = GenericAcknowledgement::ACK(ACK::new(0x00));
    assert!(GenericPacket::Acknowledgement(ack).is_valid());
    let nack = GenericAcknowledgement::NACK(NACK::new(0x00));
    assert!(GenericPacket::Acknowledgement(nack).is_valid());
    let old_ack = stopandwait::ack::ACK::new();
    assert!(old_ack.is_valid());
    let mut flipped = old_ack;
    flipped.flip_bit(2);
    assert!(!flipped.is_valid());
    let old_nack = stopandwait::nack::NACK::new();
    assert!(old_nack.is_valid());
}
