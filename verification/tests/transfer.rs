use rand::RngExt;
use stopandwait::frame::flip_bit_in_u8;
use stopandwait::packets::acknowledgement::build_ack_datagram;
use stopandwait::rx::{RxAction, RxSession, RxState};
use stopandwait::tx::{TxAction, TxSession};

const TX_IP: u32 = 0x0A00_0001;
const RX_IP: u32 = 0x0A00_0002;

/// Drives a whole session between the two machines over a perfect channel:
/// every frame arrives intact, every acknowledgment comes back intact.
fn run_clean_session(file: &[u8], name: &[u8], data_size: u16) -> RxSession {
    let mut tx = TxSession::new(file, name, data_size, TX_IP);
    let mut rx = RxSession::new();
    let mut steps = 0usize;
    while !tx.is_done() {
        steps += 1;
        assert!(steps < 100_000, "session does not finish");
        let wire = tx.current_frame().content.clone();
        // The consumer sees the same alternation the producer promised:
        // even queue positions carry 0x00, odd ones 0xFF.
        assert_eq!(
            wire[wire.len() - 1],
            if tx.cursor % 2 == 0 { 0x00 } else { 0xFF }
        );
        let action = rx.handle_datagram(&wire);
        let ack_seq = match action {
            RxAction::Ack(s) => s,
            RxAction::ConnectAndAck(ip, s) => {
                assert_eq!(ip, TX_IP);
                s
            }
            RxAction::Ignore => panic!("receiver ignored an intact frame"),
        };
        let ack = build_ack_datagram(ack_seq, RX_IP);
        let tx_action = tx.handle_ack_buf(&ack);
        assert_eq!(tx_action, TxAction::Advance);
        assert!(tx.connected);
        assert_eq!(tx.peer_ip, RX_IP);
    }
    assert_eq!(rx.state, RxState::AfterEot);
    rx.handle_timeout();
    assert_eq!(rx.state, RxState::Done);
    rx
}

#[test]
fn clean_transfer_delivers_file_name_and_checksum() {
    let file: Vec<u8> = (0..1000u32).map(|i| (i * 7) as u8).collect();
    for data_size in [8u16, 16, 64, 3840] {
        let rx = run_clean_session(&file, b"payload.dat", data_size);
        assert_eq!(rx.received_data, file);
        assert_eq!(rx.received_filename, b"payload.dat".to_vec());
        assert_eq!(
            rx.received_checksum,
            stopandwait::packets::frame::checksum(&file)
        );
        assert!(rx.is_checksum_ok());
        assert_eq!(rx.data_size as usize, data_size as usize);
        assert_eq!(rx.tx_ip, TX_IP);
    }
}

#[test]
fn empty_file_transfer_writes_zero_bytes_and_zero_checksum() {
    let rx = run_clean_session(b"", b"empty.txt", 8);
    assert!(rx.received_data.is_empty());
    assert_eq!(rx.received_checksum, 0x0000_0000);
    assert!(rx.is_checksum_ok());
    assert_eq!(rx.received_filename, b"empty.txt".to_vec());
}

#[test]
fn five_byte_file_fits_one_data_frame() {
    let rx = run_clean_session(b"hello", b"greet.txt", 8);
    assert_eq!(rx.received_data, b"hello".to_vec());
    assert_eq!(rx.received_checksum, 0x3610A686);
    assert!(rx.is_checksum_ok());
    assert_eq!(rx.received_filename, b"greet.txt".to_vec());
}

#[test]
fn seventeen_bytes_at_sixteen_arrive_in_two_frames() {
    let file = vec![0xAAu8; 17];
    let rx = run_clean_session(&file, b"a.bin", 16);
    assert_eq!(rx.received_data, file);
    assert!(rx.is_checksum_ok());
}

#[test]
fn random_file_transfer_recovers_filename_and_content() {
    let mut rng = rand::rng();
    let file: Vec<u8> = (0..32).map(|_| rng.random::<u8>()).collect();
    let rx = run_clean_session(&file, b"random.bin", 8);
    assert_eq!(rx.received_data, file);
    assert_eq!(rx.received_filename, b"random.bin".to_vec());
    assert!(rx.is_checksum_ok());
}

#[test]
fn corrupted_ack_forces_one_retransmission_only() {
    let file: Vec<u8> = (0..40u8).collect();
    let mut tx = TxSession::new(&file, b"f.bin", 8, TX_IP);
    let mut rx = RxSession::new();
    let mut frame_attempts = 0usize;
    let mut retransmissions = 0usize;
    while !tx.is_done() {
        frame_attempts += 1;
        assert!(frame_attempts < 1000);
        let queue_index = tx.cursor;
        let wire = tx.current_frame().content.clone();
        let action = rx.handle_datagram(&wire);
        let ack_seq = match action {
            RxAction::Ack(s) => s,
            RxAction::ConnectAndAck(_, s) => s,
            RxAction::Ignore => panic!("receiver ignored an intact frame"),
        };
        let mut ack = build_ack_datagram(ack_seq, RX_IP);
        // Corrupt the first acknowledgment of frame #5 (queue index 4) once.
        if queue_index == 4 && retransmissions == 0 {
            ack[9] = flip_bit_in_u8(&ack[9], 0);
            let tx_action = tx.handle_ack_buf(&ack);
            assert_eq!(tx_action, TxAction::Retransmit);
            assert_eq!(tx.cursor, queue_index);
            retransmissions += 1;
            // The retransmitted frame is a duplicate for the receiver: it is
            // re-acknowledged and nothing is appended twice.
            let duplicate_action = rx.handle_datagram(&wire);
            match duplicate_action {
                RxAction::Ack(_) => {}
                other => panic!("expected a re-acknowledgment, got {:?}", other),
            }
            let clean_ack = match duplicate_action {
                RxAction::Ack(s) => build_ack_datagram(s, RX_IP),
                _ => unreachable!(),
            };
            assert_eq!(tx.handle_ack_buf(&clean_ack), TxAction::Advance);
        } else {
            assert_eq!(tx.handle_ack_buf(&ack), TxAction::Advance);
        }
    }
    assert_eq!(retransmissions, 1);
    rx.handle_timeout();
    assert_eq!(rx.state, RxState::Done);
    assert_eq!(rx.received_data, file);
    assert!(rx.is_checksum_ok());
}

#[test]
fn dropped_eot_ack_is_absorbed_by_the_quiet_period() {
    let mut tx = TxSession::new(b"bye", b"b.txt", 8, TX_IP);
    let mut rx = RxSession::new();
    let mut eot_ack_dropped = false;
    while !tx.is_done() {
        let wire = tx.current_frame().content.clone();
        let last_frame = tx.cursor + 1 == tx.frames.len();
        let action = rx.handle_datagram(&wire);
        let ack_seq = match action {
            RxAction::Ack(s) => s,
            RxAction::ConnectAndAck(_, s) => s,
            RxAction::Ignore => panic!("receiver ignored an intact frame"),
        };
        if last_frame && !eot_ack_dropped {
            eot_ack_dropped = true;
            // Drop the EOT's acknowledgment entirely: the transmitter times
            // out (an all-zero buffer) and retransmits the EOT.
            let timeout_buf = [0u8; 10];
            assert_eq!(tx.handle_ack_buf(&timeout_buf), TxAction::Retransmit);
            assert_eq!(rx.state, RxState::AfterEot);
            // The receiver absorbs the retransmitted EOT and re-acknowledges.
            let retransmission = tx.current_frame().content.clone();
            match rx.handle_datagram(&retransmission) {
                RxAction::Ack(s) => {
                    let ack = build_ack_datagram(s, RX_IP);
                    assert_eq!(tx.handle_ack_buf(&ack), TxAction::Advance);
                }
                other => panic!("expected a re-acknowledgment, got {:?}", other),
            }
            assert_eq!(rx.state, RxState::AfterEot);
        } else {
            let ack = build_ack_datagram(ack_seq, RX_IP);
            assert_eq!(tx.handle_ack_buf(&ack), TxAction::Advance);
        }
    }
    rx.handle_timeout();
    assert_eq!(rx.state, RxState::Done);
    assert_eq!(rx.received_data, b"bye".to_vec());
    assert!(rx.is_checksum_ok());
}

#[test]
fn lossy_channel_recovers_through_retransmission() {
    // A deterministic lossy channel: every third frame arrives corrupted
    // first, and every acknowledged frame is delivered once more as a
    // duplicate. The output must still be exact.
    let file: Vec<u8> = (0..200u32).map(|i| (i * 13 + 5) as u8).collect();
    let mut tx = TxSession::new(&file, b"noisy.bin", 16, TX_IP);
    let mut rx = RxSession::new();
    let mut attempt = 0usize;
    while !tx.is_done() {
        attempt += 1;
        assert!(attempt < 10_000);
        let wire = tx.current_frame().content.clone();
        if attempt % 3 == 0 {
            // Corrupt one payload bit: the receiver must stay silent and the
            // transmitter must time out and retransmit.
            let mut corrupted = wire.clone();
            corrupted[0] = flip_bit_in_u8(&corrupted[0], 5);
            assert_eq!(rx.handle_datagram(&corrupted), RxAction::Ignore);
            let timeout_buf = [0u8; 10];
            assert_eq!(tx.handle_ack_buf(&timeout_buf), TxAction::Retransmit);
            continue;
        }
        let in_data_phase = tx.cursor >= 3;
        let action = rx.handle_datagram(&wire);
        let ack_seq = match action {
            RxAction::Ack(s) => s,
            RxAction::ConnectAndAck(_, s) => s,
            RxAction::Ignore => panic!("receiver ignored an intact frame"),
        };
        if in_data_phase {
            // Deliver the same frame once more: a duplicate of a data-phase
            // frame is re-acknowledged and changes nothing.
            let data_before = rx.received_data.clone();
            match rx.handle_datagram(&wire) {
                RxAction::Ack(_) => {}
                other => panic!("duplicate drew no re-acknowledgment: {:?}", other),
            }
            assert_eq!(rx.received_data, data_before);
        }
        let ack = build_ack_datagram(ack_seq, RX_IP);
        assert_eq!(tx.handle_ack_buf(&ack), TxAction::Advance);
    }
    rx.handle_timeout();
    assert_eq!(rx.state, RxState::Done);
    assert_eq!(rx.received_data, file);
    assert!(rx.is_checksum_ok());
}

#[test]
fn wrong_ack_code_with_valid_crc_makes_tx_sleep_and_retry() {
    let mut tx = TxSession::new(b"abc", b"a.txt", 8, TX_IP);
    // A buffer whose CRC-32 matches but whose code byte is not the positive
    // ack-code: the transmitter pins the peer but retries after a timeout.
    let mut buf = vec![0xF0u8, 0x00];
    buf.extend_from_slice(&RX_IP.to_be_bytes());
    let crc = stopandwait::packets::frame::checksum(&buf);
    buf.extend_from_slice(&crc.to_be_bytes());
    assert_eq!(tx.handle_ack_buf(&buf), TxAction::SleepRetransmit);
    assert_eq!(tx.cursor, 0);
    assert!(tx.connected);
    assert_eq!(tx.peer_ip, RX_IP);
}

#[test]
fn receiver_announces_the_expected_datagram_size_per_state() {
    let mut tx = TxSession::new(b"hello", b"h.txt", 8, TX_IP);
    let mut rx = RxSession::new();
    assert_eq!(rx.expected_datagram_len(), 16); // SOT: 11-byte payload + 5
    rx.handle_datagram(&tx.current_frame().content);
    assert_eq!(rx.expected_datagram_len(), 7); // parameters: 2-byte payload + 5
    tx.cursor = 1;
    rx.handle_datagram(&tx.current_frame().content);
    assert_eq!(rx.expected_datagram_len(), 12); // SOF: 7-byte marker + 5
    tx.cursor = 2;
    rx.handle_datagram(&tx.current_frame().content);
    assert_eq!(rx.expected_datagram_len(), 8 + 7); // envelope D + 2, checksum, sequence
}

#[test]
fn malformed_length_prefix_is_silently_dropped() {
    let mut tx = TxSession::new(b"data", b"d.txt", 8, TX_IP);
    let mut rx = RxSession::new();
    for _ in 0..3 {
        // Walk the handshake: SOT, parameters, SOF.
        rx.handle_datagram(&tx.current_frame().content);
        tx.cursor += 1;
    }
    assert_eq!(rx.state, RxState::DataOrEof);
    assert_eq!(rx.n_received, 1);
    // A frame whose checksum is fine and whose sequence byte matches, but
    // whose envelope claims more data bytes than it holds.
    let bogus = stopandwait::packets::frame::Frame::new(&[0xFF, 0xFF], 0xFF);
    assert!(bogus.is_valid());
    assert_eq!(rx.handle_datagram(&bogus.content), RxAction::Ignore);
    assert_eq!(rx.n_received, 1);
    assert!(rx.received_data.is_empty());
}

#[test]
fn tampered_checksum_frame_is_detected_end_to_end() {
    // Kind 6 of the error handling: if what the receiver reconstructs does
    // not hash to the received checksum, the mismatch is visible.
    let rx = {
        let mut rx = run_clean_session(b"content", b"c.txt", 8);
        rx.received_checksum ^= 1;
        rx
    };
    assert!(!rx.is_checksum_ok());
}
