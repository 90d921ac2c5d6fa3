//! The receiving endpoint: a state machine driven by one datagram (or one
//! timeout) at a time. It walks the handshake, accepts data frames in
//! alternating-bit order, silently drops corrupted frames, re-acknowledges
//! duplicates without keeping their payload, and after the end of
//! transmission waits out one quiet period before finishing.

use vstd::prelude::*;

use crate::bytes_be::{spec_u16_from_be, spec_u32_from_be, u16_from_be, u32_from_be};
use crate::packets::frame::{
    spec_frame_ok, spec_frame_payload, spec_frame_seq, Frame,
};
use crate::packets::{SEQUENCE_ONE, SEQUENCE_ZERO};
use crate::{
    bytes_eq, bytes_starts_with, eof_marker, eot_marker, parse_len_prefixed_payload, sof_marker,
    sot_marker, spec_envelope_ok, spec_eof_marker, spec_eot_marker, spec_parse_envelope,
    spec_sof_marker, spec_sot_marker,
};

verus! {

/// What the receiver is waiting for.
#[derive(Debug, PartialEq, Eq, Structural, Clone, Copy)]
pub enum RxState {
    /// Nothing heard yet; only a start-of-transmission frame is accepted.
    AwaitSot,
    /// The transmission-parameters frame carrying the data size is next.
    AwaitParams,
    /// The start-of-file marker is next.
    AwaitSof,
    /// Data frames, or the end-of-file or end-of-transmission marker.
    DataOrEof,
    /// The frame carrying the CRC-32 of the whole file is next.
    AwaitChecksum,
    /// The frame carrying the filename is next.
    AwaitFilename,
    /// End of transmission seen; absorbing retransmissions until a quiet
    /// period passes.
    AfterEot,
    /// The session is over.
    Done,
}

/// What the receiver does in reply to one datagram.
#[derive(Debug, PartialEq, Eq, Structural, Clone, Copy)]
pub enum RxAction {
    /// Say nothing; the transmitter will time out and retransmit.
    Ignore,
    /// Send an acknowledgment carrying this sequence byte.
    Ack(u8),
    /// First datagram of a session: connect back to the transmitter at this
    /// IPv4 address, then send an acknowledgment with this sequence byte.
    ConnectAndAck(u32, u8),
}

/// The observable state of a receiving session.
#[verifier::ext_equal]
pub ghost struct RxModel {
    /// What the receiver is waiting for.
    pub state: RxState,
    /// The data size `D` announced in the transmission-parameters frame;
    /// 0 until that frame arrives.
    pub data_size: int,
    /// The file bytes accepted so far, in order.
    pub data: Seq<u8>,
    /// The CRC-32 received in the checksum frame; 0 until it arrives.
    pub checksum: u32,
    /// The filename received in the filename frame; empty until it arrives.
    pub filename: Seq<u8>,
    /// How many frames of the data phase have been accepted; the first data
    /// frame after the start-of-file marker is number 1.
    pub n: int,
    /// The transmitter's IPv4 address, learned from the
    /// start-of-transmission frame; 0 until then.
    pub tx_ip: u32,
}

/// The sequence byte the `n`-th accepted frame of the data phase must carry:
/// `0x00` when `n` is even, `0xFF` when `n` is odd.
pub open spec fn spec_expected_seq(n: int) -> u8 {
    if n % 2 == 0 {
        SEQUENCE_ZERO
    } else {
        SEQUENCE_ONE
    }
}

/// The receiver before anything has arrived.
pub open spec fn spec_rx_init() -> RxModel {
    RxModel {
        state: RxState::AwaitSot,
        data_size: 0,
        data: Seq::empty(),
        checksum: 0,
        filename: Seq::empty(),
        n: 0,
        tx_ip: 0,
    }
}

/// How one received datagram changes the session. A frame whose CRC-32 does
/// not match changes nothing; a valid frame with the wrong sequence byte is
/// a duplicate and changes nothing; otherwise the frame is accepted as what
/// the current state awaits.
pub open spec fn spec_rx_step(pre: RxModel, b: Seq<u8>) -> RxModel {
    if !spec_frame_ok(b) {
        pre
    } else {
        let payload = spec_frame_payload(b);
        let seq = spec_frame_seq(b);
        match pre.state {
            RxState::AwaitSot => {
                if payload.len() >= 11 && payload.take(7) == spec_sot_marker() {
                    RxModel {
                        state: RxState::AwaitParams,
                        tx_ip: spec_u32_from_be(
                            payload[payload.len() - 4],
                            payload[payload.len() - 3],
                            payload[payload.len() - 2],
                            payload[payload.len() - 1],
                        ),
                        ..pre
                    }
                } else {
                    pre
                }
            },
            RxState::AwaitParams => {
                if payload.len() >= 2 {
                    RxModel {
                        state: RxState::AwaitSof,
                        data_size: spec_u16_from_be(payload[0], payload[1]) as int,
                        ..pre
                    }
                } else {
                    pre
                }
            },
            RxState::AwaitSof => {
                if payload == spec_sof_marker() {
                    RxModel { state: RxState::DataOrEof, n: 1, ..pre }
                } else {
                    pre
                }
            },
            RxState::DataOrEof => {
                if seq != spec_expected_seq(pre.n) {
                    pre
                } else if !spec_envelope_ok(payload) {
                    pre
                } else {
                    let parsed = spec_parse_envelope(payload);
                    if parsed == spec_eof_marker() {
                        RxModel { state: RxState::AwaitChecksum, n: pre.n + 1, ..pre }
                    } else if parsed == spec_eot_marker() {
                        RxModel { state: RxState::AfterEot, ..pre }
                    } else {
                        RxModel { data: pre.data + parsed, n: pre.n + 1, ..pre }
                    }
                }
            },
            RxState::AwaitChecksum => {
                if seq != spec_expected_seq(pre.n) {
                    pre
                } else if !spec_envelope_ok(payload) {
                    pre
                } else {
                    let parsed = spec_parse_envelope(payload);
                    if parsed.len() >= 4 {
                        RxModel {
                            state: RxState::AwaitFilename,
                            checksum: spec_u32_from_be(parsed[0], parsed[1], parsed[2], parsed[3]),
                            n: pre.n + 1,
                            ..pre
                        }
                    } else {
                        pre
                    }
                }
            },
            RxState::AwaitFilename => {
                if seq != spec_expected_seq(pre.n) {
                    pre
                } else if !spec_envelope_ok(payload) {
                    pre
                } else {
                    RxModel {
                        state: RxState::DataOrEof,
                        filename: spec_parse_envelope(payload),
                        n: pre.n + 1,
                        ..pre
                    }
                }
            },
            RxState::AfterEot => pre,
            RxState::Done => pre,
        }
    }
}

/// What the receiver sends back for one received datagram. An accepted frame
/// is acknowledged with its own sequence byte; a duplicate is re-acknowledged
/// with the sequence byte of the previously accepted frame; a corrupted
/// frame gets no reply at all.
pub open spec fn spec_rx_action(pre: RxModel, b: Seq<u8>) -> RxAction {
    if !spec_frame_ok(b) {
        RxAction::Ignore
    } else {
        let payload = spec_frame_payload(b);
        let seq = spec_frame_seq(b);
        match pre.state {
            RxState::AwaitSot => {
                if payload.len() >= 11 && payload.take(7) == spec_sot_marker() {
                    RxAction::ConnectAndAck(
                        spec_u32_from_be(
                            payload[payload.len() - 4],
                            payload[payload.len() - 3],
                            payload[payload.len() - 2],
                            payload[payload.len() - 1],
                        ),
                        SEQUENCE_ONE,
                    )
                } else {
                    RxAction::Ignore
                }
            },
            RxState::AwaitParams => {
                if payload.len() >= 2 {
                    RxAction::Ack(SEQUENCE_ZERO)
                } else {
                    RxAction::Ignore
                }
            },
            RxState::AwaitSof => {
                if payload == spec_sof_marker() {
                    RxAction::Ack(SEQUENCE_ONE)
                } else {
                    RxAction::Ignore
                }
            },
            RxState::DataOrEof => {
                if seq != spec_expected_seq(pre.n) {
                    RxAction::Ack(spec_expected_seq(pre.n - 1))
                } else if !spec_envelope_ok(payload) {
                    RxAction::Ignore
                } else {
                    RxAction::Ack(spec_expected_seq(pre.n))
                }
            },
            RxState::AwaitChecksum => {
                if seq != spec_expected_seq(pre.n) {
                    RxAction::Ack(spec_expected_seq(pre.n - 1))
                } else if !spec_envelope_ok(payload) {
                    RxAction::Ignore
                } else if spec_parse_envelope(payload).len() >= 4 {
                    RxAction::Ack(spec_expected_seq(pre.n))
                } else {
                    RxAction::Ignore
                }
            },
            RxState::AwaitFilename => {
                if seq != spec_expected_seq(pre.n) {
                    RxAction::Ack(spec_expected_seq(pre.n - 1))
                } else if !spec_envelope_ok(payload) {
                    RxAction::Ignore
                } else {
                    RxAction::Ack(spec_expected_seq(pre.n))
                }
            },
            RxState::AfterEot => RxAction::Ack(spec_expected_seq(pre.n)),
            RxState::Done => RxAction::Ignore,
        }
    }
}

/// How a read timeout changes the session: the quiet period after the end of
/// transmission ends the session; anywhere else a timeout changes nothing.
pub open spec fn spec_rx_timeout(pre: RxModel) -> RxModel {
    if pre.state == RxState::AfterEot {
        RxModel { state: RxState::Done, ..pre }
    } else {
        pre
    }
}

/// A receiving session.
pub struct RxSession {
    /// What the receiver is waiting for.
    pub state: RxState,
    /// The data size `D` announced by the transmitter; 0 until known.
    pub data_size: u16,
    /// The file bytes accepted so far.
    pub received_data: Vec<u8>,
    /// The CRC-32 received in the checksum frame.
    pub received_checksum: u32,
    /// The filename received in the filename frame.
    pub received_filename: Vec<u8>,
    /// How many frames of the data phase have been accepted.
    pub n_received: usize,
    /// The transmitter's IPv4 address, learned from the first frame.
    pub tx_ip: u32,
}

impl View for RxSession {
    type V = RxModel;

    open spec fn view(&self) -> RxModel {
        RxModel {
            state: self.state,
            data_size: self.data_size as int,
            data: self.received_data@,
            checksum: self.received_checksum,
            filename: self.received_filename@,
            n: self.n_received as int,
            tx_ip: self.tx_ip,
        }
    }
}

impl RxSession {
    /// A fresh session, waiting for a start of transmission.
    pub fn new() -> (r: Self)
        ensures
            r@ == spec_rx_init(),
    {
        let r = RxSession {
            state: RxState::AwaitSot,
            data_size: 0,
            received_data: Vec::new(),
            received_checksum: 0,
            received_filename: Vec::new(),
            n_received: 0,
            tx_ip: 0,
        };
        proof {
            assert(r@ =~= spec_rx_init());
        }
        r
    }

    /// How many bytes the next datagram can hold: the exact size of the
    /// frame the current state awaits.
    pub fn expected_datagram_len(&self) -> (r: usize)
        ensures
            self@.state == RxState::AwaitSot ==> r == crate::SOT_PAYLOAD_LEN
                + crate::FRAME_OVERHEAD_LEN,
            self@.state == RxState::AwaitParams ==> r == crate::TX_PARAMETERS_PAYLOAD_LEN
                + crate::FRAME_OVERHEAD_LEN,
            self@.state == RxState::AwaitSof ==> r == spec_sof_marker().len()
                + crate::FRAME_OVERHEAD_LEN,
            (self@.state == RxState::DataOrEof || self@.state == RxState::AwaitChecksum
                || self@.state == RxState::AwaitFilename || self@.state == RxState::AfterEot
                || self@.state == RxState::Done) ==> r == self@.data_size + 2
                + crate::FRAME_OVERHEAD_LEN,
    {
        match self.state {
            RxState::AwaitSot => crate::SOT_PAYLOAD_LEN + crate::FRAME_OVERHEAD_LEN,
            RxState::AwaitParams => crate::TX_PARAMETERS_PAYLOAD_LEN + crate::FRAME_OVERHEAD_LEN,
            RxState::AwaitSof => 7 + crate::FRAME_OVERHEAD_LEN,
            _ => (self.data_size as usize) + 2 + crate::FRAME_OVERHEAD_LEN,
        }
    }

    /// Digests one received datagram and says what to send back.
    pub fn handle_datagram(&mut self, buf: &[u8]) -> (act: RxAction)
        requires
            old(self).n_received < usize::MAX,
        ensures
            final(self)@ == spec_rx_step(old(self)@, buf@),
            act == spec_rx_action(old(self)@, buf@),
    {
        let frame = Frame::from_bytes(buf);
        if !frame.is_valid() {
            return RxAction::Ignore;
        }
        let (payload, _checksum, seq) = frame.get_payload_and_checksum_and_sequence_byte();
        match self.state {
            RxState::AwaitSot => {
                let sot = sot_marker();
                if payload.len() >= 11 && bytes_starts_with(payload.as_slice(), sot.as_slice()) {
                    let plen = payload.len();
                    let ip = u32_from_be(
                        payload[plen - 4],
                        payload[plen - 3],
                        payload[plen - 2],
                        payload[plen - 1],
                    );
                    self.state = RxState::AwaitParams;
                    self.tx_ip = ip;
                    RxAction::ConnectAndAck(ip, SEQUENCE_ONE)
                } else {
                    RxAction::Ignore
                }
            },
            RxState::AwaitParams => {
                if payload.len() >= 2 {
                    self.data_size = u16_from_be(payload[0], payload[1]);
                    self.state = RxState::AwaitSof;
                    RxAction::Ack(SEQUENCE_ZERO)
                } else {
                    RxAction::Ignore
                }
            },
            RxState::AwaitSof => {
                let sof = sof_marker();
                if bytes_eq(payload.as_slice(), sof.as_slice()) {
                    self.state = RxState::DataOrEof;
                    self.n_received = 1;
                    RxAction::Ack(SEQUENCE_ONE)
                } else {
                    RxAction::Ignore
                }
            },
            RxState::DataOrEof => {
                let expected = self.expected_seq();
                if seq != expected {
                    let previous = self.previous_seq();
                    RxAction::Ack(previous)
                } else if !envelope_ok(payload.as_slice()) {
                    RxAction::Ignore
                } else {
                    let parsed = parse_len_prefixed_payload(payload.as_slice());
                    let eof = eof_marker();
                    let eot = eot_marker();
                    if bytes_eq(parsed, eof.as_slice()) {
                        self.state = RxState::AwaitChecksum;
                        self.n_received = self.n_received + 1;
                    } else if bytes_eq(parsed, eot.as_slice()) {
                        self.state = RxState::AfterEot;
                    } else {
                        self.received_data.extend_from_slice(parsed);
                        self.n_received = self.n_received + 1;
                    }
                    RxAction::Ack(expected)
                }
            },
            RxState::AwaitChecksum => {
                let expected = self.expected_seq();
                if seq != expected {
                    let previous = self.previous_seq();
                    RxAction::Ack(previous)
                } else if !envelope_ok(payload.as_slice()) {
                    RxAction::Ignore
                } else {
                    let parsed = parse_len_prefixed_payload(payload.as_slice());
                    if parsed.len() >= 4 {
                        self.received_checksum = u32_from_be(
                            parsed[0],
                            parsed[1],
                            parsed[2],
                            parsed[3],
                        );
                        self.state = RxState::AwaitFilename;
                        self.n_received = self.n_received + 1;
                        RxAction::Ack(expected)
                    } else {
                        RxAction::Ignore
                    }
                }
            },
            RxState::AwaitFilename => {
                let expected = self.expected_seq();
                if seq != expected {
                    let previous = self.previous_seq();
                    RxAction::Ack(previous)
                } else if !envelope_ok(payload.as_slice()) {
                    RxAction::Ignore
                } else {
                    let parsed = parse_len_prefixed_payload(payload.as_slice());
                    self.received_filename = vstd::slice::slice_to_vec(parsed);
                    self.state = RxState::DataOrEof;
                    self.n_received = self.n_received + 1;
                    RxAction::Ack(expected)
                }
            },
            RxState::AfterEot => {
                let expected = self.expected_seq();
                RxAction::Ack(expected)
            },
            RxState::Done => RxAction::Ignore,
        }
    }

    /// Digests one read timeout.
    pub fn handle_timeout(&mut self)
        ensures
            final(self)@ == spec_rx_timeout(old(self)@),
    {
        if self.state == RxState::AfterEot {
            self.state = RxState::Done;
        }
    }

    /// The sequence byte the next accepted frame must carry.
    pub fn expected_seq(&self) -> (r: u8)
        ensures
            r == spec_expected_seq(self@.n),
    {
        if self.n_received % 2 == 0 {
            SEQUENCE_ZERO
        } else {
            SEQUENCE_ONE
        }
    }

    /// The sequence byte of the previously accepted frame, used to
    /// re-acknowledge duplicates.
    pub fn previous_seq(&self) -> (r: u8)
        ensures
            r == spec_expected_seq(self@.n - 1),
    {
        if self.n_received % 2 == 0 {
            SEQUENCE_ONE
        } else {
            SEQUENCE_ZERO
        }
    }

    /// Whether the CRC-32 recomputed over everything received equals the
    /// checksum the transmitter sent.
    pub fn is_checksum_ok(&self) -> (r: bool)
        ensures
            r == (crate::packets::frame::crc32_of(self@.data) == self@.checksum),
    {
        let computed = crate::packets::frame::checksum(self.received_data.as_slice());
        computed == self.received_checksum
    }
}

/// Whether a payload's length prefix is consistent with its size.
pub fn envelope_ok(payload: &[u8]) -> (r: bool)
    ensures
        r == spec_envelope_ok(payload@),
{
    if payload.len() < 2 {
        return false;
    }
    let l = u16_from_be(payload[0], payload[1]) as usize;
    l + 2 <= payload.len()
}

} // verus!
