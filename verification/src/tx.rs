//! The transmitting endpoint. Given the file bytes, the filename, the
//! per-frame data size and the sender's IPv4 address, it prepares the full
//! ordered queue of frames for the session and then advances through it one
//! positive acknowledgment at a time; everything else is retransmission.

use vstd::prelude::*;

use crate::bytes_be::{
    lemma_u16_be_bytes_roundtrip, spec_u16_to_be, spec_u32_from_be, spec_u32_to_be, u16_to_be,
    u32_from_be, u32_to_be,
};
use crate::packets::acknowledgement::{spec_ack_buf_crc_ok, spec_ack_buf_positive, ACK};
use crate::packets::frame::{
    checksum, crc32_of, spec_frame_image, spec_frame_ok, spec_frame_seq, Frame,
};
use crate::packets::{flip_sequence_byte, SEQUENCE_ONE, SEQUENCE_ZERO};
use crate::{
    build_len_prefixed_payload, eof_marker, eot_marker, sof_marker, sot_marker, spec_envelope,
    spec_eof_marker, spec_eot_marker, spec_sof_marker, spec_sot_marker,
};

verus! {

/// How many data frames a file of `len` bytes needs at `d` data bytes per
/// frame: one per full chunk, plus one for a trailing partial chunk.
pub open spec fn spec_chunk_count(len: nat, d: nat) -> int
    recommends
        0 < d,
{
    if len % d == 0 {
        (len / d) as int
    } else {
        (len / d) as int + 1
    }
}

/// The `k`-th chunk of the file: up to `d` bytes starting at `k * d`.
pub open spec fn spec_chunk(file: Seq<u8>, d: nat, k: int) -> Seq<u8>
    recommends
        0 < d,
        0 <= k < spec_chunk_count(file.len(), d),
{
    file.subrange(k * d, vstd::math::min(k * d + d, file.len() as int))
}

/// The sequence byte carried by the frame at queue position `i`: `0x00` at
/// even positions, `0xFF` at odd ones.
pub open spec fn spec_seq_byte_at(i: int) -> u8 {
    if i % 2 == 0 {
        SEQUENCE_ZERO
    } else {
        SEQUENCE_ONE
    }
}

/// How many frames the session queue holds: SOT, parameters, SOF, the data
/// frames, EOF, checksum, filename, EOT.
pub open spec fn spec_queue_len(file_len: nat, d: nat) -> int {
    spec_chunk_count(file_len, d) + 7
}

/// The payload of the frame at queue position `i`. The three handshake
/// payloads are raw; everything from the data frames on is enveloped.
pub open spec fn spec_tx_payload(file: Seq<u8>, name: Seq<u8>, d: nat, ip: u32, i: int) -> Seq<u8>
    recommends
        0 < d,
        0 <= i < spec_queue_len(file.len(), d),
{
    let n = spec_chunk_count(file.len(), d);
    if i == 0 {
        spec_sot_marker() + spec_u32_to_be(ip)
    } else if i == 1 {
        spec_u16_to_be(d as u16)
    } else if i == 2 {
        spec_sof_marker()
    } else if i < 3 + n {
        spec_envelope(spec_chunk(file, d, i - 3), d)
    } else if i == 3 + n {
        spec_envelope(spec_eof_marker(), d)
    } else if i == 4 + n {
        spec_envelope(spec_u32_to_be(crc32_of(file)), d)
    } else if i == 5 + n {
        spec_envelope(name, d)
    } else {
        spec_envelope(spec_eot_marker(), d)
    }
}

/// The full on-wire image of the frame at queue position `i`.
pub open spec fn spec_tx_frame_image(
    file: Seq<u8>,
    name: Seq<u8>,
    d: nat,
    ip: u32,
    i: int,
) -> Seq<u8> {
    spec_frame_image(spec_tx_payload(file, name, d, ip, i), spec_seq_byte_at(i))
}

/// The whole session queue, frame by frame.
pub open spec fn spec_tx_queue(file: Seq<u8>, name: Seq<u8>, d: nat, ip: u32) -> Seq<Seq<u8>> {
    Seq::new(
        spec_queue_len(file.len(), d) as nat,
        |i: int| spec_tx_frame_image(file, name, d, ip, i),
    )
}

/// Every chunk index below the chunk count starts strictly inside the file.
pub proof fn lemma_chunk_start_in_file(len: nat, d: nat, k: int)
    requires
        0 < d,
        0 <= k < spec_chunk_count(len, d),
    ensures
        k * d < len,
{
    vstd::arithmetic::div_mod::lemma_fundamental_div_mod(len as int, d as int);
    if len % d == 0 {
        assert(k <= len / d - 1);
        vstd::arithmetic::mul::lemma_mul_inequality(k, len / d - 1, d as int);
        assert((len / d - 1) * d == (len / d) * d - d) by (nonlinear_arith);
        assert((len / d) * d == d * (len / d)) by (nonlinear_arith);
    } else {
        assert(k <= len / d);
        vstd::arithmetic::mul::lemma_mul_inequality(k, (len / d) as int, d as int);
        assert((len / d) * d == d * (len / d)) by (nonlinear_arith);
    }
}

/// Frames in the prepared queue alternate their sequence byte, `0x00` first,
/// and every one of them is valid as built.
pub proof fn lemma_queue_alternates_and_is_valid(
    file: Seq<u8>,
    name: Seq<u8>,
    d: nat,
    ip: u32,
    i: int,
)
    requires
        0 < d,
        0 <= i < spec_queue_len(file.len(), d),
    ensures
        spec_frame_seq(spec_tx_queue(file, name, d, ip)[i]) == spec_seq_byte_at(i),
        i % 2 == 0 ==> spec_frame_seq(spec_tx_queue(file, name, d, ip)[i]) == SEQUENCE_ZERO,
        i % 2 == 1 ==> spec_frame_seq(spec_tx_queue(file, name, d, ip)[i]) == SEQUENCE_ONE,
        spec_frame_ok(spec_tx_queue(file, name, d, ip)[i]),
{
    crate::packets::frame::lemma_fresh_frame_valid(
        spec_tx_payload(file, name, d, ip, i),
        spec_seq_byte_at(i),
    );
}

/// Builds the session's frame queue in order: SOT, transmission parameters,
/// SOF, one frame per chunk of the file, EOF, the CRC-32 of the whole file,
/// the filename, EOT. Sequence bytes alternate starting from `0x00`.
pub fn prepare_message(
    file_content: &[u8],
    filename: &[u8],
    data_size: u16,
    tx_ip_addr: u32,
) -> (r: Vec<Frame>)
    requires
        8 <= data_size,
        data_size % 8 == 0,
        filename@.len() <= 0xFFFF,
        file_content@.len() + data_size < usize::MAX,
    ensures
        r@.len() == spec_queue_len(file_content@.len(), data_size as nat),
        forall|i: int|
            0 <= i < r@.len() ==> (#[trigger] r@[i]).content@ == spec_tx_frame_image(
                file_content@,
                filename@,
                data_size as nat,
                tx_ip_addr,
                i,
            ),
{
    let ghost file = file_content@;
    let ghost name = filename@;
    let ghost d_spec = data_size as nat;
    let d = data_size as usize;
    let total = file_content.len();

    let mut frames_to_be_transmitted: Vec<Frame> = Vec::new();

    let mut sot_payload: Vec<u8> = sot_marker();
    let ip_bytes = u32_to_be(tx_ip_addr);
    sot_payload.extend_from_slice(ip_bytes.as_slice());
    proof {
        assert(sot_payload@ =~= spec_sot_marker() + spec_u32_to_be(tx_ip_addr));
    }
    frames_to_be_transmitted.push(Frame::new(sot_payload.as_slice(), SEQUENCE_ZERO));

    let params_payload = u16_to_be(data_size);
    frames_to_be_transmitted.push(Frame::new(params_payload.as_slice(), SEQUENCE_ONE));

    let sof_payload = sof_marker();
    frames_to_be_transmitted.push(Frame::new(sof_payload.as_slice(), SEQUENCE_ZERO));

    let n_chunks: usize = if total % d == 0 {
        total / d
    } else {
        total / d + 1
    };
    assert(n_chunks == spec_chunk_count(file.len(), d_spec));

    let mut current_sequence_byte = SEQUENCE_ONE;
    let mut k: usize = 0;
    let mut start: usize = 0;
    while k < n_chunks
        invariant
            8 <= d,
            d == d_spec,
            d == data_size as usize,
            d_spec == data_size as nat,
            total == file.len(),
            total + d < usize::MAX,
            file == file_content@,
            name == filename@,
            n_chunks == spec_chunk_count(file.len(), d_spec),
            k <= n_chunks,
            start == k * d,
            current_sequence_byte == spec_seq_byte_at(3 + k),
            frames_to_be_transmitted@.len() == 3 + k,
            forall|i: int|
                0 <= i < frames_to_be_transmitted@.len() ==> (#[trigger] frames_to_be_transmitted@[i]).content@
                    == spec_tx_frame_image(file, name, d_spec, tx_ip_addr, i),
        decreases n_chunks - k,
    {
        proof {
            lemma_chunk_start_in_file(file.len(), d_spec, k as int);
        }
        let end = if start + d <= total {
            start + d
        } else {
            total
        };
        let chunk = vstd::slice::slice_subrange(file_content, start, end);
        assert(chunk@ == spec_chunk(file, d_spec, k as int));
        assert(chunk@.len() <= d);
        let envelope = build_len_prefixed_payload(chunk, data_size);
        frames_to_be_transmitted.push(Frame::new(envelope.as_slice(), current_sequence_byte));
        proof {
            let i = 3 + k as int;
            assert(spec_tx_payload(file, name, d_spec, tx_ip_addr, i) == spec_envelope(
                spec_chunk(file, d_spec, k as int),
                d_spec,
            ));
            assert(frames_to_be_transmitted@[i].content@ == spec_tx_frame_image(
                file,
                name,
                d_spec,
                tx_ip_addr,
                i,
            ));
        }
        current_sequence_byte = flip_sequence_byte(current_sequence_byte);
        proof {
            assert((k + 1) * d == k * d + d) by (nonlinear_arith);
        }
        start = start + d;
        k = k + 1;
    }

    let eof_payload = build_len_prefixed_payload(eof_marker().as_slice(), data_size);
    frames_to_be_transmitted.push(Frame::new(eof_payload.as_slice(), current_sequence_byte));
    current_sequence_byte = flip_sequence_byte(current_sequence_byte);

    let file_checksum = checksum(file_content);
    let checksum_bytes = u32_to_be(file_checksum);
    let checksum_payload = build_len_prefixed_payload(checksum_bytes.as_slice(), data_size);
    frames_to_be_transmitted.push(Frame::new(checksum_payload.as_slice(), current_sequence_byte));
    current_sequence_byte = flip_sequence_byte(current_sequence_byte);

    let filename_payload = build_len_prefixed_payload(filename, data_size);
    frames_to_be_transmitted.push(Frame::new(filename_payload.as_slice(), current_sequence_byte));
    current_sequence_byte = flip_sequence_byte(current_sequence_byte);

    let eot_payload = build_len_prefixed_payload(eot_marker().as_slice(), data_size);
    frames_to_be_transmitted.push(Frame::new(eot_payload.as_slice(), current_sequence_byte));

    frames_to_be_transmitted
}

/// What the transmitter should do after looking at one receive attempt.
#[derive(Debug, PartialEq, Eq, Structural, Clone, Copy)]
pub enum TxAction {
    /// The buffer held no acknowledgment with a matching checksum: resend
    /// the head frame right away (the read timeout has already elapsed).
    Retransmit,
    /// The checksum matched but the ack-code did not: wait one timeout, then
    /// resend the head frame.
    SleepRetransmit,
    /// A positive acknowledgment: the head frame is delivered, move on.
    Advance,
}

/// The observable state of a transmitting session.
#[verifier::ext_equal]
pub ghost struct TxModel {
    /// The on-wire images of the queued frames, in order.
    pub frames: Seq<Seq<u8>>,
    /// How many frames have been positively acknowledged; the head of the
    /// queue is `frames[cursor]`.
    pub cursor: int,
    /// Whether a checksum-valid acknowledgment has pinned the peer yet.
    pub connected: bool,
    /// The peer's IPv4 address, meaningful once connected.
    pub peer_ip: u32,
}

/// A transmitting session as it starts: the whole queue prepared, nothing
/// acknowledged, no peer known yet.
pub open spec fn spec_tx_fresh(file: Seq<u8>, name: Seq<u8>, d: nat, ip: u32) -> TxModel {
    TxModel {
        frames: spec_tx_queue(file, name, d, ip),
        cursor: 0,
        connected: false,
        peer_ip: 0,
    }
}

/// How one receive attempt changes the session: a checksum-valid buffer pins
/// the peer address, and a positive ack-code additionally delivers the head
/// frame. Anything else changes nothing.
pub open spec fn spec_tx_step(pre: TxModel, buf: Seq<u8>) -> TxModel {
    if spec_ack_buf_crc_ok(buf) {
        let connected = TxModel {
            connected: true,
            peer_ip: spec_u32_from_be(buf[2], buf[3], buf[4], buf[5]),
            ..pre
        };
        if spec_ack_buf_positive(buf) {
            TxModel { cursor: pre.cursor + 1, ..connected }
        } else {
            connected
        }
    } else {
        pre
    }
}

/// The action the transmitter takes for one receive attempt.
pub open spec fn spec_tx_action(pre: TxModel, buf: Seq<u8>) -> TxAction {
    if !spec_ack_buf_crc_ok(buf) {
        TxAction::Retransmit
    } else if spec_ack_buf_positive(buf) {
        TxAction::Advance
    } else {
        TxAction::SleepRetransmit
    }
}

/// A transmitting session: the prepared queue and the progress through it.
pub struct TxSession {
    /// The prepared frames, in session order.
    pub frames: Vec<Frame>,
    /// How many frames have been positively acknowledged.
    pub cursor: usize,
    /// Whether a checksum-valid acknowledgment has pinned the peer yet.
    pub connected: bool,
    /// The peer's IPv4 address, meaningful once `connected`.
    pub peer_ip: u32,
}

impl View for TxSession {
    type V = TxModel;

    open spec fn view(&self) -> TxModel {
        TxModel {
            frames: Seq::new(self.frames@.len(), |i: int| self.frames@[i].content@),
            cursor: self.cursor as int,
            connected: self.connected,
            peer_ip: self.peer_ip,
        }
    }
}

impl TxSession {
    /// Prepares the queue for one session; nothing is acknowledged yet and
    /// no peer is known.
    pub fn new(file_content: &[u8], filename: &[u8], data_size: u16, tx_ip_addr: u32) -> (r: Self)
        requires
            8 <= data_size,
            data_size % 8 == 0,
            filename@.len() <= 0xFFFF,
            file_content@.len() + data_size < usize::MAX,
        ensures
            r@ == spec_tx_fresh(file_content@, filename@, data_size as nat, tx_ip_addr),
    {
        let frames = prepare_message(file_content, filename, data_size, tx_ip_addr);
        let r = TxSession { frames, cursor: 0, connected: false, peer_ip: 0 };
        proof {
            assert(r@.frames =~= spec_tx_queue(
                file_content@,
                filename@,
                data_size as nat,
                tx_ip_addr,
            ));
            assert(r@ =~= spec_tx_fresh(file_content@, filename@, data_size as nat, tx_ip_addr));
        }
        r
    }

    /// Whether every frame of the queue has been acknowledged.
    pub fn is_done(&self) -> (r: bool)
        ensures
            r == (self@.cursor >= self@.frames.len()),
    {
        self.cursor >= self.frames.len()
    }

    /// The head of the queue: the frame awaiting its acknowledgment.
    pub fn current_frame(&self) -> (r: &Frame)
        requires
            self@.cursor < self@.frames.len(),
        ensures
            r.content@ == self@.frames[self@.cursor],
    {
        &self.frames[self.cursor]
    }

    /// Digests one receive attempt: the 10-byte buffer the socket read, or
    /// the zeroed buffer a timeout left behind.
    pub fn handle_ack_buf(&mut self, ack_buf: &[u8]) -> (act: TxAction)
        requires
            ack_buf@.len() == 10,
            old(self)@.cursor < old(self)@.frames.len(),
        ensures
            final(self)@ == spec_tx_step(old(self)@, ack_buf@),
            act == spec_tx_action(old(self)@, ack_buf@),
    {
        if is_received_buf_valid(ack_buf) {
            let ip = u32_from_be(ack_buf[2], ack_buf[3], ack_buf[4], ack_buf[5]);
            self.peer_ip = ip;
            self.connected = true;
            let ack = ACK::from_bytes([ack_buf[0], ack_buf[1]]);
            proof {
                lemma_u16_be_bytes_roundtrip(ack_buf@[0], ack_buf@[1]);
            }
            if ack.is_valid() {
                let n = self.frames.len();
                assert(self.cursor < n);
                self.cursor = self.cursor + 1;
                TxAction::Advance
            } else {
                TxAction::SleepRetransmit
            }
        } else {
            TxAction::Retransmit
        }
    }
}

/// Whether a received 10-byte buffer carries a matching CRC-32 over its
/// first six bytes.
pub fn is_received_buf_valid(received: &[u8]) -> (r: bool)
    requires
        received@.len() == 10,
    ensures
        r == spec_ack_buf_crc_ok(received@),
{
    let payload = vstd::slice::slice_subrange(received, 0, 6);
    proof {
        assert(payload@ =~= received@.take(6));
    }
    let received_checksum = u32_from_be(received[6], received[7], received[8], received[9]);
    checksum(payload) == received_checksum
}

} // verus!
