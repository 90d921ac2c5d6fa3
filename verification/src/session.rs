//! The two endpoints put together: what happens when the receiver is fed the
//! transmitter's queue. Over a clean channel the whole session replays
//! deterministically, so the receiver's final state can be computed — and it
//! holds exactly the file, the filename and the file's checksum. Corrupted
//! frames and duplicates are also shown to leave the receiver untouched,
//! which is why a lossy channel only slows a session down.

use vstd::prelude::*;

use crate::bytes_be::{lemma_u16_be_roundtrip, lemma_u32_be_roundtrip, spec_u32_to_be};
use crate::packets::acknowledgement::{lemma_ack_image_valid, spec_ack_image};
use crate::packets::frame::{
    crc32_of, spec_frame_ok, spec_frame_payload, spec_frame_seq,
};
use crate::rx::{
    spec_expected_seq, spec_rx_action, spec_rx_init, spec_rx_step, spec_rx_timeout, RxAction,
    RxModel, RxState,
};
use crate::tx::{
    lemma_chunk_start_in_file, lemma_queue_alternates_and_is_valid, spec_chunk, spec_chunk_count,
    spec_queue_len, spec_seq_byte_at, spec_tx_frame_image, spec_tx_payload, spec_tx_queue,
    spec_tx_step, spec_tx_action, TxAction, TxModel,
};
use crate::{lemma_envelope_roundtrip, spec_eof_marker, spec_eot_marker, spec_sot_marker};

verus! {

/// The receiver's state after digesting the first `t` datagrams of `inputs`.
pub open spec fn spec_rx_after(m: RxModel, inputs: Seq<Seq<u8>>, t: int) -> RxModel
    decreases t,
{
    if t <= 0 {
        m
    } else {
        spec_rx_step(spec_rx_after(m, inputs, t - 1), inputs[t - 1])
    }
}

/// No chunk of the file spells an end marker: a file none of whose chunks
/// equals the 7-byte end-of-file or end-of-transmission marker. The data
/// phase tells the markers from data by payload alone, so such a chunk would
/// end the phase early.
pub open spec fn spec_no_chunk_is_marker(file: Seq<u8>, d: nat) -> bool {
    forall|k: int|
        0 <= k < spec_chunk_count(file.len(), d) ==> #[trigger] spec_chunk(file, d, k)
            != spec_eof_marker() && spec_chunk(file, d, k) != spec_eot_marker()
}

/// A chunk fits in one envelope.
proof fn lemma_chunk_len(file: Seq<u8>, d: nat, k: int)
    requires
        0 < d,
        0 <= k < spec_chunk_count(file.len(), d),
    ensures
        spec_chunk(file, d, k).len() <= d,
        k * d + spec_chunk(file, d, k).len() == vstd::math::min(k * d + d, file.len() as int),
{
    lemma_chunk_start_in_file(file.len(), d, k);
}

/// The chunks cover the file: as many chunks as the count says fill it
/// completely.
proof fn lemma_chunks_cover(len: nat, d: nat)
    requires
        0 < d,
    ensures
        spec_chunk_count(len, d) * d >= len,
        spec_chunk_count(len, d) >= 0,
{
    vstd::arithmetic::div_mod::lemma_fundamental_div_mod(len as int, d as int);
    let q = (len / d) as int;
    assert(q * d == d * q) by (nonlinear_arith);
    if len % d == 0 {
    } else {
        assert((q + 1) * d == q * d + d) by (nonlinear_arith);
    }
}

/// The receiver's expected state after the first `t` frames of a clean
/// session for `file`, `name`, data size `d` and transmitter address `ip`.
pub open spec fn spec_session_model_at(
    file: Seq<u8>,
    name: Seq<u8>,
    d: nat,
    ip: u32,
    t: int,
) -> RxModel {
    let n_c = spec_chunk_count(file.len(), d);
    if t <= 0 {
        spec_rx_init()
    } else if t == 1 {
        RxModel { state: RxState::AwaitParams, tx_ip: ip, ..spec_rx_init() }
    } else if t == 2 {
        RxModel { state: RxState::AwaitSof, data_size: d as int, tx_ip: ip, ..spec_rx_init() }
    } else if t <= 3 + n_c {
        RxModel {
            state: RxState::DataOrEof,
            data_size: d as int,
            data: file.take(vstd::math::min((t - 3) * d, file.len() as int)),
            checksum: 0,
            filename: Seq::empty(),
            n: t - 2,
            tx_ip: ip,
        }
    } else if t == 4 + n_c {
        RxModel {
            state: RxState::AwaitChecksum,
            data_size: d as int,
            data: file,
            checksum: 0,
            filename: Seq::empty(),
            n: n_c + 2,
            tx_ip: ip,
        }
    } else if t == 5 + n_c {
        RxModel {
            state: RxState::AwaitFilename,
            data_size: d as int,
            data: file,
            checksum: crc32_of(file),
            filename: Seq::empty(),
            n: n_c + 3,
            tx_ip: ip,
        }
    } else if t == 6 + n_c {
        RxModel {
            state: RxState::DataOrEof,
            data_size: d as int,
            data: file,
            checksum: crc32_of(file),
            filename: name,
            n: n_c + 4,
            tx_ip: ip,
        }
    } else {
        RxModel {
            state: RxState::AfterEot,
            data_size: d as int,
            data: file,
            checksum: crc32_of(file),
            filename: name,
            n: n_c + 4,
            tx_ip: ip,
        }
    }
}

/// One clean step: feeding frame `i` of the queue to the receiver in its
/// expected state accepts the frame and acknowledges it.
#[verifier::rlimit(100)]
proof fn lemma_session_step(file: Seq<u8>, name: Seq<u8>, d: nat, ip: u32, i: int)
    requires
        8 <= d,
        d <= 0xFFFF,
        name.len() <= 0xFFFF,
        spec_no_chunk_is_marker(file, d),
        0 <= i < spec_queue_len(file.len(), d),
    ensures
        spec_rx_step(
            spec_session_model_at(file, name, d, ip, i),
            spec_tx_queue(file, name, d, ip)[i],
        ) == spec_session_model_at(file, name, d, ip, i + 1),
        spec_rx_action(
            spec_session_model_at(file, name, d, ip, i),
            spec_tx_queue(file, name, d, ip)[i],
        ) != RxAction::Ignore,
{
    let n_c = spec_chunk_count(file.len(), d);
    let pre = spec_session_model_at(file, name, d, ip, i);
    let b = spec_tx_queue(file, name, d, ip)[i];
    let payload = spec_tx_payload(file, name, d, ip, i);
    lemma_queue_alternates_and_is_valid(file, name, d, ip, i);
    crate::packets::frame::lemma_fresh_frame_valid(payload, spec_seq_byte_at(i));
    assert(spec_frame_ok(b));
    assert(spec_frame_payload(b) == payload);
    assert(spec_frame_seq(b) == spec_seq_byte_at(i));
    lemma_chunks_cover(file.len(), d);
    if i == 0 {
        // Start of transmission: the marker plus the transmitter's address.
        assert(payload.take(7) =~= spec_sot_marker());
        assert(payload.len() == 11);
        assert(payload[7] == (ip >> 24) as u8);
        assert(payload[8] == ((ip >> 16) & 0xFF) as u8);
        assert(payload[9] == ((ip >> 8) & 0xFF) as u8);
        assert(payload[10] == (ip & 0xFF) as u8);
        lemma_u32_be_roundtrip(ip);
        assert(spec_rx_step(pre, b) =~= spec_session_model_at(file, name, d, ip, 1));
    } else if i == 1 {
        // Transmission parameters: the data size as two big-endian bytes.
        lemma_u16_be_roundtrip(d as u16);
        assert(spec_rx_step(pre, b) =~= spec_session_model_at(file, name, d, ip, 2));
    } else if i == 2 {
        // Start of file.
        assert(spec_rx_step(pre, b) =~= spec_session_model_at(file, name, d, ip, 3));
        assert(spec_session_model_at(file, name, d, ip, 3).data =~= file.take(
            vstd::math::min(0 * d as int, file.len() as int),
        ));
    } else if i < 3 + n_c {
        // A data frame: the k-th chunk of the file, enveloped.
        let k = i - 3;
        lemma_chunk_len(file, d, k);
        lemma_chunk_start_in_file(file.len(), d, k);
        let chunk = spec_chunk(file, d, k);
        lemma_envelope_roundtrip(chunk, d);
        assert(pre.n == k + 1);
        assert(spec_seq_byte_at(i) == spec_expected_seq(pre.n));
        assert(chunk != spec_eof_marker() && chunk != spec_eot_marker());
        let post = spec_rx_step(pre, b);
        assert(post.data == pre.data + chunk);
        assert(pre.data + chunk =~= file.take(
            vstd::math::min((k + 1) * d, file.len() as int),
        )) by {
            assert(vstd::math::min(k * d, file.len() as int) == k * d);
            assert((k + 1) * d == k * d + d) by (nonlinear_arith);
        }
        assert(post =~= spec_session_model_at(file, name, d, ip, i + 1));
    } else if i == 3 + n_c {
        // End of file.
        lemma_envelope_roundtrip(spec_eof_marker(), d);
        assert(pre.n == n_c + 1);
        assert(spec_seq_byte_at(i) == spec_expected_seq(pre.n));
        assert(pre.data =~= file) by {
            assert(vstd::math::min(n_c * d, file.len() as int) == file.len() as int);
            assert(file.take(file.len() as int) =~= file);
        }
        assert(spec_rx_step(pre, b) =~= spec_session_model_at(file, name, d, ip, i + 1));
    } else if i == 4 + n_c {
        // The CRC-32 of the whole file, enveloped as four bytes.
        let ck = crc32_of(file);
        lemma_envelope_roundtrip(spec_u32_to_be(ck), d);
        assert(pre.n == n_c + 2);
        assert(spec_seq_byte_at(i) == spec_expected_seq(pre.n));
        let parsed = spec_u32_to_be(ck);
        assert(parsed.len() == 4);
        lemma_u32_be_roundtrip(ck);
        assert(spec_rx_step(pre, b) =~= spec_session_model_at(file, name, d, ip, i + 1));
    } else if i == 5 + n_c {
        // The filename, enveloped.
        lemma_envelope_roundtrip(name, d);
        assert(pre.n == n_c + 3);
        assert(spec_seq_byte_at(i) == spec_expected_seq(pre.n));
        assert(spec_rx_step(pre, b) =~= spec_session_model_at(file, name, d, ip, i + 1));
    } else {
        // End of transmission.
        assert(i == 6 + n_c);
        lemma_envelope_roundtrip(spec_eot_marker(), d);
        assert(pre.n == n_c + 4);
        assert(spec_seq_byte_at(i) == spec_expected_seq(pre.n));
        assert(spec_eot_marker()[4] != spec_eof_marker()[4]);
        assert(spec_rx_step(pre, b) =~= spec_session_model_at(file, name, d, ip, i + 1));
    }
}

/// The receiver walks the expected states: after the first `t` frames of a
/// clean session it is exactly in the `t`-th expected state, and it has
/// acknowledged every one of those frames.
proof fn lemma_session_run(file: Seq<u8>, name: Seq<u8>, d: nat, ip: u32, t: int)
    requires
        8 <= d,
        d <= 0xFFFF,
        name.len() <= 0xFFFF,
        spec_no_chunk_is_marker(file, d),
        0 <= t <= spec_queue_len(file.len(), d),
    ensures
        spec_rx_after(spec_rx_init(), spec_tx_queue(file, name, d, ip), t)
            == spec_session_model_at(file, name, d, ip, t),
        forall|i: int|
            0 <= i < t ==> spec_rx_action(
                spec_session_model_at(file, name, d, ip, i),
                #[trigger] spec_tx_queue(file, name, d, ip)[i],
            ) != RxAction::Ignore,
    decreases t,
{
    if t > 0 {
        lemma_session_run(file, name, d, ip, t - 1);
        lemma_session_step(file, name, d, ip, t - 1);
    }
}

/// Over a clean channel the protocol delivers exactly the file: feed the
/// receiver the transmitter's whole queue in order and it ends up holding
/// the file bytes, the filename and the file's CRC-32, waiting out the quiet
/// period after the end of transmission — and it acknowledged every frame,
/// which is what lets the transmitter drain its queue. The one hypothesis on
/// the file is that no chunk of it spells an end marker, since the data
/// phase tells markers from data by payload alone.
#[verifier::rlimit(50)]
pub proof fn lemma_clean_session_delivers_file(file: Seq<u8>, name: Seq<u8>, d: nat, ip: u32)
    requires
        8 <= d,
        d <= 0xFFFF,
        name.len() <= 0xFFFF,
        spec_no_chunk_is_marker(file, d),
    ensures
        ({
            let queue = spec_tx_queue(file, name, d, ip);
            let end = spec_rx_after(spec_rx_init(), queue, queue.len() as int);
            &&& end.state == RxState::AfterEot
            &&& end.data == file
            &&& end.checksum == crc32_of(file)
            &&& end.filename == name
            &&& end.data_size == d
            &&& end.tx_ip == ip
            &&& spec_rx_timeout(end).state == RxState::Done
            &&& forall|i: int|
                0 <= i < queue.len() ==> spec_rx_action(
                    spec_rx_after(spec_rx_init(), queue, i),
                    #[trigger] queue[i],
                ) != RxAction::Ignore
        }),
{
    let queue = spec_tx_queue(file, name, d, ip);
    lemma_chunks_cover(file.len(), d);
    lemma_session_run(file, name, d, ip, queue.len() as int);
    assert forall|i: int| 0 <= i < queue.len() implies spec_rx_action(
        spec_rx_after(spec_rx_init(), queue, i),
        #[trigger] queue[i],
    ) != RxAction::Ignore by {
        lemma_session_run(file, name, d, ip, i);
    }
}

/// A corrupted frame changes nothing on the receiver and draws no reply: the
/// transmitter recovers by timing out and retransmitting.
pub proof fn lemma_corrupted_frame_ignored(pre: RxModel, b: Seq<u8>)
    requires
        !spec_frame_ok(b),
    ensures
        spec_rx_step(pre, b) == pre,
        spec_rx_action(pre, b) == RxAction::Ignore,
{
}

/// A duplicate frame — valid, but carrying the wrong sequence byte during
/// the data phase — changes nothing and is re-acknowledged with the sequence
/// byte of the previously accepted frame.
pub proof fn lemma_duplicate_frame_reacked(pre: RxModel, b: Seq<u8>)
    requires
        spec_frame_ok(b),
        pre.state == RxState::DataOrEof || pre.state == RxState::AwaitChecksum || pre.state
            == RxState::AwaitFilename,
        spec_frame_seq(b) != spec_expected_seq(pre.n),
    ensures
        spec_rx_step(pre, b) == pre,
        spec_rx_action(pre, b) == RxAction::Ack(spec_expected_seq(pre.n - 1)),
{
}

/// After the end of transmission the receiver absorbs any further valid
/// frame silently — it only re-acknowledges — and the next quiet period
/// still ends the session.
pub proof fn lemma_retransmission_after_eot_absorbed(pre: RxModel, b: Seq<u8>)
    requires
        pre.state == RxState::AfterEot,
        spec_frame_ok(b),
    ensures
        spec_rx_step(pre, b) == pre,
        spec_rx_action(pre, b) == RxAction::Ack(spec_expected_seq(pre.n)),
        spec_rx_timeout(spec_rx_step(pre, b)).state == RxState::Done,
{
}

/// The sequence byte an acknowledging action carries; meaningless for a
/// silent one.
pub open spec fn spec_ack_seq_of(a: RxAction) -> u8 {
    match a {
        RxAction::Ignore => 0,
        RxAction::Ack(s) => s,
        RxAction::ConnectAndAck(_, s) => s,
    }
}

/// One clean exchange of the duplex session: the transmitter sends its head
/// frame, the receiver digests it, and the acknowledgment — carrying the
/// receiver's address `rx_ip` — comes back intact and is digested in turn.
pub open spec fn spec_duplex_step(tx: TxModel, rx: RxModel, rx_ip: u32) -> (TxModel, RxModel)
    recommends
        0 <= tx.cursor < tx.frames.len(),
{
    let frame = tx.frames[tx.cursor];
    let ack = spec_ack_image(spec_ack_seq_of(spec_rx_action(rx, frame)), rx_ip);
    (spec_tx_step(tx, ack), spec_rx_step(rx, frame))
}

/// Both machines after `t` clean exchanges, starting from a fresh
/// transmitter for `file` and `name` at `tx_ip` and a fresh receiver at
/// `rx_ip`.
pub open spec fn spec_duplex_run(
    file: Seq<u8>,
    name: Seq<u8>,
    d: nat,
    tx_ip: u32,
    rx_ip: u32,
    t: int,
) -> (TxModel, RxModel)
    decreases t,
{
    if t <= 0 {
        (crate::tx::spec_tx_fresh(file, name, d, tx_ip), spec_rx_init())
    } else {
        let (tx_pre, rx_pre) = spec_duplex_run(file, name, d, tx_ip, rx_ip, t - 1);
        spec_duplex_step(tx_pre, rx_pre, rx_ip)
    }
}

/// After `t` clean exchanges the transmitter has delivered exactly `t`
/// frames and pinned the receiver's address, and the receiver is in its
/// `t`-th expected state.
proof fn lemma_duplex_run(file: Seq<u8>, name: Seq<u8>, d: nat, tx_ip: u32, rx_ip: u32, t: int)
    requires
        8 <= d,
        d <= 0xFFFF,
        name.len() <= 0xFFFF,
        spec_no_chunk_is_marker(file, d),
        0 <= t <= spec_queue_len(file.len(), d),
    ensures
        spec_duplex_run(file, name, d, tx_ip, rx_ip, t) == (
            TxModel {
                frames: spec_tx_queue(file, name, d, tx_ip),
                cursor: t,
                connected: t > 0,
                peer_ip: if t > 0 {
                    rx_ip
                } else {
                    0
                },
            },
            spec_session_model_at(file, name, d, tx_ip, t),
        ),
    decreases t,
{
    if t > 0 {
        lemma_duplex_run(file, name, d, tx_ip, rx_ip, t - 1);
        lemma_session_step(file, name, d, tx_ip, t - 1);
        let (tx_pre, rx_pre) = spec_duplex_run(file, name, d, tx_ip, rx_ip, t - 1);
        let frame = tx_pre.frames[tx_pre.cursor];
        lemma_clean_ack_advances_tx(
            tx_pre,
            spec_ack_seq_of(spec_rx_action(rx_pre, frame)),
            rx_ip,
        );
        assert(spec_duplex_run(file, name, d, tx_ip, rx_ip, t).0 =~= TxModel {
            frames: spec_tx_queue(file, name, d, tx_ip),
            cursor: t,
            connected: true,
            peer_ip: rx_ip,
        });
    } else {
        assert(spec_duplex_run(file, name, d, tx_ip, rx_ip, 0).0 =~= TxModel {
            frames: spec_tx_queue(file, name, d, tx_ip),
            cursor: 0,
            connected: false,
            peer_ip: 0,
        });
    }
}

/// The whole duplex session over a clean channel: each frame is sent once
/// and acknowledged once, the transmitter drains its queue, and the receiver
/// ends up holding exactly the file, the filename and the file's CRC-32; the
/// quiet period that follows ends its session.
pub proof fn lemma_clean_duplex_session(
    file: Seq<u8>,
    name: Seq<u8>,
    d: nat,
    tx_ip: u32,
    rx_ip: u32,
)
    requires
        8 <= d,
        d <= 0xFFFF,
        name.len() <= 0xFFFF,
        spec_no_chunk_is_marker(file, d),
    ensures
        ({
            let total = spec_queue_len(file.len(), d);
            let (tx_end, rx_end) = spec_duplex_run(file, name, d, tx_ip, rx_ip, total);
            &&& tx_end.cursor == tx_end.frames.len()
            &&& tx_end.connected
            &&& tx_end.peer_ip == rx_ip
            &&& rx_end.data == file
            &&& rx_end.filename == name
            &&& rx_end.checksum == crc32_of(file)
            &&& rx_end.state == RxState::AfterEot
            &&& spec_rx_timeout(rx_end).state == RxState::Done
        }),
{
    let total = spec_queue_len(file.len(), d);
    lemma_chunks_cover(file.len(), d);
    lemma_duplex_run(file, name, d, tx_ip, rx_ip, total);
}

/// A clean acknowledgment from the receiver at address `ip` always advances
/// the transmitter: it pins the peer and delivers the head frame, whatever
/// sequence byte it carries.
pub proof fn lemma_clean_ack_advances_tx(pre: TxModel, s: u8, ip: u32)
    ensures
        spec_tx_step(pre, spec_ack_image(s, ip)) == (TxModel {
            cursor: pre.cursor + 1,
            connected: true,
            peer_ip: ip,
            ..pre
        }),
        spec_tx_action(pre, spec_ack_image(s, ip)) == TxAction::Advance,
{
    lemma_ack_image_valid(s, ip);
    let b = spec_ack_image(s, ip);
    assert(b[2] == (ip >> 24) as u8);
    assert(b[3] == ((ip >> 16) & 0xFF) as u8);
    assert(b[4] == ((ip >> 8) & 0xFF) as u8);
    assert(b[5] == (ip & 0xFF) as u8);
    lemma_u32_be_roundtrip(ip);
}

} // verus!
