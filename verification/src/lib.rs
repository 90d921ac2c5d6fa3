//! A stop-and-wait file-transfer protocol over unreliable datagrams.
//!
//! A sender (TX) delivers one byte sequence and its filename to a receiver
//! (RX) across a channel that may corrupt any bit. Data travels in frames
//! protected by a CRC-32 checksum and a one-byte alternating sequence number;
//! every frame waits for a positive acknowledgment before the next is sent.
//!
//! This crate holds the wire codec and both endpoint state machines; the
//! datagram sockets, the command line and the filesystem live in the
//! accompanying application.

pub mod ack;
pub mod bytes_be;
pub mod frame;
pub mod nack;
pub mod packets;
pub mod rx;
pub mod session;
pub mod tx;

use vstd::prelude::*;

use crate::bytes_be::{
    lemma_u16_be_roundtrip, spec_u16_from_be, spec_u16_to_be, u16_from_be, u16_to_be,
};

verus! {

/// Well-known port the receiver binds to.
pub const RX_PORT: u16 = 29170;

/// Well-known port the transmitter binds to.
pub const TX_PORT: u16 = 29172;

/// Bytes of the length prefix in front of every enveloped payload.
pub const LEN_BYTES: usize = 2;

/// Length of the start-of-transmission payload: the marker plus a 4-byte IPv4.
pub const SOT_PAYLOAD_LEN: usize = 11;

/// Checksum (4 bytes) and sequence byte (1 byte) appended to every payload.
pub const FRAME_OVERHEAD_LEN: usize = 5;

/// Length of the transmission-parameters payload: one big-endian `u16`.
pub const TX_PARAMETERS_PAYLOAD_LEN: usize = 2;

/// The 7 ASCII bytes of `__SOT__`, the start-of-transmission marker.
pub open spec fn spec_sot_marker() -> Seq<u8> {
    seq![0x5Fu8, 0x5Fu8, 0x53u8, 0x4Fu8, 0x54u8, 0x5Fu8, 0x5Fu8]
}

/// The 7 ASCII bytes of `__SOF__`, the start-of-file marker.
pub open spec fn spec_sof_marker() -> Seq<u8> {
    seq![0x5Fu8, 0x5Fu8, 0x53u8, 0x4Fu8, 0x46u8, 0x5Fu8, 0x5Fu8]
}

/// The 7 ASCII bytes of `__EOF__`, the end-of-file marker.
pub open spec fn spec_eof_marker() -> Seq<u8> {
    seq![0x5Fu8, 0x5Fu8, 0x45u8, 0x4Fu8, 0x46u8, 0x5Fu8, 0x5Fu8]
}

/// The 7 ASCII bytes of `__EOT__`, the end-of-transmission marker.
pub open spec fn spec_eot_marker() -> Seq<u8> {
    seq![0x5Fu8, 0x5Fu8, 0x45u8, 0x4Fu8, 0x54u8, 0x5Fu8, 0x5Fu8]
}

pub fn sot_marker() -> (r: Vec<u8>)
    ensures
        r@ == spec_sot_marker(),
{
    let mut r: Vec<u8> = Vec::new();
    r.push(0x5F);
    r.push(0x5F);
    r.push(0x53);
    r.push(0x4F);
    r.push(0x54);
    r.push(0x5F);
    r.push(0x5F);
    proof {
        assert(r@ =~= spec_sot_marker());
    }
    r
}

pub fn sof_marker() -> (r: Vec<u8>)
    ensures
        r@ == spec_sof_marker(),
{
    let mut r: Vec<u8> = Vec::new();
    r.push(0x5F);
    r.push(0x5F);
    r.push(0x53);
    r.push(0x4F);
    r.push(0x46);
    r.push(0x5F);
    r.push(0x5F);
    proof {
        assert(r@ =~= spec_sof_marker());
    }
    r
}

pub fn eof_marker() -> (r: Vec<u8>)
    ensures
        r@ == spec_eof_marker(),
{
    let mut r: Vec<u8> = Vec::new();
    r.push(0x5F);
    r.push(0x5F);
    r.push(0x45);
    r.push(0x4F);
    r.push(0x46);
    r.push(0x5F);
    r.push(0x5F);
    proof {
        assert(r@ =~= spec_eof_marker());
    }
    r
}

pub fn eot_marker() -> (r: Vec<u8>)
    ensures
        r@ == spec_eot_marker(),
{
    let mut r: Vec<u8> = Vec::new();
    r.push(0x5F);
    r.push(0x5F);
    r.push(0x45);
    r.push(0x4F);
    r.push(0x54);
    r.push(0x5F);
    r.push(0x5F);
    proof {
        assert(r@ =~= spec_eot_marker());
    }
    r
}

/// Exact byte-for-byte equality of two slices.
pub fn bytes_eq(a: &[u8], b: &[u8]) -> (r: bool)
    ensures
        r == (a@ == b@),
{
    if a.len() != b.len() {
        proof {
            assert(a@.len() != b@.len());
        }
        return false;
    }
    let mut i: usize = 0;
    while i < a.len()
        invariant
            i <= a@.len(),
            a@.len() == b@.len(),
            forall|j: int| 0 <= j < i ==> a@[j] == b@[j],
        decreases a@.len() - i,
    {
        if a[i] != b[i] {
            return false;
        }
        i += 1;
    }
    proof {
        assert(a@ =~= b@);
    }
    true
}

/// Whether `a` begins with `prefix`, byte for byte.
pub fn bytes_starts_with(a: &[u8], prefix: &[u8]) -> (r: bool)
    ensures
        r == (a@.len() >= prefix@.len() && a@.take(prefix@.len() as int) == prefix@),
{
    if a.len() < prefix.len() {
        return false;
    }
    let mut i: usize = 0;
    while i < prefix.len()
        invariant
            i <= prefix@.len(),
            a@.len() >= prefix@.len(),
            forall|j: int| 0 <= j < i ==> a@[j] == prefix@[j],
        decreases prefix@.len() - i,
    {
        if a[i] != prefix[i] {
            assert(a@.take(prefix@.len() as int)[i as int] != prefix@[i as int]);
            return false;
        }
        i += 1;
    }
    proof {
        assert(a@.take(prefix@.len() as int) =~= prefix@);
    }
    true
}

/// The length-prefixed envelope: a 2-byte big-endian length `L`, the `L` data
/// bytes, then zero padding up to the fixed per-session data size `d`. The
/// envelope is `d + 2` bytes long; data longer than `d` is carried whole,
/// with no padding.
pub open spec fn spec_envelope(data: Seq<u8>, d: nat) -> Seq<u8>
    recommends
        data.len() <= 0xFFFF,
{
    spec_u16_to_be(data.len() as u16) + data + Seq::new(
        if data.len() <= d {
            (d - data.len()) as nat
        } else {
            0
        },
        |i: int| 0u8,
    )
}

/// Whether an envelope's length prefix is consistent with its size, so that
/// the data bytes can be sliced back out.
pub open spec fn spec_envelope_ok(b: Seq<u8>) -> bool {
    b.len() >= 2 && spec_u16_from_be(b[0], b[1]) + 2 <= b.len()
}

/// The data bytes held by an envelope: `b[2 .. 2 + L]`.
pub open spec fn spec_parse_envelope(b: Seq<u8>) -> Seq<u8>
    recommends
        spec_envelope_ok(b),
{
    b.subrange(2, 2 + spec_u16_from_be(b[0], b[1]) as int)
}

/// Builds the length-prefixed payload envelope: big-endian length, the data,
/// then zero padding up to `size + 2` total bytes. Data longer than `size`
/// is carried whole, with no padding.
pub fn build_len_prefixed_payload(data: &[u8], size: u16) -> (out: Vec<u8>)
    requires
        data@.len() <= 0xFFFF,
    ensures
        out@ == spec_envelope(data@, size as nat),
        data@.len() <= size ==> out@.len() == size + 2,
{
    let mut out: Vec<u8> = u16_to_be(data.len() as u16);
    out.extend_from_slice(data);
    while out.len() < (size as usize) + 2
        invariant
            data@.len() <= 0xFFFF,
            out@.len() >= 2 + data@.len(),
            data@.len() <= size ==> out@.len() <= size + 2,
            data@.len() > size ==> out@.len() == 2 + data@.len(),
            out@ == spec_u16_to_be(data@.len() as u16) + data@ + Seq::new(
                (out@.len() - 2 - data@.len()) as nat,
                |i: int| 0u8,
            ),
        decreases size + 2 - out@.len(),
    {
        out.push(0);
        proof {
            assert(out@ =~= spec_u16_to_be(data@.len() as u16) + data@ + Seq::new(
                (out@.len() - 2 - data@.len()) as nat,
                |i: int| 0u8,
            ));
        }
    }
    proof {
        assert(out@ =~= spec_envelope(data@, size as nat));
    }
    out
}

/// Parses the exact used bytes out of a length-prefixed payload.
pub fn parse_len_prefixed_payload(buf: &[u8]) -> (r: &[u8])
    requires
        spec_envelope_ok(buf@),
    ensures
        r@ == spec_parse_envelope(buf@),
{
    let len = u16_from_be(buf[0], buf[1]) as usize;
    vstd::slice::slice_subrange(buf, LEN_BYTES, LEN_BYTES + len)
}

/// Parsing an envelope gives back exactly the data it was built from.
pub proof fn lemma_envelope_roundtrip(data: Seq<u8>, d: nat)
    requires
        data.len() <= 0xFFFF,
    ensures
        data.len() <= d ==> spec_envelope(data, d).len() == d + 2,
        spec_envelope_ok(spec_envelope(data, d)),
        spec_parse_envelope(spec_envelope(data, d)) == data,
{
    let e = spec_envelope(data, d);
    let l = data.len() as u16;
    assert(e[0] == (l >> 8) as u8);
    assert(e[1] == (l & 0xFF) as u8);
    lemma_u16_be_roundtrip(l);
    assert(spec_u16_from_be(e[0], e[1]) == l);
    assert(spec_parse_envelope(e) =~= data);
}

} // verus!
