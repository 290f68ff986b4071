//! Construction of ICMP Echo Request packets: an 8-byte header (type, code,
//! checksum, identifier, sequence, all multi-byte fields big-endian) followed
//! by an arbitrary payload, with the Internet checksum computed over the whole
//! laid-out buffer and written into bytes 2..4.

use vstd::prelude::*;
use crate::checksum::{calc_checksum, lemma_checksum_round_trip, spec_checksum, spec_validate};

verus! {

/// ICMP message type of an Echo Request.
pub const ECHO_REQUEST_TYPE: u8 = 8;

/// ICMP message type of an Echo Reply.
pub const ECHO_REPLY_TYPE: u8 = 0;

/// Length in bytes of the fixed ICMP Echo header.
pub const ICMP_HEADER_LEN: usize = 8;

/// An Echo message laid out with a zero checksum placeholder: the type byte,
/// code 0, checksum 0, then identifier and sequence big-endian, then the
/// payload.
pub open spec fn echo_layout(msg_type: u8, identifier: u16, sequence: u16, payload: Seq<u8>) -> Seq<
    u8,
> {
    seq![
        msg_type,
        0u8,
        0u8,
        0u8,
        (identifier / 0x100) as u8,
        (identifier % 0x100) as u8,
        (sequence / 0x100) as u8,
        (sequence % 0x100) as u8,
    ] + payload
}

/// The finished Echo message: the layout with its own checksum written
/// big-endian into bytes 2 and 3.
pub open spec fn echo_bytes(msg_type: u8, identifier: u16, sequence: u16, payload: Seq<u8>) -> Seq<
    u8,
> {
    let zeroed = echo_layout(msg_type, identifier, sequence, payload);
    let c = spec_checksum(zeroed);
    zeroed.update(2, (c / 0x100) as u8).update(3, (c % 0x100) as u8)
}

/// The finished Echo Request carrying `identifier`, `sequence` and `payload`.
pub open spec fn echo_request_bytes(identifier: u16, sequence: u16, payload: Seq<u8>) -> Seq<u8> {
    echo_bytes(ECHO_REQUEST_TYPE, identifier, sequence, payload)
}

/// Every finished Echo message carries a checksum that validates: writing the
/// checksum of the zero-checksum layout into bytes 2 and 3 yields a buffer
/// whose stored checksum matches the one recomputed with the field zeroed.
pub proof fn lemma_echo_bytes_validate(
    msg_type: u8,
    identifier: u16,
    sequence: u16,
    payload: Seq<u8>,
)
    ensures
        spec_validate(echo_bytes(msg_type, identifier, sequence, payload), 2),
{
    let zeroed = echo_layout(msg_type, identifier, sequence, payload);
    lemma_checksum_round_trip(zeroed, 2);
}

/// Builds an ICMP Echo Request carrying `identifier`, `sequence` and
/// `payload`, with a correct Internet checksum. Pure construction: the result
/// depends on the arguments alone.
pub fn build_echo_request(identifier: u16, sequence: u16, payload: &[u8]) -> (r: Vec<u8>)
    ensures
        r@ == echo_request_bytes(identifier, sequence, payload@),
        r@.len() == 8 + payload@.len(),
{
    let mut packet: Vec<u8> = Vec::new();
    packet.push(ECHO_REQUEST_TYPE);
    packet.push(0);
    packet.push(0);
    packet.push(0);
    packet.push((identifier / 0x100) as u8);
    packet.push((identifier % 0x100) as u8);
    packet.push((sequence / 0x100) as u8);
    packet.push((sequence % 0x100) as u8);
    packet.extend_from_slice(payload);
    assert(packet@ =~= echo_layout(ECHO_REQUEST_TYPE, identifier, sequence, payload@));
    let c = calc_checksum(packet.as_slice());
    packet[2] = (c / 0x100) as u8;
    packet[3] = (c % 0x100) as u8;
    packet
}

/// Builds the 8-byte Echo Request of the minimal ping: identifier 0, the given
/// sequence number, and no payload.
pub fn create_icmp_echo_request(seq: u16) -> (r: [u8; 8])
    ensures
        r@ == echo_request_bytes(0u16, seq, Seq::<u8>::empty()),
{
    let v = build_echo_request(0, seq, &[]);
    assert(v@.len() == 8);
    let r: [u8; 8] = [v[0], v[1], v[2], v[3], v[4], v[5], v[6], v[7]];
    assert(r@ =~= v@);
    r
}

} // verus!
