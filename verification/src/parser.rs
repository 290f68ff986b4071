//! Parsing and validation of received datagrams. A datagram arrives with its
//! network-layer header still attached; the header's length is variable and is
//! derived from the header's own length field (low nibble of byte 0, counted
//! in 4-byte units), never assumed to be a fixed constant. The remainder must
//! be an ICMP Echo Reply with a correct Internet checksum.

use vstd::prelude::*;
use crate::checksum::{spec_checksum, spec_validate, validate};
use crate::packet::{
    echo_bytes, echo_layout, lemma_echo_bytes_validate, ECHO_REPLY_TYPE, ICMP_HEADER_LEN,
};

verus! {

/// Why a received datagram was rejected.
#[derive(Clone, Copy, PartialEq, Eq, Structural, Debug)]
pub enum ProtocolError {
    /// The datagram is shorter than the network-layer header it claims, or
    /// shorter than the minimum such header.
    TruncatedHeader,
    /// Fewer than the 8 ICMP header bytes remain after the network header.
    TruncatedIcmpMessage,
    /// The ICMP type is not Echo Reply.
    UnexpectedType,
    /// The stored checksum does not match the one computed over the message.
    ChecksumMismatch,
}

/// A parsed ICMP Echo message. The invariant of a parsed value: its stored
/// checksum validates over the full message with the checksum field zeroed.
#[derive(Debug, PartialEq, Eq)]
pub struct IcmpMessage {
    pub msg_type: u8,
    pub code: u8,
    pub checksum: u16,
    pub identifier: u16,
    pub sequence: u16,
    pub payload: Vec<u8>,
}

/// Mathematical image of an [`IcmpMessage`]: the same fields with the payload
/// as a byte sequence.
pub ghost struct IcmpFields {
    pub msg_type: u8,
    pub code: u8,
    pub checksum: u16,
    pub identifier: u16,
    pub sequence: u16,
    pub payload: Seq<u8>,
}

impl View for IcmpMessage {
    type V = IcmpFields;

    open spec fn view(&self) -> IcmpFields {
        IcmpFields {
            msg_type: self.msg_type,
            code: self.code,
            checksum: self.checksum,
            identifier: self.identifier,
            sequence: self.sequence,
            payload: self.payload@,
        }
    }
}

/// The wire form of a message's fields: the 8-byte header with all multi-byte
/// fields big-endian, then the payload.
pub open spec fn message_bytes(m: IcmpFields) -> Seq<u8> {
    seq![
        m.msg_type,
        m.code,
        (m.checksum / 0x100) as u8,
        (m.checksum % 0x100) as u8,
        (m.identifier / 0x100) as u8,
        (m.identifier % 0x100) as u8,
        (m.sequence / 0x100) as u8,
        (m.sequence % 0x100) as u8,
    ] + m.payload
}

/// The message invariant: the transmitted checksum equals the checksum of the
/// message's wire form with the checksum field zeroed.
pub open spec fn message_valid(m: IcmpFields) -> bool {
    spec_validate(message_bytes(m), 2)
}

/// Minimum length in bytes of the network-layer header preceding the ICMP
/// message.
pub const MIN_NET_HEADER_LEN: usize = 20;

/// Length in bytes of the network-layer header, taken from the header's own
/// length field: the low nibble of byte 0, in units of 4 bytes.
pub open spec fn spec_net_header_len(d: Seq<u8>) -> int {
    (d[0] % 16) * 4
}

/// What `parse` returns on each datagram, step by step: find the network
/// header's extent, slice off the ICMP candidate, check its length, type and
/// checksum, and read its fields from their fixed offsets.
pub open spec fn spec_parse(d: Seq<u8>) -> Result<IcmpFields, ProtocolError> {
    if d.len() < 20 {
        Err(ProtocolError::TruncatedHeader)
    } else {
        let hlen = spec_net_header_len(d);
        if hlen < 20 || d.len() < hlen {
            Err(ProtocolError::TruncatedHeader)
        } else {
            let icmp = d.subrange(hlen, d.len() as int);
            if icmp.len() < 8 {
                Err(ProtocolError::TruncatedIcmpMessage)
            } else if icmp[0] != 0 {
                Err(ProtocolError::UnexpectedType)
            } else if !spec_validate(icmp, 2) {
                Err(ProtocolError::ChecksumMismatch)
            } else {
                Ok(IcmpFields {
                    msg_type: icmp[0],
                    code: icmp[1],
                    checksum: (icmp[2] * 0x100 + icmp[3]) as u16,
                    identifier: (icmp[4] * 0x100 + icmp[5]) as u16,
                    sequence: (icmp[6] * 0x100 + icmp[7]) as u16,
                    payload: icmp.subrange(8, icmp.len() as int),
                })
            }
        }
    }
}

/// Every message that `parse` accepts satisfies the message invariant: its
/// wire form revalidates at the checksum field.
pub proof fn lemma_parsed_message_valid(d: Seq<u8>)
    requires
        spec_parse(d) is Ok,
    ensures
        message_valid(spec_parse(d).unwrap()),
{
    let hlen = spec_net_header_len(d);
    let icmp = d.subrange(hlen, d.len() as int);
    let m = spec_parse(d).unwrap();
    assert(icmp[2] * 0x100 + icmp[3] < 0x1_0000);
    assert(icmp[4] * 0x100 + icmp[5] < 0x1_0000);
    assert(icmp[6] * 0x100 + icmp[7] < 0x1_0000);
    assert((icmp[2] * 0x100 + icmp[3]) / 0x100 == icmp[2] && (icmp[2] * 0x100 + icmp[3]) % 0x100
        == icmp[3]) by (nonlinear_arith)
        requires 0 <= icmp[3] < 0x100;
    assert((icmp[4] * 0x100 + icmp[5]) / 0x100 == icmp[4] && (icmp[4] * 0x100 + icmp[5]) % 0x100
        == icmp[5]) by (nonlinear_arith)
        requires 0 <= icmp[5] < 0x100;
    assert((icmp[6] * 0x100 + icmp[7]) / 0x100 == icmp[6] && (icmp[6] * 0x100 + icmp[7]) % 0x100
        == icmp[7]) by (nonlinear_arith)
        requires 0 <= icmp[7] < 0x100;
    assert(message_bytes(m) =~= icmp);
}

/// Echo round trip: a reply whose fields were echoed from a request — type
/// rewritten to Echo Reply, checksum recomputed — parses back, behind any
/// minimal network header, to exactly the identifier, sequence and payload it
/// carries.
pub proof fn lemma_echoed_reply_parses(
    header: Seq<u8>,
    identifier: u16,
    sequence: u16,
    payload: Seq<u8>,
)
    requires
        header.len() == 20,
        header[0] % 16 == 5,
    ensures
        ({
            let reply = echo_bytes(0, identifier, sequence, payload);
            spec_parse(header + reply) == Ok::<IcmpFields, ProtocolError>(
                IcmpFields {
                    msg_type: 0,
                    code: 0,
                    checksum: spec_checksum(echo_layout(0, identifier, sequence, payload)),
                    identifier,
                    sequence,
                    payload,
                },
            )
        }),
{
    let zeroed = echo_layout(0, identifier, sequence, payload);
    let c = spec_checksum(zeroed);
    let reply = echo_bytes(0, identifier, sequence, payload);
    let d = header + reply;
    assert(d[0] == header[0]);
    assert(spec_net_header_len(d) == 20);
    let icmp = d.subrange(20, d.len() as int);
    assert(icmp =~= reply);
    assert(icmp[0] == zeroed[0]);
    lemma_echo_bytes_validate(0, identifier, sequence, payload);
    assert(icmp[2] == (c / 0x100) as u8 && icmp[3] == (c % 0x100) as u8);
    assert((c / 0x100) * 0x100 + c % 0x100 == c);
    assert(icmp[4] == (identifier / 0x100) as u8 && icmp[5] == (identifier % 0x100) as u8);
    assert((identifier / 0x100) * 0x100 + identifier % 0x100 == identifier);
    assert(icmp[6] == (sequence / 0x100) as u8 && icmp[7] == (sequence % 0x100) as u8);
    assert((sequence / 0x100) * 0x100 + sequence % 0x100 == sequence);
    assert(icmp.subrange(8, icmp.len() as int) =~= payload);
}

/// Parses a received datagram into an ICMP Echo Reply, rejecting truncated
/// input, non-reply types and checksum mismatches. Never reads past the end
/// of the datagram.
pub fn parse(datagram: &[u8]) -> (r: Result<IcmpMessage, ProtocolError>)
    ensures
        ({
            let s = spec_parse(datagram@);
            match r {
                Ok(m) => s == Ok::<IcmpFields, ProtocolError>(m@),
                Err(e) => s == Err::<IcmpFields, ProtocolError>(e),
            }
        }),
{
    if datagram.len() < MIN_NET_HEADER_LEN {
        return Err(ProtocolError::TruncatedHeader);
    }
    let hlen = (datagram[0] % 16) as usize * 4;
    if hlen < MIN_NET_HEADER_LEN || datagram.len() < hlen {
        return Err(ProtocolError::TruncatedHeader);
    }
    let (_, icmp) = datagram.split_at(hlen);
    assert(icmp@ =~= datagram@.subrange(spec_net_header_len(datagram@), datagram@.len() as int));
    if icmp.len() < ICMP_HEADER_LEN {
        return Err(ProtocolError::TruncatedIcmpMessage);
    }
    if icmp[0] != ECHO_REPLY_TYPE {
        return Err(ProtocolError::UnexpectedType);
    }
    if !validate(icmp, 2) {
        return Err(ProtocolError::ChecksumMismatch);
    }
    let n = icmp.len();
    let mut payload: Vec<u8> = Vec::new();
    let mut i: usize = 8;
    while i < n
        invariant
            8 <= i <= n,
            n == icmp@.len(),
            payload@ == icmp@.subrange(8, i as int),
        decreases n - i,
    {
        payload.push(icmp[i]);
        i = i + 1;
    }
    assert(payload@ =~= icmp@.subrange(8, icmp@.len() as int));
    Ok(IcmpMessage {
        msg_type: icmp[0],
        code: icmp[1],
        checksum: (icmp[2] as u16) * 0x100 + (icmp[3] as u16),
        identifier: (icmp[4] as u16) * 0x100 + (icmp[5] as u16),
        sequence: (icmp[6] as u16) * 0x100 + (icmp[7] as u16),
        payload,
    })
}

} // verus!
