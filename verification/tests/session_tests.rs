use icmp_echo::checksum::calc_checksum;
use icmp_echo::packet::build_echo_request;
use icmp_echo::parser::ProtocolError;
use icmp_echo::session::{ProbeResult, ProbeSession};

/// A well-formed Echo Reply datagram (20-byte network header included) for
/// the given identifier and sequence.
fn reply_datagram(identifier: u16, sequence: u16) -> Vec<u8> {
    let mut message = build_echo_request(identifier, sequence, &[]);
    message[0] = 0;
    message[2] = 0;
    message[3] = 0;
    let c = calc_checksum(&message);
    message[2] = (c >> 8) as u8;
    message[3] = (c & 0xFF) as u8;
    let mut datagram = vec![0u8; 20];
    datagram[0] = 0x45;
    datagram.extend_from_slice(&message);
    datagram
}

#[test]
fn begin_probe_builds_the_request() {
    let mut session = ProbeSession::new();
    let bytes = session.begin_probe(42, 1, &[], 1000);
    assert_eq!(bytes, build_echo_request(42, 1, &[]));
    assert_eq!(session.outstanding_count(), 1);
    assert!(session.contains_probe(42, 1));
}

#[test]
fn reply_resolves_only_the_matching_probe() {
    // Two outstanding probes, sequences 5 and 6; a reply carrying sequence 6
    // resolves only that probe and the sequence-5 probe stays outstanding.
    let mut session = ProbeSession::new();
    session.begin_probe(7, 5, &[], 100);
    session.begin_probe(7, 6, &[], 110);

    let result = session.on_datagram(&reply_datagram(7, 6), 160);
    assert_eq!(
        result,
        Some(ProbeResult::ReplyReceived { sequence: 6, round_trip_time: 50 })
    );
    assert!(session.contains_probe(7, 5));
    assert!(!session.contains_probe(7, 6));
    assert_eq!(session.outstanding_count(), 1);
}

#[test]
fn mismatched_reply_is_not_ours() {
    // A stale or foreign reply leaves every probe outstanding.
    let mut session = ProbeSession::new();
    session.begin_probe(7, 5, &[], 100);

    assert_eq!(session.on_datagram(&reply_datagram(7, 99), 150), None);
    assert_eq!(session.on_datagram(&reply_datagram(8, 5), 150), None);
    assert!(session.contains_probe(7, 5));
    assert_eq!(session.outstanding_count(), 1);
}

#[test]
fn malformed_datagram_is_a_protocol_failure() {
    let mut session = ProbeSession::new();
    session.begin_probe(7, 5, &[], 100);

    let result = session.on_datagram(&[0u8; 4], 150);
    assert_eq!(
        result,
        Some(ProbeResult::ProtocolFailed(ProtocolError::TruncatedHeader))
    );
    // Reported, not retried; the probe is untouched and the caller decides.
    assert!(session.contains_probe(7, 5));
}

#[test]
fn timeout_releases_the_probe() {
    // No reply within the bound: the probe leaves the outstanding mapping, so
    // a late reply can no longer resolve it.
    let mut session = ProbeSession::new();
    session.begin_probe(42, 1, &[], 100);

    let result = session.on_timeout(42, 1);
    assert_eq!(result, ProbeResult::TimedOut);
    assert!(!session.contains_probe(42, 1));
    assert_eq!(session.outstanding_count(), 0);

    assert_eq!(session.on_datagram(&reply_datagram(42, 1), 9000), None);
}

#[test]
fn cancel_releases_the_probe_once() {
    let mut session = ProbeSession::new();
    session.begin_probe(1, 2, &[], 10);
    assert!(session.cancel(1, 2));
    assert!(!session.cancel(1, 2));
    assert_eq!(session.outstanding_count(), 0);
}

#[test]
fn round_trip_time_is_measured_from_the_probe() {
    let mut session = ProbeSession::new();
    session.begin_probe(3, 1, &[], 1_000);
    session.begin_probe(3, 2, &[], 2_000);

    let result = session.on_datagram(&reply_datagram(3, 1), 2_500);
    assert_eq!(
        result,
        Some(ProbeResult::ReplyReceived { sequence: 1, round_trip_time: 1_500 })
    );
}

#[test]
fn duplicate_probes_resolve_first_in_first_out() {
    let mut session = ProbeSession::new();
    session.begin_probe(5, 5, &[], 100);
    session.begin_probe(5, 5, &[], 200);

    let result = session.on_datagram(&reply_datagram(5, 5), 260);
    assert_eq!(
        result,
        Some(ProbeResult::ReplyReceived { sequence: 5, round_trip_time: 160 })
    );
    assert_eq!(session.outstanding_count(), 1);
}
