use icmp_echo::checksum::validate;
use icmp_echo::packet::{build_echo_request, create_icmp_echo_request};

#[test]
fn build_minimal_request() {
    // Layout with zero checksum: [8, 0, 0, 0, 0, 42, 0, 1]; word sum is
    // 0x0800 + 0x0000 + 0x002A + 0x0001 = 0x082B; complement 0xF7D4.
    let packet = build_echo_request(42, 1, &[]);
    assert_eq!(packet, vec![0x08, 0x00, 0xF7, 0xD4, 0x00, 0x2A, 0x00, 0x01]);
}

#[test]
fn built_request_validates() {
    let packet = build_echo_request(0x1234, 0x5678, &[9, 8, 7]);
    assert_eq!(packet.len(), 11);
    assert_eq!(packet[0], 8);
    assert_eq!(packet[1], 0);
    assert_eq!(&packet[4..6], &[0x12, 0x34]);
    assert_eq!(&packet[6..8], &[0x56, 0x78]);
    assert_eq!(&packet[8..], &[9, 8, 7]);
    assert!(validate(&packet, 2));
}

#[test]
fn create_matches_build_with_zero_identifier() {
    let arr = create_icmp_echo_request(1);
    let vec = build_echo_request(0, 1, &[]);
    assert_eq!(arr.to_vec(), vec);
    // Identifier 0, sequence 1 is the known vector; its checksum is 0xF7FE.
    assert_eq!(arr, [0x08, 0x00, 0xF7, 0xFE, 0x00, 0x00, 0x00, 0x01]);
    assert!(validate(&arr, 2));
}

#[test]
fn odd_length_packet_validates() {
    // A one-byte payload makes the whole buffer odd; the checksum pads the
    // final byte with zero instead of reading past the end.
    let packet = build_echo_request(1, 2, &[0xAA]);
    assert_eq!(packet.len(), 9);
    assert!(validate(&packet, 2));
}

#[test]
fn sequence_is_big_endian() {
    let packet = build_echo_request(0, 0xABCD, &[]);
    assert_eq!(packet[6], 0xAB);
    assert_eq!(packet[7], 0xCD);
}
