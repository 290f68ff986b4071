use icmp_echo::checksum::{calc_checksum, validate};

#[test]
fn known_vector() {
    // Echo Request, id = 0, seq = 1, checksum field zeroed:
    // words 0x0800, 0x0000, 0x0000, 0x0001 sum to 0x0801; complement 0xF7FE.
    let data = [0x08u8, 0x00, 0x00, 0x00, 0x00, 0x00, 0x00, 0x01];
    assert_eq!(calc_checksum(&data), 0xF7FE);
}

#[test]
fn known_vector_validates_when_inserted() {
    let mut data = [0x08u8, 0x00, 0x00, 0x00, 0x00, 0x00, 0x00, 0x01];
    let c = calc_checksum(&data);
    data[2] = (c >> 8) as u8;
    data[3] = (c & 0xFF) as u8;
    assert!(validate(&data, 2));
}

#[test]
fn empty_buffer() {
    assert_eq!(calc_checksum(&[]), 0xFFFF);
}

#[test]
fn odd_length_equals_zero_padded() {
    let odd = [0x12u8, 0x34, 0x56];
    let padded = [0x12u8, 0x34, 0x56, 0x00];
    assert_eq!(calc_checksum(&odd), calc_checksum(&padded));

    let one = [0xABu8];
    let one_padded = [0xABu8, 0x00];
    assert_eq!(calc_checksum(&one), calc_checksum(&one_padded));
}

#[test]
fn carry_is_folded_back() {
    // 0xFFFF + 0xFFFF = 0x1FFFE; folding gives 0xFFFF, whose complement is 0.
    let data = [0xFFu8, 0xFF, 0xFF, 0xFF];
    assert_eq!(calc_checksum(&data), 0x0000);
}

#[test]
fn round_trip_concrete() {
    let mut data = vec![0x08u8, 0x00, 0x00, 0x00, 0x12, 0x34, 0x00, 0x07, 0xDE, 0xAD, 0xBE, 0xEF];
    let c = calc_checksum(&data);
    data[2] = (c >> 8) as u8;
    data[3] = (c & 0xFF) as u8;
    assert!(validate(&data, 2));
}

#[test]
fn corrupted_buffer_fails_validation() {
    let mut data = vec![0x08u8, 0x00, 0x00, 0x00, 0x12, 0x34, 0x00, 0x07];
    let c = calc_checksum(&data);
    data[2] = (c >> 8) as u8;
    data[3] = (c & 0xFF) as u8;
    data[7] ^= 0x01;
    assert!(!validate(&data, 2));
}
