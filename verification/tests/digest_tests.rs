use custody_ledger::digest::digest_of;

#[test]
fn digest_of_abc_matches_known_vector() {
    let d = digest_of(&vec![0x61u8, 0x62, 0x63]).unwrap();
    let expected: [u8; 32] = [
        0xba, 0x78, 0x16, 0xbf, 0x8f, 0x01, 0xcf, 0xea, 0x41, 0x41, 0x40, 0xde, 0x5d, 0xae, 0x22,
        0x23, 0xb0, 0x03, 0x61, 0xa3, 0x96, 0x17, 0x7a, 0x9c, 0xb4, 0x10, 0xff, 0x61, 0xf2, 0x00,
        0x15, 0xad,
    ];
    assert_eq!(d, expected);
}

#[test]
fn digest_of_largest_input_returns() {
    let data = vec![7u8; 65536];
    assert!(digest_of(&data).is_some());
    let too_long = vec![7u8; 65537];
    assert!(digest_of(&too_long).is_none());
}
