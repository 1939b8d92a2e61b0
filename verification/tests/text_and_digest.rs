use graphite_workstation_core::device_seal::body_digest;
use graphite_workstation_core::digest::{digest_label, i64_to_le_bytes};
use graphite_workstation_core::text::{concat_str, i64_to_decimal, u128_to_decimal};

#[test]
fn decimal_rendering() {
    assert_eq!(u128_to_decimal(0), "0");
    assert_eq!(u128_to_decimal(9), "9");
    assert_eq!(u128_to_decimal(10), "10");
    assert_eq!(u128_to_decimal(1234567890), "1234567890");
    assert_eq!(u128_to_decimal(u128::MAX), u128::MAX.to_string());
    assert_eq!(i64_to_decimal(-1), "-1");
    assert_eq!(i64_to_decimal(i64::MIN), i64::MIN.to_string());
    assert_eq!(i64_to_decimal(i64::MAX), i64::MAX.to_string());
}

#[test]
fn hex_and_labels() {
    assert_eq!(digest_label(&[0x00, 0x0f, 0xa5, 0xff]), "sha256:000fa5ff");
    assert_eq!(digest_label(&[]), "sha256:");
    assert_eq!(digest_label(&[0xde, 0xad]), "sha256:dead");
    assert_eq!(
        body_digest(Some("abc")),
        "sha256:ba7816bf8f01cfea414140de5dae2223b00361a396177a9cb410ff61f20015ad"
    );
}

#[test]
fn little_endian_bytes() {
    assert_eq!(i64_to_le_bytes(258), vec![2, 1, 0, 0, 0, 0, 0, 0]);
    assert_eq!(i64_to_le_bytes(-1), vec![0xff; 8]);
    assert_eq!(i64_to_le_bytes(i64::MIN), i64::MIN.to_le_bytes().to_vec());
}

#[test]
fn string_helpers() {
    assert_eq!(concat_str("ab", "cd"), "abcd");
    assert_eq!(concat_str("", ""), "");
}
