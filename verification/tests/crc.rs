use lspk::crc::checksum;

#[test]
fn checksum_of_the_digits_one_to_nine() {
    assert_eq!(checksum(b"123456789"), 0xCBF4_3926);
}

#[test]
fn checksum_of_nothing_is_zero() {
    assert_eq!(checksum(b""), 0);
}

#[test]
fn checksum_of_one_letter() {
    assert_eq!(checksum(b"a"), 0xE8B7_BE43);
}

#[test]
fn checksum_tells_neighbouring_contents_apart() {
    assert_ne!(checksum(b"abc"), checksum(b"abd"));
    assert_eq!(checksum(b"The quick brown fox jumps over the lazy dog"), 0x414F_A339);
}
