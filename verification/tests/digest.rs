use steam_tools::digest::{hex_text, sha256_hex};
use steam_tools::scanner::pattern_file_name;

#[test]
fn digests_of_reference_vectors() {
    assert_eq!(
        sha256_hex(b""),
        "e3b0c44298fc1c149afbf4c8996fb92427ae41e4649b934ca495991b7852b855"
    );
    assert_eq!(
        sha256_hex(b"abc"),
        "ba7816bf8f01cfea414140de5dae2223b00361a396177a9cb410ff61f20015ad"
    );
}

#[test]
fn a_pattern_file_is_named_by_its_digest() {
    assert_eq!(
        pattern_file_name(b"abc"),
        "ba7816bf8f01cfea414140de5dae2223b00361a396177a9cb410ff61f20015ad.toml"
    );
}

#[test]
fn bytes_are_written_with_two_digits_each() {
    assert_eq!(hex_text(&[]), "");
    assert_eq!(hex_text(&[0, 0x0f, 0xa0, 0xff]), "000fa0ff");
    let all: Vec<u8> = (0..=255).collect();
    let expected: String = all.iter().map(|byte| format!("{byte:02x}")).collect();
    assert_eq!(hex_text(&all), expected);
}

#[test]
fn different_bytes_have_different_texts() {
    assert_ne!(hex_text(&[0x01, 0x23]), hex_text(&[0x12, 0x30]));
    assert_ne!(hex_text(&[0]), hex_text(&[0, 0]));
}
