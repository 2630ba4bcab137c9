use wandb_ft::backend::Backend;
use wandb_ft::digest::{digest_bytes, sha256_hex};
use wandb_ft::text::{chars_of, decimal_string, find_char, hex_string, string_from_chars, trim_range};

#[test]
fn decimal_renders_without_leading_zeros() {
    assert_eq!(decimal_string(0), "0");
    assert_eq!(decimal_string(7), "7");
    assert_eq!(decimal_string(10), "10");
    assert_eq!(decimal_string(1234567890123), "1234567890123");
    assert_eq!(decimal_string(u128::MAX), u128::MAX.to_string());
}

#[test]
fn hex_renders_two_lower_case_digits_per_byte() {
    assert_eq!(hex_string(&[]), "");
    assert_eq!(hex_string(&[0x00, 0x0f, 0xab, 0xff]), "000fabff");
}

#[test]
fn trim_removes_unicode_white_space_at_both_ends() {
    let v = chars_of(" \t\u{3000}a b\u{a0}\n");
    assert_eq!(trim_range(&v, 0, v.len()), "a b");
    let w = chars_of("   ");
    assert_eq!(trim_range(&w, 0, w.len()), "");
    let x = chars_of("xy  z");
    assert_eq!(trim_range(&x, 1, 4), "y");
}

#[test]
fn chars_round_trip() {
    let v = chars_of("héllo ✓");
    assert_eq!(v.len(), 7);
    assert_eq!(string_from_chars(&v), "héllo ✓");
    assert_eq!(find_char(&v, 'l'), Some(2));
    assert_eq!(find_char(&v, 'z'), None);
}

#[test]
fn sha256_hex_of_known_inputs() {
    assert_eq!(
        sha256_hex(b"abc"),
        "ba7816bf8f01cfea414140de5dae2223b00361a396177a9cb410ff61f20015ad"
    );
    assert_eq!(
        sha256_hex(b""),
        "e3b0c44298fc1c149afbf4c8996fb92427ae41e4649b934ca495991b7852b855"
    );
}

#[test]
fn base64_standard_with_padding() {
    assert_eq!(Backend::new("").authorization(), "Basic YXBpOg==");
    assert_eq!(Backend::new("k").authorization(), "Basic YXBpOms=");
    assert_eq!(Backend::new("ke").authorization(), "Basic YXBpOmtl");
    assert_eq!(Backend::new("\u{7ff}").authorization(), "Basic YXBpOt+/");
}

#[test]
fn digest_is_base64_of_md5() {
    assert_eq!(digest_bytes(b""), "1B2M2Y8AsgTpgAmY7PhCfg==");
    assert_eq!(digest_bytes(b"abc"), "kAFQmDzST7DWlj99KOF/cg==");
}

#[test]
fn digests_have_24_characters() {
    for input in [&b""[..], b"a", b"hello world", &[0u8; 1000][..]] {
        assert_eq!(digest_bytes(input).len(), 24);
    }
}
