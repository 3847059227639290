use para::hash::{cache_file_name, hash_text, to_hex};

const EMPTY_SHA256: &str = "e3b0c44298fc1c149afbf4c8996fb92427ae41e4649b934ca495991b7852b855";
const ABC_SHA256: &str = "ba7816bf8f01cfea414140de5dae2223b00361a396177a9cb410ff61f20015ad";

#[test]
fn strips_lf_and_crlf_terminators() {
    let (_, contents) = hash_text("a\nb\r\nc");
    assert_eq!(contents, "abc");
}

#[test]
fn keeps_lone_carriage_returns() {
    let (_, contents) = hash_text("a\rb\r");
    assert_eq!(contents, "a\rb\r");
    let (_, contents) = hash_text("x\r\r\ny");
    assert_eq!(contents, "x\ry");
}

#[test]
fn digest_of_empty_text() {
    let (digest, contents) = hash_text("");
    assert_eq!(contents, "");
    assert_eq!(digest, EMPTY_SHA256);
}

#[test]
fn digest_covers_stripped_contents() {
    let (digest, contents) = hash_text("abc\n");
    assert_eq!(contents, "abc");
    assert_eq!(digest, ABC_SHA256);
    let (digest, _) = hash_text("a\r\nb\nc\r\n");
    assert_eq!(digest, ABC_SHA256);
}

#[test]
fn line_endings_do_not_change_digest() {
    let (lf, _) = hash_text("export const x=1\nexport const y=2\n");
    let (crlf, _) = hash_text("export const x=1\r\nexport const y=2\r\n");
    assert_eq!(lf, crlf);
    let (other, _) = hash_text("export const x=2\n");
    assert_ne!(lf, other);
}

#[test]
fn hex_is_lowercase_two_digits_per_byte() {
    assert_eq!(to_hex(&[0x00, 0xab, 0x0f, 0x90]), "00ab0f90");
    assert_eq!(to_hex(&[]), "");
}

#[test]
fn cache_file_name_hashes_working_directory() {
    assert_eq!(cache_file_name(""), format!("{}.para", EMPTY_SHA256));
    assert_eq!(cache_file_name("abc"), format!("{}.para", ABC_SHA256));
}
