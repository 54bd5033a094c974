use pulse_orbit::text::{chars_of, contains_bytes, contains_chars, str_eq};

#[test]
fn string_equality_and_containment() {
    assert!(str_eq("disk0", "disk0"));
    assert!(!str_eq("disk0", "disk01"));
    assert!(str_eq("", ""));
    let hay = chars_of("disk0s1");
    assert!(contains_chars(&hay, &chars_of("k0s")));
    assert!(contains_chars(&hay, &chars_of("")));
    assert!(!contains_chars(&hay, &chars_of("disk1")));
    assert!(contains_bytes(b"Apple M3", b"Apple"));
    assert!(!contains_bytes(b"Appl", b"Apple"));
}
