use sophon::serialize::PkgVersion;
use sophon::util::{calculate_md5_hash, check_pkg_file, FileCheckResult};

#[test]
fn digest_of_empty_input() {
    assert_eq!(calculate_md5_hash(b""), "d41d8cd98f00b204e9800998ecf8427e");
}

#[test]
fn digest_of_known_text() {
    assert_eq!(calculate_md5_hash(b"abc"), "900150983cd24fb0d6963f7d28e17f72");
    assert_eq!(
        calculate_md5_hash(b"The quick brown fox jumps over the lazy dog"),
        "9e107d9d372bb6826bd81d3542a419d6"
    );
}

#[test]
fn digest_is_thirty_two_lowercase_hex_chars() {
    let h = calculate_md5_hash(b"\x00\xff\x10binary");
    assert_eq!(h.len(), 32);
    assert!(h.chars().all(|c| c.is_ascii_hexdigit() && !c.is_ascii_uppercase()));
}

fn record(name: &str, md5: &str) -> PkgVersion {
    PkgVersion { remote_file: name.to_string(), md5: md5.to_string() }
}

#[test]
fn check_reports_missing_files() {
    let entry = record("a.bin", "d41d8cd98f00b204e9800998ecf8427e");
    assert_eq!(check_pkg_file(&entry, None), FileCheckResult::Missing);
}

#[test]
fn check_matches_on_equal_digest() {
    let entry = record("a.bin", "900150983cd24fb0d6963f7d28e17f72");
    let data = b"abc".to_vec();
    assert_eq!(check_pkg_file(&entry, Some(&data)), FileCheckResult::Matches);
}

#[test]
fn check_flags_a_differing_digest() {
    let entry = record("a.bin", "900150983cd24fb0d6963f7d28e17f72");
    let data = b"abd".to_vec();
    assert_eq!(check_pkg_file(&entry, Some(&data)), FileCheckResult::Mismatch);
}

#[test]
fn check_is_case_sensitive_about_the_recorded_digest() {
    // Records are expected in lowercase; an uppercase record never
    // matches, exactly as comparing the lowercase rendering verbatim.
    let entry = record("a.bin", "900150983CD24FB0D6963F7D28E17F72");
    let data = b"abc".to_vec();
    assert_eq!(check_pkg_file(&entry, Some(&data)), FileCheckResult::Mismatch);
}
