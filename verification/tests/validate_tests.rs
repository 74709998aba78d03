use orqos::parse::parse_bytes;
use orqos::paths::path_within;
use orqos::paths::clean_path;
use orqos::validate::{validate_command, validate_container_id};

#[test]
fn accepts_well_formed_container_ids() {
    assert!(validate_container_id("abc").is_ok());
    assert!(validate_container_id("A1_b2.c-3").is_ok());
    assert!(validate_container_id(&"x".repeat(64)).is_ok());
}

#[test]
fn rejects_malformed_container_ids() {
    assert_eq!(validate_container_id(""), Err("Invalid container ID format"));
    assert_eq!(validate_container_id(&"x".repeat(65)), Err("Invalid container ID format"));
    assert_eq!(validate_container_id("has space"), Err("Invalid container ID format"));
    assert_eq!(validate_container_id("slash/y"), Err("Invalid container ID format"));
}

#[test]
fn rejects_empty_command() {
    assert_eq!(validate_command(&[]), Err("Command cannot be empty"));
    assert!(validate_command(&["ls".to_string()]).is_ok());
}

#[test]
fn parse_bytes_units() {
    assert_eq!(parse_bytes("1g"), 1024 * 1024 * 1024);
    assert_eq!(parse_bytes("2G"), 2 * 1024 * 1024 * 1024);
    assert_eq!(parse_bytes("512m"), 512 * 1024 * 1024);
    assert_eq!(parse_bytes("64k"), 64 * 1024);
    assert_eq!(parse_bytes("123"), 123);
}

#[test]
fn parse_bytes_trims_whitespace() {
    assert_eq!(parse_bytes("  3g  "), 3 * 1024 * 1024 * 1024);
    assert_eq!(parse_bytes("\t7k\n"), 7 * 1024);
}

#[test]
fn parse_bytes_fallbacks() {
    // A suffixed size whose number does not parse counts as one unit.
    assert_eq!(parse_bytes("g"), 1024 * 1024 * 1024);
    assert_eq!(parse_bytes("xg"), 1024 * 1024 * 1024);
    // An unsuffixed string that does not parse counts as zero.
    assert_eq!(parse_bytes(""), 0);
    assert_eq!(parse_bytes("nonsense"), 0);
    assert_eq!(parse_bytes("12.5"), 0);
}

#[test]
fn parse_bytes_plus_sign_and_saturation() {
    assert_eq!(parse_bytes("+5k"), 5 * 1024);
    // Too large to parse as u64: the suffixed fallback of one unit applies.
    assert_eq!(parse_bytes("99999999999999999999g"), 1024 * 1024 * 1024);
    // Parseable but the multiplication would overflow: saturates.
    assert_eq!(parse_bytes("18446744073709551615k"), u64::MAX);
}

#[test]
fn clean_path_normalizes() {
    assert_eq!(clean_path("/a/b/c"), Ok("/a/b/c".to_string()));
    assert_eq!(clean_path("/a/./b//c/"), Ok("/a/b/c".to_string()));
    assert_eq!(clean_path("/"), Ok("/".to_string()));
    assert_eq!(clean_path("/."), Ok("/".to_string()));
    assert_eq!(clean_path("/home/dev/.config"), Ok("/home/dev/.config".to_string()));
    assert_eq!(clean_path("/a/..b/c"), Ok("/a/..b/c".to_string()));
}

#[test]
fn clean_path_rejects_relative() {
    assert_eq!(clean_path(""), Err("path must be absolute"));
    assert_eq!(clean_path("a/b"), Err("path must be absolute"));
    assert_eq!(clean_path("./a"), Err("path must be absolute"));
}

#[test]
fn clean_path_rejects_traversal() {
    assert_eq!(clean_path("/a/../b"), Err("path traversal not allowed"));
    assert_eq!(clean_path("/.."), Err("path traversal not allowed"));
    assert_eq!(clean_path("/a/b/.."), Err("path traversal not allowed"));
}

#[test]
fn path_within_matches_whole_segments() {
    assert!(path_within("/home/dev/file", "/home"));
    assert!(path_within("/home", "/home"));
    assert!(path_within("/anything/at/all", "/"));
    // A mere string prefix is not containment.
    assert!(!path_within("/homework", "/home"));
    assert!(!path_within("/etc/passwd", "/home"));
    assert!(!path_within("/hom", "/home"));
}
