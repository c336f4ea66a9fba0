//! Rendering, identity and hashing behaviour on concrete values.

use stash::ids::Identity;
use stash::text::{u64_string, i64_string, str_eq, string_of_chars};
use stash::hashing::calculate_hash;
use stash::display::{format_bytes, humanize_size, humanize_duration};
use stash::permissions::{
    add_permissions, remove_permissions, make_executable, make_writable, reset_to_default,
    OWNER_EXEC, OWNER_WRITE, GROUP_WRITE,
};
use stash::compression::CompressionLevel;
use stash::config::Config;
use stash::paths::{join_path, file_name_of, common_root, AppDirs};
use stash::search::contains_ci;

#[test]
fn decimal_rendering() {
    assert_eq!(u64_string(0), "0");
    assert_eq!(u64_string(7), "7");
    assert_eq!(u64_string(1234567890), "1234567890");
    assert_eq!(i64_string(-5), "-5");
    assert_eq!(i64_string(42), "42");
    assert_eq!(i64_string(i64::MIN), "-9223372036854775808");
}

#[test]
fn string_helpers() {
    assert!(str_eq("abc", "abc"));
    assert!(!str_eq("abc", "abd"));
    assert!(!str_eq("abc", "ab"));
    let v = vec!['s', 't', 'a', 's', 'h'];
    assert_eq!(string_of_chars(&v), "stash");
}

#[test]
fn identity_rendering_matches_canonical_form() {
    let id = Identity { hi: 0x0123456789abcdef, lo: 0xfedcba9876543210 };
    assert_eq!(id.to_hyphenated(), "01234567-89ab-cdef-fedc-ba9876543210");
    assert_eq!(id.short(), "012345");
    // Cross-check against the uuid crate's own rendering of the same bits.
    let reference = uuid::Uuid::from_u64_pair(0x0123456789abcdef, 0xfedcba9876543210);
    assert_eq!(id.to_hyphenated(), reference.hyphenated().to_string());
}

#[test]
fn identity_parse_round_trip() {
    let id = Identity { hi: 0xdeadbeef00112233, lo: 0x4455667788990011 };
    let text = id.to_hyphenated();
    let back = Identity::parse(text.as_str()).expect("canonical form parses");
    assert_eq!(back.hi, id.hi);
    assert_eq!(back.lo, id.lo);
}

#[test]
fn identity_parse_rejects_malformed_text() {
    assert!(Identity::parse("").is_none());
    assert!(Identity::parse("report.pdf").is_none());
    assert!(Identity::parse("01234567-89ab-cdef-fedc-ba987654321").is_none());
    assert!(Identity::parse("01234567089ab-cdef-fedc-ba9876543210").is_none());
    assert!(Identity::parse("01234567-89ab-cdef-fedc-ba987654321g").is_none());
    // Upper-case digits are not the canonical rendering.
    assert!(Identity::parse("01234567-89AB-CDEF-FEDC-BA9876543210").is_none());
}

#[test]
fn content_hash_of_known_bytes() {
    let empty: Vec<u8> = Vec::new();
    assert_eq!(
        calculate_hash(&empty),
        "sha256:e3b0c44298fc1c149afbf4c8996fb92427ae41e4649b934ca495991b7852b855"
    );
    let abc: Vec<u8> = vec![b'a', b'b', b'c'];
    assert_eq!(
        calculate_hash(&abc),
        "sha256:ba7816bf8f01cfea414140de5dae2223b00361a396177a9cb410ff61f20015ad"
    );
}

#[test]
fn byte_formatting() {
    assert_eq!(format_bytes(0), "0 B");
    assert_eq!(format_bytes(512), "512 B");
    assert_eq!(format_bytes(1024), "1.00 KB");
    assert_eq!(format_bytes(1536), "1.50 KB");
    assert_eq!(format_bytes(3 * 1024 * 1024), "3.00 MB");
    assert_eq!(format_bytes(5 * 1024 * 1024 * 1024), "5.00 GB");
    assert_eq!(format_bytes(2 * 1024 * 1024 * 1024 * 1024), "2.00 TB");
}

#[test]
fn compact_size_formatting() {
    assert_eq!(humanize_size(900), "900B");
    assert_eq!(humanize_size(2048), "2KB");
    assert_eq!(humanize_size(2 * 1024 * 1024 + 512 * 1024), "2.5MB");
    assert_eq!(humanize_size(3 * 1024 * 1024 * 1024), "3.0GB");
}

#[test]
fn age_formatting() {
    let now = 1_700_000_000;
    assert_eq!(humanize_duration(now, now), "just now");
    assert_eq!(humanize_duration(now - 30, now), "just now");
    assert_eq!(humanize_duration(now - 90, now), "1 minute ago");
    assert_eq!(humanize_duration(now - 600, now), "10 minutes ago");
    assert_eq!(humanize_duration(now - 3 * 3600, now), "3 hours ago");
    assert_eq!(humanize_duration(now - 86400, now), "1 day ago");
    assert_eq!(humanize_duration(now - 5 * 86400, now), "5 days ago");
    assert_eq!(humanize_duration(now + 50, now), "just now");
}

#[test]
fn permission_bit_arithmetic() {
    assert_eq!(reset_to_default(), 0o644);
    assert_eq!(add_permissions(0o644, OWNER_EXEC), 0o744);
    assert_eq!(remove_permissions(0o664, GROUP_WRITE), 0o644);
    assert_eq!(make_executable(0o600), 0o700);
    assert_eq!(make_writable(0o444), 0o644);
    assert_eq!(add_permissions(0o644, OWNER_WRITE), 0o644);
}

#[test]
fn compression_levels() {
    assert!(!CompressionLevel::Fast.is_bzip2());
    assert!(!CompressionLevel::Medium.is_bzip2());
    assert!(!CompressionLevel::Maximum.is_bzip2());
    assert!(CompressionLevel::Extreme.is_bzip2());
    assert_eq!(CompressionLevel::Medium.extension(), "tar.gz");
    assert_eq!(CompressionLevel::Extreme.extension(), "tar.bz2");
}

#[test]
fn config_defaults() {
    let c = Config::default();
    assert_eq!(c.stash_dir, ".stash");
    assert_eq!(c.clean_days, 30);
    assert_eq!(c.warn_size_mb, 100);
    assert!(c.preserve_mtime);
    assert!(c.verify_integrity);
    assert!(!c.follow_symlinks);
    assert_eq!(c.date_format, "%Y-%m-%d %H:%M");
    assert!(c.show_sizes);
    assert!(!c.compress_entries);
}

#[test]
fn path_text() {
    assert_eq!(join_path("a/b", "c.txt"), "a/b/c.txt");
    assert_eq!(file_name_of("dir/sub/report.pdf"), "report.pdf");
    assert_eq!(file_name_of("report.pdf"), "report.pdf");
    assert_eq!(file_name_of("dir/"), "");
}

#[test]
fn app_directory_layout() {
    let dirs = AppDirs::from_roots("/home/u".to_string(), "/home/u/.config".to_string());
    assert_eq!(dirs.data_dir, "/home/u/.stash");
    assert_eq!(dirs.entries_dir, "/home/u/.stash/entries");
    assert_eq!(dirs.index_file, "/home/u/.stash/index.json");
    assert_eq!(dirs.journal_file, "/home/u/.stash/journal.log");
    assert_eq!(dirs.config_dir, "/home/u/.config/stash");
    assert_eq!(dirs.config_file, "/home/u/.config/stash/config.toml");
}

#[test]
fn shared_path_prefix() {
    let paths = vec![
        vec!["top".to_string(), "a".to_string(), "x".to_string()],
        vec!["top".to_string(), "a".to_string(), "y".to_string()],
        vec!["top".to_string(), "b".to_string()],
    ];
    let root = common_root(&paths);
    assert_eq!(root, vec!["top".to_string()]);
    let empty: Vec<Vec<String>> = Vec::new();
    assert_eq!(common_root(&empty).len(), 0);
}

#[test]
fn case_insensitive_containment() {
    assert!(contains_ci("Hello World", "o w"));
    assert!(contains_ci("REPORT.PDF", "report"));
    assert!(!contains_ci("notes.txt", "report"));
    assert!(contains_ci("anything", ""));
}
