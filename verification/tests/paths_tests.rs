use rla::bytesutil::bytes_eq;
use rla::bytesutil::concat_bytes;
use rla::bytesutil::contains_bytes;
use rla::bytesutil::ends_with_bytes;
use rla::bytesutil::rfind_bytes;
use rla::num::format_u64;
use rla::num::parse_u64;
use rla::paths::file_name;
use rla::paths::has_dot_ext_bytes;
use rla::paths::is_apk_path_bytes;
use rla::paths::is_dex_path_bytes;
use rla::paths::join_path;
use rla::paths::stem;
use rla::paths::strip_apk_ext_bytes;

#[test]
fn file_name_takes_last_segment() {
    assert_eq!(file_name(&b"a/b/c.dex".to_vec()), b"c.dex".to_vec());
    assert_eq!(file_name(&b"c.dex".to_vec()), b"c.dex".to_vec());
    assert_eq!(file_name(&b"a/b/".to_vec()), b"".to_vec());
    assert_eq!(file_name(&b"".to_vec()), b"".to_vec());
}

#[test]
fn join_inserts_separator() {
    assert_eq!(join_path(&b"root".to_vec(), &b"bak.apk".to_vec()), b"root/bak.apk".to_vec());
}

#[test]
fn apk_extension_checks() {
    assert!(is_apk_path_bytes(&b"app.apk".to_vec()));
    assert!(is_apk_path_bytes(&b"dir/app.v2.apk".to_vec()));
    assert!(!is_apk_path_bytes(&b"app.txt".to_vec()));
    assert!(!is_apk_path_bytes(&b"app".to_vec()));
    // A bare `.apk` is a hidden file without an extension.
    assert!(!is_apk_path_bytes(&b".apk".to_vec()));
    assert!(!is_apk_path_bytes(&b"dir/.apk".to_vec()));
}

#[test]
fn dex_extension_checks() {
    assert!(is_dex_path_bytes(&b"classes.dex".to_vec()));
    assert!(is_dex_path_bytes(&b"unpacked/classes2.dex".to_vec()));
    assert!(!is_dex_path_bytes(&b"classes.dex.bak".to_vec()));
    assert!(!has_dot_ext_bytes(&b"x.apk".to_vec(), &b".dex".to_vec()));
}

#[test]
fn strip_apk_extension() {
    assert_eq!(strip_apk_ext_bytes(&b"work/app.apk".to_vec()), b"work/app".to_vec());
}

#[test]
fn stem_drops_extension_only() {
    assert_eq!(stem(&b"7.apk".to_vec()), b"7".to_vec());
    assert_eq!(stem(&b"7".to_vec()), b"7".to_vec());
    assert_eq!(stem(&b"a.b.c".to_vec()), b"a.b".to_vec());
    assert_eq!(stem(&b".hidden".to_vec()), b".hidden".to_vec());
}

#[test]
fn byte_helpers() {
    assert!(bytes_eq(&b"abc".to_vec(), &b"abc".to_vec()));
    assert!(!bytes_eq(&b"abc".to_vec(), &b"abd".to_vec()));
    assert!(ends_with_bytes(&b"x.apk".to_vec(), &b".apk".to_vec()));
    assert!(!ends_with_bytes(&b"x.apk".to_vec(), &b".dex".to_vec()));
    assert_eq!(concat_bytes(&b"ab".to_vec(), &b"cd".to_vec()), b"abcd".to_vec());
    assert_eq!(rfind_bytes(&b"a/b/c".to_vec(), b'/'), Some(3));
    assert_eq!(rfind_bytes(&b"abc".to_vec(), b'/'), None);
    let list = vec![b"one".to_vec(), b"two".to_vec()];
    assert!(contains_bytes(&list, &b"two".to_vec()));
    assert!(!contains_bytes(&list, &b"three".to_vec()));
}

#[test]
fn decimal_format_and_parse() {
    assert_eq!(format_u64(0), b"0".to_vec());
    assert_eq!(format_u64(7), b"7".to_vec());
    assert_eq!(format_u64(42), b"42".to_vec());
    assert_eq!(format_u64(1000), b"1000".to_vec());
    assert_eq!(format_u64(u64::MAX), b"18446744073709551615".to_vec());
    assert_eq!(parse_u64(&b"0".to_vec()), Some(0));
    assert_eq!(parse_u64(&b"123".to_vec()), Some(123));
    assert_eq!(parse_u64(&b"007".to_vec()), Some(7));
    assert_eq!(parse_u64(&b"18446744073709551615".to_vec()), Some(u64::MAX));
    assert_eq!(parse_u64(&b"18446744073709551616".to_vec()), None);
    assert_eq!(parse_u64(&b"".to_vec()), None);
    assert_eq!(parse_u64(&b"1a".to_vec()), None);
    assert_eq!(parse_u64(&b"-1".to_vec()), None);
}
