use rla::config::emit_config;
use rla::config::parse_config;
use rla::config::RlaConfig;

fn cfg(smali_only: bool, git_enable: bool, jadx_enable: bool, force_override: bool) -> RlaConfig {
    RlaConfig { smali_only, git_enable, jadx_enable, force_override }
}

#[test]
fn emit_is_exact_json() {
    let c = cfg(false, true, true, false);
    let s = emit_config(&c);
    assert_eq!(
        String::from_utf8(s).unwrap(),
        "{\"smali_only\":false,\"git_enable\":true,\"jadx_enable\":true,\"force_override\":false}"
    );
}

#[test]
fn round_trip_all_combinations() {
    for bits in 0..16u32 {
        let c = cfg(bits & 1 != 0, bits & 2 != 0, bits & 4 != 0, bits & 8 != 0);
        let s = emit_config(&c);
        let back = parse_config(&s).expect("serialized configuration must parse");
        assert_eq!(back, c);
    }
}

#[test]
fn parse_accepts_whitespace_between_tokens() {
    let text = b" {\n  \"smali_only\" : true ,\n  \"git_enable\" : false ,\n  \"jadx_enable\" : true ,\n  \"force_override\" : false\n}\n".to_vec();
    let c = parse_config(&text).expect("whitespace variant must parse");
    assert_eq!(c, cfg(true, false, true, false));
}

#[test]
fn parse_rejects_garbage() {
    assert!(parse_config(&b"".to_vec()).is_none());
    assert!(parse_config(&b"{}".to_vec()).is_none());
    assert!(parse_config(&b"not json".to_vec()).is_none());
    assert!(parse_config(&b"{\"smali_only\":maybe}".to_vec()).is_none());
}

#[test]
fn parse_rejects_missing_field() {
    let text = b"{\"smali_only\":true,\"git_enable\":false,\"jadx_enable\":true}".to_vec();
    assert!(parse_config(&text).is_none());
}

#[test]
fn parse_rejects_trailing_bytes() {
    let c = cfg(true, true, true, true);
    let mut s = emit_config(&c);
    s.extend_from_slice(b"x");
    assert!(parse_config(&s).is_none());
}

#[test]
fn from_unpack_flags_inverts_switches() {
    let c = RlaConfig::from_unpack_flags(true, true, false, true);
    assert!(c.smali_only);
    assert!(!c.git_enable);
    assert!(c.jadx_enable);
    assert!(c.force_override);
}
