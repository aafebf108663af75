use wtop::updater::{has_pe_signature, is_newer, parse_version, release_update, GhAsset, GhRelease};

#[test]
fn is_newer_detects_bumps() {
    assert!(is_newer("1.0.1", "1.0.0"));
    assert!(is_newer("1.1.0", "1.0.9"));
    assert!(is_newer("2.0.0", "1.9.9"));
    assert!(!is_newer("1.0.0", "1.0.0"));
    assert!(!is_newer("1.0.0", "1.0.1"));
}

#[test]
fn is_newer_handles_malformed_versions() {
    assert!(!is_newer("garbage", "1.0.0"));
    assert!(is_newer("1.0.0", "garbage"));
    assert!(!is_newer("", ""));
}

#[test]
fn parse_version_follows_u32_parsing() {
    assert_eq!(parse_version("1.2.3"), (1, 2, 3));
    assert_eq!(parse_version("1.2"), (1, 2, 0));
    assert_eq!(parse_version("1.2.3.4"), (1, 2, 3));
    assert_eq!(parse_version("+1.x.3"), (1, 0, 3));
    assert_eq!(parse_version("4294967295.4294967296.007"), (4294967295, 0, 7));
    assert_eq!(parse_version("1..2"), (1, 0, 2));
    assert_eq!(parse_version("-1.2.3"), (0, 2, 3));
    assert_eq!(parse_version("+.2.3"), (0, 2, 3));
    for s in ["12", "+12", "-3", "", "+", "99999999999", "1 ", "٣"] {
        let expected = s.parse::<u32>().unwrap_or(0);
        assert_eq!(parse_version(s).0, expected, "input {s:?}");
    }
}

#[test]
fn verify_pe_binary_accepts_mz_header() {
    assert!(has_pe_signature(b"MZ\x90\x00rest-of-a-fake-pe"));
}

#[test]
fn verify_pe_binary_rejects_bad_or_empty_files() {
    assert!(!has_pe_signature(b"not a pe file"));
    assert!(!has_pe_signature(b""));
    assert!(!has_pe_signature(b"M"));
}

fn release(tag: &str, assets: &[(&str, &str)]) -> GhRelease {
    GhRelease {
        tag_name: tag.to_string(),
        assets: assets
            .iter()
            .map(|(n, u)| GhAsset { name: n.to_string(), browser_download_url: u.to_string() })
            .collect(),
    }
}

#[test]
fn release_update_offers_newer_matching_asset() {
    let r = release("v1.3.0", &[("wtop-arm64.exe", "arm"), ("wtop.exe", "x64"), ("wtop.exe", "dup")]);
    let info = release_update(&r, "wtop.exe", "1.2.9").expect("newer release");
    assert_eq!(info.version, "1.3.0");
    assert_eq!(info.asset_url, "x64");
    assert!(release_update(&r, "wtop.exe", "1.3.0").is_none());
    assert!(release_update(&r, "other.exe", "0.0.1").is_none());
    let vv = release("vv2.0.0", &[("wtop.exe", "u")]);
    assert_eq!(release_update(&vv, "wtop.exe", "1.0.0").unwrap().version, "2.0.0");
}
