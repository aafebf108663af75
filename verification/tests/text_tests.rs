use std::borrow::Cow;
use wtop::text::{decimal_string, to_wide, trim, trim_nul, truncate};

#[test]
fn truncate_fits_exactly() {
    assert_eq!(truncate("hello", 5), Cow::Borrowed("hello"));
    assert_eq!(truncate("hi", 5), Cow::Borrowed("hi"));
}

#[test]
fn truncate_adds_ellipsis() {
    assert_eq!(truncate("NVIDIA GeForce RTX 4090", 10), "NVIDIA Ge…");
    assert_eq!(truncate("hello world", 6), "hello…");
}

#[test]
fn truncate_too_narrow_for_ellipsis_plus_content() {
    assert_eq!(truncate("hello", 3), "he…");
    assert_eq!(truncate("hello", 1), "…");
    assert_eq!(truncate("hello", 0), "");
}

#[test]
fn truncate_multibyte_safe() {
    let s = "日本語のGPU名前です";
    let t = truncate(s, 5);
    assert_eq!(t.chars().count(), 5);
    assert!(t.ends_with('…'));
}

#[test]
fn truncate_never_exceeds_budget() {
    let s = "Ethernet0 Long Adapter Name";
    for n in 0..40 {
        let t = truncate(s, n);
        assert!(t.chars().count() <= n);
        if s.chars().count() <= n {
            assert_eq!(t, s);
        }
    }
}

#[test]
fn decimal_matches_to_string() {
    for n in [0u64, 7, 10, 99, 100, 12345, u64::MAX] {
        assert_eq!(decimal_string(n), n.to_string());
    }
}

#[test]
fn to_wide_encodes_utf16_with_nul() {
    let s = r"\PhysicalDisk(_Total)\Disk Read Bytes/sec";
    let expected: Vec<u16> = s.encode_utf16().chain(std::iter::once(0)).collect();
    assert_eq!(to_wide(s), expected);
    let astral = "a😀é";
    let expected: Vec<u16> = astral.encode_utf16().chain(std::iter::once(0)).collect();
    assert_eq!(to_wide(astral), expected);
    assert_eq!(to_wide(""), vec![0u16]);
}

#[test]
fn trim_matches_std() {
    for s in ["  Intel(R) Core(TM) i7  ", "\t\nx\u{3000}", "", "   ", "a b"] {
        assert_eq!(trim(s), s.trim());
    }
    assert_eq!(trim_nul("\0\0AMD\0"), "AMD");
    assert_eq!(trim_nul("\0 x \0"), " x ");
}

#[test]
fn truncate_borrows_unless_it_cuts() {
    let s = "hello";
    match truncate(s, 5) {
        Cow::Borrowed(b) => assert_eq!(b.as_ptr(), s.as_ptr()),
        Cow::Owned(_) => panic!("a fitting text must not be copied"),
    }
    assert!(matches!(truncate(s, 0), Cow::Borrowed("")));
    assert!(matches!(truncate(s, 3), Cow::Owned(ref o) if o == "he…"));
}

#[test]
fn whitespace_matches_std_everywhere() {
    for v in 0u32..0x3100 {
        if let Some(c) = char::from_u32(v) {
            let s = format!("{c}x{c}");
            assert_eq!(trim(&s), s.trim(), "U+{v:04X}");
        }
    }
}
