use wtop::gauge::{bar_cells, format_bytes, format_duration, BarCell};

#[test]
fn test_format_bytes() {
    assert_eq!(format_bytes(500), "500 B");
    assert_eq!(format_bytes(1024), "1.0 KB");
    assert_eq!(format_bytes(1024 * 1024 * 5), "5.0 MB");
    assert_eq!(format_bytes(1024 * 1024 * 1024 * 16), "16.00 GB");
}

#[test]
fn test_format_duration() {
    assert_eq!(format_duration(45), "0m 45s");
    assert_eq!(format_duration(3665), "1h 01m 05s");
    assert_eq!(format_duration(90000), "1d 01h 00m");
}

/// The same size formatted the way the unit tables describe it, through
/// `f64` and the standard formatter.
fn reference_bytes(bytes: u64) -> String {
    const KB: u64 = 1024;
    const MB: u64 = KB * 1024;
    const GB: u64 = MB * 1024;
    const TB: u64 = GB * 1024;
    if bytes >= TB {
        format!("{:.2} TB", bytes as f64 / TB as f64)
    } else if bytes >= GB {
        format!("{:.2} GB", bytes as f64 / GB as f64)
    } else if bytes >= MB {
        format!("{:.1} MB", bytes as f64 / MB as f64)
    } else if bytes >= KB {
        format!("{:.1} KB", bytes as f64 / KB as f64)
    } else {
        format!("{} B", bytes)
    }
}

#[test]
fn format_bytes_matches_float_formatting() {
    let mut samples: Vec<u64> = vec![0, 1, 1023, 1024, 1075, 1126, 1280, 1331, 1536, u64::MAX, u64::MAX - 1];
    for shift in 0..64u32 {
        let base = 1u64 << shift;
        for delta in [0u64, 1, 2, 3, 511, 512, 513, 1023, 1024, 1025, 4095, 4096] {
            samples.push(base.wrapping_add(delta));
            samples.push(base.wrapping_sub(delta));
            samples.push(base.wrapping_mul(3).wrapping_add(delta));
        }
    }
    let mut x: u64 = 0x9E3779B97F4A7C15;
    for _ in 0..20000 {
        x ^= x << 13;
        x ^= x >> 7;
        x ^= x << 17;
        samples.push(x >> (x % 64));
    }
    for b in samples {
        assert_eq!(format_bytes(b), reference_bytes(b), "bytes = {b}");
    }
}

#[test]
fn format_bytes_rounds_ties_to_even() {
    // 1280 bytes is exactly 1.25 KB.
    assert_eq!(format_bytes(1280), "1.2 KB");
    // 1.75 KB.
    assert_eq!(format_bytes(1792), "1.8 KB");
    assert_eq!(format_bytes(2 * 1024 * 1024 * 1024 * 1024), "2.00 TB");
    assert_eq!(format_bytes(u64::MAX), "16777216.00 TB");
}

#[test]
fn format_duration_edges() {
    assert_eq!(format_duration(0), "0m 00s");
    assert_eq!(format_duration(59), "0m 59s");
    assert_eq!(format_duration(3600), "1h 00m 00s");
    assert_eq!(format_duration(86399), "23h 59m 59s");
    assert_eq!(format_duration(86400), "1d 00h 00m");
    assert_eq!(format_duration(u64::MAX), "213503982334601d 07h 00m");
}

#[test]
fn bar_cells_fill_in_eighths() {
    let cells = bar_cells(19, 4, '·');
    let glyphs: String = cells.iter().map(|c| c.glyph).collect();
    assert_eq!(glyphs, "██▍·");
    assert_eq!(cells[2], BarCell { glyph: '▍', filled: true });
    assert_eq!(cells[3], BarCell { glyph: '·', filled: false });
    let empty: String = bar_cells(0, 3, '░').iter().map(|c| c.glyph).collect();
    assert_eq!(empty, "░░░");
    let full: String = bar_cells(24, 3, '░').iter().map(|c| c.glyph).collect();
    assert_eq!(full, "███");
}
