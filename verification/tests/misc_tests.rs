use wtop::braille::{braille_cell, braille_grid, latest_window};
use wtop::devices::{adapter_name, cpu_model_from_brand, drive_space, is_listed_drive, split_drive_strings, DriveSpace};
use wtop::history::push_bounded;
use wtop::network::{interface_totals_fit, summarize_interfaces, InterfaceRow, InterfaceSummary, NetworkTracker, TrafficDelta};
use wtop::cli::drive_label;
use wtop::process::is_listed;
use wtop::theme::{Rgb, Theme, TextStyle};
use wtop::config::ThemeMode;

#[test]
fn history_keeps_the_newest_samples() {
    let mut h: Vec<f64> = Vec::new();
    for i in 0..5 {
        push_bounded(&mut h, i as f64, 3);
        assert!(h.len() <= 3);
    }
    assert_eq!(h, vec![2.0, 3.0, 4.0]);
}

#[test]
fn braille_cells_fill_from_the_bottom() {
    assert_eq!(braille_cell(0, 0, 0, true), ' ');
    assert_eq!(braille_cell(0, 4, 4, true), '\u{28FF}');
    assert_eq!(braille_cell(0, 1, 0, true), '\u{2840}');
    assert_eq!(braille_cell(0, 2, 1, false), '\u{28C4}');
    assert_eq!(braille_cell(4, 3, 9, true), '\u{28B8}');
    let grid = braille_grid(&vec![8, 4, 0, 2], 2, true);
    assert_eq!(grid.len(), 2);
    assert_eq!(grid[0], vec!['\u{2847}', ' ']);
    assert_eq!(grid[1], vec!['\u{28FF}', '\u{28A0}']);
}

#[test]
fn window_pads_and_keeps_newest() {
    assert_eq!(latest_window(&[1, 2, 3], 5, 0), vec![0, 0, 1, 2, 3]);
    assert_eq!(latest_window(&[1, 2, 3, 4, 5, 6], 4, 0), vec![3, 4, 5, 6]);
    assert_eq!(latest_window::<u8>(&[], 2, 9), vec![9, 9]);
}

#[test]
fn device_names() {
    let mut brand = [0u8; 48];
    brand[..22].copy_from_slice(b"  AMD Ryzen 9 7950X   ");
    assert_eq!(cpu_model_from_brand(&brand), "AMD Ryzen 9 7950X");
    assert_eq!(cpu_model_from_brand(&[0u8; 48]), "Windows Processor");
    assert_eq!(cpu_model_from_brand(&[0xFFu8; 48]), "Windows Processor");
    assert_eq!(adapter_name("  NVIDIA GeForce RTX 4090 "), "NVIDIA GeForce RTX 4090");
    assert_eq!(adapter_name("   "), "GPU (WDDM Adapter)");
}

#[test]
fn drive_strings_split_on_nul() {
    let s: Vec<u16> = "C:\\\0D:\\\0\0E:".encode_utf16().collect();
    let parts = split_drive_strings(&s, s.len());
    let names: Vec<String> = parts.iter().map(|p| String::from_utf16_lossy(p)).collect();
    assert_eq!(names, vec!["C:\\".to_string(), "D:\\".to_string()]);
    assert_eq!(split_drive_strings(&s, 3).len(), 0);
    assert_eq!(drive_space(3, true, 100, 40), Some(DriveSpace { total_bytes: 100, free_bytes: 40, used_bytes: 60 }));
    assert_eq!(drive_space(2, true, 100, 140).map(|d| d.used_bytes), Some(0));
    assert_eq!(drive_space(4, true, 100, 40), None);
    assert_eq!(drive_space(3, false, 100, 40), None);
    assert_eq!(drive_space(3, true, 0, 0), None);
}

fn row(up: bool, ty: u32, rx: u64, tx: u64, desc: &str) -> InterfaceRow {
    InterfaceRow { oper_status: if up { 1 } else { 2 }, if_type: ty, in_octets: rx, out_octets: tx, description: desc.to_string() }
}

#[test]
fn interfaces_and_traffic() {
    let rows = vec![
        row(true, 6, 100, 50, " Ethernet "),
        row(true, 24, 10_000, 10_000, "Loopback"),
        row(false, 6, 9_000, 9_000, "Down"),
        row(true, 71, 500, 0, "   "),
        row(true, 71, 120, 40, "Wi-Fi"),
    ];
    let s = summarize_interfaces(&rows);
    assert_eq!(s.rx_total, 720);
    assert_eq!(s.tx_total, 90);
    assert_eq!(s.busiest.as_deref(), Some("Ethernet"));
    let mut t = NetworkTracker::new();
    assert_eq!(t.active_iface, "Primary Adapter");
    assert_eq!(t.update(InterfaceSummary { rx_total: 1000, tx_total: 10, busiest: None }, 0), None);
    assert_eq!(t.active_iface, "Primary Adapter");
    assert_eq!(
        t.update(InterfaceSummary { rx_total: 3000, tx_total: 30, busiest: Some("eth0".to_string()) }, 2_000_000_000),
        Some(TrafficDelta { rx_bytes: 2000, tx_bytes: 20, wall_ns: 2_000_000_000 })
    );
    assert_eq!(t.active_iface, "eth0");
    assert_eq!(t.update(InterfaceSummary { rx_total: 3500, tx_total: 40, busiest: None }, 2_010_000_000), None);
}

#[test]
fn theme_palettes() {
    let d = Theme::dark();
    assert_eq!(d.mode, ThemeMode::Dark);
    assert_eq!(d.cpu_low, Rgb { r: 52, g: 211, b: 153 });
    let l = Theme::from_mode(ThemeMode::Light);
    assert_eq!(l.border_focused, Rgb { r: 37, g: 99, b: 235 });
    assert_eq!(d.block_border_style(true), TextStyle { fg: d.border_focused, bold: true });
    assert_eq!(d.block_title_style(false), TextStyle { fg: d.text_dim, bold: false });
}

#[test]
fn drive_labels_drop_trailing_separators() {
    assert_eq!(drive_label("C:\\"), "C:");
    assert_eq!(drive_label("D:/\\"), "D:");
    assert_eq!(drive_label("E:"), "E:");
    assert_eq!(drive_label("\\"), "");
}

#[test]
fn only_fixed_and_removable_drives_are_listed() {
    assert!(is_listed_drive(3));
    assert!(is_listed_drive(2));
    assert!(!is_listed_drive(4));
    assert!(!is_listed_drive(5));
}

#[test]
fn idle_process_is_never_listed() {
    assert!(!is_listed("System Idle Process", 0, ""));
    assert!(is_listed("chrome.exe", 42, ""));
    assert!(is_listed("Chrome.EXE", 42, "chrome"));
    assert!(!is_listed("chrome.exe", 42, "code"));
    assert!(is_listed("chrome.exe", 4242, "424"));
}

#[test]
fn interface_totals_overflow_is_detected() {
    assert!(interface_totals_fit(&vec![row(true, 6, 10, 20, "eth")]));
    assert!(!interface_totals_fit(&vec![row(true, 6, u64::MAX, 1, "eth")]));
    assert!(!interface_totals_fit(&vec![row(true, 6, u64::MAX, 0, "a"), row(true, 6, 1, 0, "b")]));
    // Loopback and down interfaces are not counted.
    assert!(interface_totals_fit(&vec![row(true, 24, u64::MAX, 1, "lo"), row(false, 6, u64::MAX, 1, "x")]));
}

#[test]
fn tracker_refuses_a_sent_counter_going_back() {
    let mut t = NetworkTracker::new();
    let first = InterfaceSummary { rx_total: 100, tx_total: 50, busiest: None };
    assert!(t.accepts(&first, 0));
    assert_eq!(t.update(first, 0), None);
    let back = InterfaceSummary { rx_total: 200, tx_total: 40, busiest: None };
    assert!(!t.accepts(&back, 1_000_000_000));
    // Too soon after the previous sample: no rate is computed, so it is fine.
    assert!(t.accepts(&back, 10));
    let on = InterfaceSummary { rx_total: 200, tx_total: 60, busiest: None };
    assert!(t.accepts(&on, 1_000_000_000));
}

#[test]
fn filled_cells_full_and_blank() {
    assert_eq!(braille_cell(0, 4, 9, true), '\u{28FF}');
    assert_eq!(braille_cell(8, 12, 12, true), '\u{28FF}');
    assert_eq!(braille_cell(8, 8, 3, true), ' ');
    assert_eq!(braille_cell(0, 0, 0, false), ' ');
}

#[test]
fn chart_cells_stay_in_the_braille_block() {
    let heights: Vec<usize> = (0..16).map(|i| (i * 7) % 13).collect();
    for filled in [true, false] {
        let grid = braille_grid(&heights, 3, filled);
        for row in &grid {
            for &c in row {
                assert!(c == ' ' || ('\u{2801}'..='\u{28FF}').contains(&c), "{c:?}");
            }
        }
    }
}
