use wtop::config::ProcessSortBy;
use wtop::panels::{
    badge_role, centered_modal, core_cell, core_grid, cpu_layout, cpu_title, disk_chart_rows, gpu_title,
    header_badges, iface_label, kill_prompt, layout_tier, net_columns, net_title,
    partition_bar_width, proc_header_texts, proc_name_width, proc_panel_title, proc_row_texts, proc_rows_visible,
    sort_label, speed_stat_lines, split_disk_and_battery, stacked_split, visible_range, Area,
    BadgeRole, CpuLayout, LayoutTier, StatRole, BATTERY_PANEL_HEIGHT, DISK_MIN_HEIGHT,
};
use wtop::process::ProcessItem;
use wtop::config::ThemeMode;
use wtop::updater::{ReleaseInfo, UpdateStatus};

#[test]
fn cpu_title_fits_full_name() {
    assert_eq!(cpu_title("Ryzen 9", 30), " CPU: Ryzen 9 ");
}

#[test]
fn cpu_title_truncates_long_name() {
    let title = cpu_title("AMD Ryzen 9 7950X 16-Core Processor", 25);
    assert!(title.starts_with(" CPU: "));
    assert!(title.contains('…'));
    assert!(title.chars().count() as u16 <= 25);
}

#[test]
fn cpu_title_falls_back_when_too_narrow() {
    assert_eq!(cpu_title("Ryzen 9", 10), " CPU ");
}

#[test]
fn cpu_title_empty_name() {
    assert_eq!(cpu_title("", 30), " CPU ");
}

#[test]
fn core_grid_spreads_across_columns_when_width_allows() {
    assert_eq!(core_grid(16, 3, 20), (3, 6));
}

#[test]
fn core_grid_single_column_when_too_narrow() {
    assert_eq!(core_grid(8, 1, 20), (1, 8));
}

#[test]
fn core_grid_never_exceeds_available_height() {
    assert_eq!(core_grid(100, 3, 10), (3, 10));
}

#[test]
fn core_grid_does_not_open_empty_columns() {
    assert_eq!(core_grid(4, 6, 20), (4, 1));
}

#[test]
fn core_grid_single_core() {
    assert_eq!(core_grid(1, 4, 20), (1, 1));
}

#[test]
fn core_grid_zero_width_and_height_still_one_cell() {
    assert_eq!(core_grid(5, 0, 0), (1, 1));
}

#[test]
fn stacked_split_uses_full_rows_when_height_allows() {
    assert_eq!(stacked_split(8, 40, 10, 16), (6, 4));
}

#[test]
fn stacked_split_caps_grid_when_height_is_tight() {
    assert_eq!(stacked_split(8, 40, 3, 16), (1, 2));
}

#[test]
fn stacked_split_no_cores_keeps_full_height_for_summary() {
    assert_eq!(stacked_split(0, 40, 10, 16), (10, 0));
}

#[test]
fn stacked_split_zero_height_is_a_noop() {
    assert_eq!(stacked_split(8, 40, 0, 16), (0, 0));
}

#[test]
fn stacked_split_parts_add_up() {
    for h in 1u16..30 {
        for cores in 1usize..40 {
            let (top, core) = stacked_split(cores, 40, h, 16);
            assert_eq!(top + core, h);
            assert!(top >= 1);
        }
    }
}

#[test]
fn gpu_title_fits_full_name() {
    assert_eq!(gpu_title("RTX 4090", 30), " GPU: RTX 4090 ");
}

#[test]
fn gpu_title_truncates_long_name() {
    let title = gpu_title("NVIDIA GeForce RTX 4090 Laptop GPU", 25);
    assert!(title.starts_with(" GPU: "));
    assert!(title.contains('…'));
    assert!(title.chars().count() as u16 <= 25);
}

#[test]
fn gpu_title_falls_back_when_too_narrow() {
    assert_eq!(gpu_title("RTX 4090", 10), " GPU ");
}

#[test]
fn gpu_title_empty_name() {
    assert_eq!(gpu_title("", 30), " GPU ");
}

#[test]
fn net_title_truncates_long_iface_name() {
    let title = net_title("Ethernet0 Long Adapter Name", 20);
    assert!(title.starts_with(" NETWORK: "));
    assert!(title.chars().count() as u16 <= 20);
}

#[test]
fn net_title_falls_back_when_too_narrow() {
    assert_eq!(net_title("Wi-Fi", 8), " NETWORK ");
}

#[test]
fn titles_never_exceed_inner_width() {
    let name = "AMD Ryzen 9 7950X 16-Core Processor";
    for w in 0u16..60 {
        let t = cpu_title(name, w);
        if t != " CPU " {
            assert!(t.chars().count() + 2 <= w as usize);
        }
        let t = net_title(name, w);
        if t != " NETWORK " {
            assert!(t.chars().count() + 2 <= w as usize);
        }
    }
}

#[test]
fn split_disk_and_battery_no_battery_keeps_full_area() {
    let area = Area { x: 0, y: 0, width: 30, height: 40 };
    let (disk, battery) = split_disk_and_battery(area, false);
    assert_eq!(disk, area);
    assert!(battery.is_none());
}

#[test]
fn split_disk_and_battery_too_short_skips_battery() {
    let area = Area { x: 0, y: 0, width: 30, height: DISK_MIN_HEIGHT + BATTERY_PANEL_HEIGHT - 1 };
    let (disk, battery) = split_disk_and_battery(area, true);
    assert_eq!(disk, area);
    assert!(battery.is_none());
}

#[test]
fn split_disk_and_battery_carves_out_bottom_slice() {
    let area = Area { x: 5, y: 2, width: 30, height: 20 };
    let (disk, battery) = split_disk_and_battery(area, true);
    let battery = battery.expect("battery area expected when there's enough height");

    assert_eq!(battery.height, BATTERY_PANEL_HEIGHT);
    assert_eq!(disk.height, area.height - BATTERY_PANEL_HEIGHT);
    assert_eq!(disk.y, area.y);
    assert_eq!(battery.y, disk.y + disk.height);
    assert_eq!(battery.y + battery.height, area.y + area.height);
    assert_eq!(disk.x, area.x);
    assert_eq!(battery.x, area.x);
    assert_eq!(disk.width, area.width);
    assert_eq!(battery.width, area.width);
}

#[test]
fn layout_tiers_by_width() {
    assert_eq!(layout_tier(29, 40), None);
    assert_eq!(layout_tier(120, 9), None);
    assert_eq!(layout_tier(30, 10), Some(LayoutTier::Narrow));
    assert_eq!(layout_tier(63, 10), Some(LayoutTier::Narrow));
    assert_eq!(layout_tier(64, 10), Some(LayoutTier::Medium));
    assert_eq!(layout_tier(99, 10), Some(LayoutTier::Medium));
    assert_eq!(layout_tier(100, 10), Some(LayoutTier::Wide));
}

#[test]
fn centered_modal_centres_and_shrinks() {
    let area = Area { x: 0, y: 0, width: 100, height: 40 };
    assert_eq!(centered_modal(area, 64, 22), Area { x: 18, y: 9, width: 64, height: 22 });
    let small = Area { x: 2, y: 1, width: 30, height: 10 };
    assert_eq!(centered_modal(small, 64, 22), Area { x: 4, y: 2, width: 26, height: 8 });
}

#[test]
fn disk_rows_and_bar_width() {
    assert_eq!(disk_chart_rows(10, 2), 3);
    assert_eq!(disk_chart_rows(5, 2), 2);
    assert_eq!(disk_chart_rows(3, 5), 0);
    assert_eq!(partition_bar_width(10), 6);
    assert_eq!(partition_bar_width(40), 10);
    assert_eq!(partition_bar_width(100), 14);
}

#[test]
fn proc_panel_titles() {
    assert_eq!(proc_panel_title(false, "", 42, ProcessSortBy::Cpu, true), " PROCESSES (42) [Sort: CPU ▼] ");
    assert_eq!(proc_panel_title(true, "chr", 3, ProcessSortBy::Cpu, true), " PROCESSES [Find: chr_] (3) ");
    assert_eq!(
        proc_panel_title(false, "chr", 3, ProcessSortBy::Name, false),
        " PROCESSES [Filter: 'chr'] (3 matches) [Sort: NAME ▲] "
    );
    assert_eq!(sort_label(ProcessSortBy::Memory, false), "MEM ▲");
    assert_eq!(sort_label(ProcessSortBy::Pid, true), "PID ▼");
}

#[test]
fn proc_columns_and_rows() {
    assert_eq!(proc_name_width(53), 20);
    assert_eq!(proc_name_width(20), 0);
    let (pid, name, cpu, mem, thr) = proc_header_texts(ProcessSortBy::Cpu, 6);
    assert_eq!(pid, "PID    ");
    assert_eq!(name, "NAME  ");
    assert_eq!(cpu, " CPU% *");
    assert_eq!(mem, "       MEM");
    assert_eq!(thr, "  THR");
    let p = ProcessItem { pid: 4242, name: "chrome.exe".to_string(), cpu_pct_bits: 0, mem_bytes: 1024 * 1024 * 5, threads: 31 };
    let (pid, name, mem, thr) = proc_row_texts(&p, 8);
    assert_eq!(pid, "4242   ");
    assert_eq!(name, "chrome.…");
    assert_eq!(mem, "    5.0 MB");
    assert_eq!(thr, "   31");
    assert_eq!(visible_range(5, 20, 12), (5, 12));
    assert_eq!(visible_range(0, 20, 100), (0, 20));
    assert_eq!(visible_range(30, 20, 12), (30, 12));
}

#[test]
fn kill_prompt_text() {
    assert_eq!(kill_prompt(42), " Terminate PID 42? Press 'y' to Kill, 'n'/'Esc' to Cancel ");
}

#[test]
fn iface_label_drops_name_before_numbers() {
    assert_eq!(iface_label("Ethernet0 Long Adapter Name", 40, 20), "(Ethernet0 Long A…) ");
    assert_eq!(iface_label("Ethernet0", 23, 20), "");
    assert_eq!(iface_label("", 80, 20), "");
    assert_eq!(iface_label("eth0", 30, 20), "(eth0) ");
}

#[test]
fn header_badge_line() {
    assert_eq!(
        header_badges(ThemeMode::Dark, 1000, &UpdateStatus::Idle),
        "[t: DARK]  [+/-: 1000ms]  [g: GitHub]  [?: Help]  [q: Quit] "
    );
    let avail = UpdateStatus::Available(ReleaseInfo { version: "1.2.3".to_string(), asset_url: String::new() });
    assert_eq!(
        header_badges(ThemeMode::Light, 250, &avail),
        "[t: LIGHT]  [+/-: 250ms]  [u: Update v1.2.3 available]  [g: GitHub]  [?: Help]  [q: Quit] "
    );
    assert_eq!(
        header_badges(ThemeMode::Dark, 500, &UpdateStatus::Error("x".to_string())),
        "[t: DARK]  [+/-: 500ms]  [g: GitHub]  [?: Help]  [q: Quit] "
    );
    assert_eq!(badge_role('['), BadgeRole::Bracket);
    assert_eq!(badge_role('q'), BadgeRole::Key);
    assert_eq!(badge_role('Q'), BadgeRole::Text);
}

#[test]
fn cpu_layout_keeps_cores_when_narrow() {
    // A 40x20 panel: 38x18 inside, whose 45% split leaves 17 columns.
    assert_eq!(cpu_layout(8, 38, 18, 17), CpuLayout::Stacked { summary_rows: 14, grid_rows: 4 });
    assert_eq!(cpu_layout(8, 80, 18, 36), CpuLayout::SideBySide);
    assert_eq!(cpu_layout(8, 15, 18, 6), CpuLayout::SummaryOnly);
    assert_eq!(cpu_layout(0, 80, 18, 36), CpuLayout::SummaryOnly);
    assert_eq!(cpu_layout(8, 40, 3, 18), CpuLayout::Stacked { summary_rows: 1, grid_rows: 2 });
}

#[test]
fn net_readout_always_shows_speeds() {
    assert_eq!(net_columns(16), (16, false));
    assert_eq!(net_columns(28), (28, false));
    assert_eq!(net_columns(29), (20, true));
    for height in [1u16, 2, 5, 6, 9] {
        let lines = speed_stat_lines(height, "500 KB/s", "100 KB/s", 2 * 1024 * 1024 * 1024, 512 * 1024 * 1024);
        assert!(lines.iter().any(|(t, _)| t.contains("500 KB/s")), "{lines:?}");
        assert!(lines.iter().any(|(t, _)| t.contains("100 KB/s")), "{lines:?}");
    }
    let six = speed_stat_lines(6, "1.0 MB/s", "2 KB/s", 2 * 1024 * 1024 * 1024, 512 * 1024 * 1024);
    let texts: Vec<&str> = six.iter().map(|(t, _)| t.as_str()).collect();
    assert_eq!(texts, vec!["▼ DOWNLOAD", " 1.0 MB/s", " Tot 2.00 GB", "▲ UPLOAD", " 2 KB/s", " Tot 512.0 MB"]);
    assert_eq!(six[0].1, StatRole::Download);
    assert_eq!(six[3].1, StatRole::Upload);
    let one = speed_stat_lines(1, "1 B/s", "2 B/s", 0, 0);
    assert_eq!(one.len(), 1);
    assert_eq!(one[0].0, "▼1 B/s ▲2 B/s");
    assert_eq!(one[0].1, StatRole::Value);
}

#[test]
fn core_cells_spread_across_columns() {
    // The grid part of a stacked 40x20 CPU panel: 2 columns of 4 rows.
    let area = Area { x: 1, y: 15, width: 38, height: 4 };
    assert_eq!(core_grid(8, area.width / 16, area.height as usize), (2, 4));
    assert_eq!(core_cell(area, 0, 2, 4), Some((1, 15)));
    assert_eq!(core_cell(area, 4, 2, 4), Some((17, 15)));
    assert_eq!(core_cell(area, 7, 2, 4), Some((17, 18)));
    assert_eq!(core_cell(area, 8, 2, 4), None);
    // A column that would start past the right edge is not shown.
    let narrow = Area { x: 0, y: 0, width: 20, height: 2 };
    assert_eq!(core_cell(narrow, 2, 2, 2), None);
    assert_eq!(core_cell(narrow, 1, 2, 2), Some((0, 1)));
}

#[test]
fn cpu_panel_keeps_cores_visible_when_narrower_than_old_threshold() {
    // A 40x20 CPU panel with 8 cores: 38x18 inside the border, too narrow
    // for the side-by-side layout (its right part is 17 columns wide).
    let layout = cpu_layout(8, 38, 18, 17);
    let CpuLayout::Stacked { summary_rows, grid_rows } = layout else {
        panic!("core grid missing: {layout:?}");
    };
    let grid = Area { x: 1, y: 1 + summary_rows, width: 38, height: grid_rows };
    let (cols, rows) = core_grid(8, grid.width / 16, grid.height as usize);
    let cell0 = core_cell(grid, 0, cols, rows).expect("core 00 not shown");
    let cell4 = core_cell(grid, 4, cols, rows).expect("core 04 not shown");
    // Column-major over two columns: cores 0 and 4 share a row.
    assert_eq!(cell0.1, cell4.1, "cores are not spread across multiple columns");
    assert!(cell4.0 > cell0.0);
}

#[test]
fn net_panel_always_shows_speed_numbers_on_narrow_panel() {
    // An 18x10 network panel: 16x8 inside, too narrow for the chart.
    let (stats_w, show_chart) = net_columns(16);
    assert!(!show_chart);
    assert_eq!(stats_w, 16);
    let down = format!("{:.0} KB/s", 512_000.0f64 / 1024.0);
    let up = format!("{:.0} KB/s", 102_400.0f64 / 1024.0);
    let lines = speed_stat_lines(8, &down, &up, 2 * 1024 * 1024 * 1024, 512 * 1024 * 1024);
    assert!(lines.iter().any(|(t, _)| t.contains(&down)), "missing RX speed: {lines:?}");
    assert!(lines.iter().any(|(t, _)| t.contains(&up)), "missing TX speed: {lines:?}");
}

#[test]
fn net_header_never_truncates_throughput_on_narrow_panel() {
    let suffix = format!(
        "▼ {:>8} (Tot: {})  ▲ {:>8} (Tot: {})",
        "500 KB/s", "2.00 GB", "100 KB/s", "512.0 MB"
    );
    let reserved = "NET ".chars().count() + suffix.chars().count();
    // Just wide enough for "NET " and the numbers: the name is dropped.
    let label = iface_label("Ethernet0 Long Adapter Name", reserved + 3, reserved);
    assert_eq!(label, "");
    let row = format!("NET {label}{suffix}");
    assert!(row.contains("500 KB/s") && row.contains("2.00 GB"));
    assert!(row.contains("100 KB/s") && row.contains("512.0 MB"));
    assert!(!row.contains("Ethernet0 Long Adapter Name"));
}

#[test]
fn core_grid_leaves_no_column_empty() {
    // Five cores across four width columns: two rows, so three columns.
    assert_eq!(core_grid(5, 4, 20), (3, 2));
    assert_eq!(core_grid(7, 3, 20), (3, 3));
    assert_eq!(core_grid(9, 4, 2), (4, 2));
    for n in 1..40usize {
        for w in 0..8u16 {
            for h in 0..12usize {
                let (cols, rows) = core_grid(n, w, h);
                assert!(cols >= 1 && (cols - 1) * rows < n, "{n} {w} {h}");
            }
        }
    }
}

#[test]
fn process_rows_under_the_header() {
    assert_eq!(proc_rows_visible(10), 9);
    assert_eq!(proc_rows_visible(1), 0);
    assert_eq!(proc_rows_visible(0), 0);
}
