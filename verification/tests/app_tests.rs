use wtop::app::{ActivePanel, AppState, Key, KeyEffect, PROC_VISIBLE_ROWS};
use wtop::config::{AppConfig, ProcessSortBy, ThemeMode};
use wtop::updater::{ReleaseInfo, UpdateStatus};

fn state_with(n: u32) -> AppState {
    let mut s = AppState::new(AppConfig::default());
    s.update_snapshot((100..100 + n).collect());
    s
}

fn visible(s: &AppState) -> bool {
    (s.proc_pids.is_empty() || s.proc_selected_idx < s.proc_pids.len())
        && s.proc_scroll_offset <= s.proc_selected_idx
        && s.proc_selected_idx < s.proc_scroll_offset + PROC_VISIBLE_ROWS
}

#[test]
fn navigation_keeps_selection_visible() {
    let mut s = state_with(50);
    let keys = [Key::Down, Key::PageDown, Key::PageDown, Key::End, Key::Up, Key::PageUp, Key::Home, Key::Char('j'), Key::Char('k'), Key::End];
    for k in keys {
        s.handle_key(k);
        assert!(visible(&s));
    }
    assert_eq!(s.proc_selected_idx, 49);
    assert_eq!(s.proc_scroll_offset, 30);
    s.update_snapshot((0..10).collect());
    assert_eq!(s.proc_selected_idx, 9);
    assert!(visible(&s));
}

#[test]
fn page_down_stops_at_last_row() {
    let mut s = state_with(15);
    s.handle_key(Key::PageDown);
    assert_eq!(s.proc_selected_idx, 10);
    s.handle_key(Key::PageDown);
    assert_eq!(s.proc_selected_idx, 14);
    s.handle_key(Key::Down);
    assert_eq!(s.proc_selected_idx, 14);
}

#[test]
fn kill_flow_targets_selected_process() {
    let mut s = state_with(5);
    s.handle_key(Key::Down);
    s.handle_key(Key::Down);
    assert_eq!(s.handle_key(Key::Char('x')), KeyEffect::Nothing);
    assert_eq!(s.pending_kill, Some(102));
    // Other keys are swallowed by the prompt.
    assert_eq!(s.handle_key(Key::Char('q')), KeyEffect::Nothing);
    assert!(!s.should_quit);
    assert_eq!(s.handle_key(Key::Char('y')), KeyEffect::KillProcess(102));
    assert_eq!(s.pending_kill, None);
    s.handle_key(Key::Delete);
    assert_eq!(s.handle_key(Key::Esc), KeyEffect::Nothing);
    assert_eq!(s.pending_kill, None);
}

#[test]
fn filter_typing_edits_filter_only() {
    let mut s = state_with(30);
    s.handle_key(Key::End);
    s.handle_key(Key::Char('/'));
    assert!(s.is_filtering);
    assert_eq!(s.handle_key(Key::Char('q')), KeyEffect::Nothing);
    assert_eq!(s.handle_key(Key::Char('t')), KeyEffect::Nothing);
    s.handle_key(Key::Char('\u{7}'));
    assert_eq!(s.proc_filter, "qt");
    assert_eq!(s.proc_selected_idx, 0);
    assert!(!s.should_quit);
    assert_eq!(s.config.theme, ThemeMode::Dark);
    s.handle_key(Key::Backspace);
    assert_eq!(s.proc_filter, "q");
    s.handle_key(Key::Enter);
    assert!(!s.is_filtering);
    s.handle_key(Key::Esc);
    assert_eq!(s.proc_filter, "");
}

#[test]
fn sort_keys_toggle_and_save() {
    let mut s = state_with(3);
    assert_eq!(s.handle_key(Key::Char('c')), KeyEffect::SaveConfig);
    assert_eq!(s.config.proc_sort_by, ProcessSortBy::Cpu);
    assert!(!s.config.proc_sort_desc);
    s.handle_key(Key::Char('p'));
    assert_eq!(s.config.proc_sort_by, ProcessSortBy::Pid);
    assert!(!s.config.proc_sort_desc);
    s.handle_key(Key::Char('m'));
    assert!(s.config.proc_sort_desc);
    s.handle_key(Key::Char('d'));
    s.handle_key(Key::Char('d'));
    assert!(s.config.proc_sort_desc);
    s.handle_key(Key::Char('t'));
    s.handle_key(Key::Char('t'));
    assert_eq!(s.config.theme, ThemeMode::Dark);
    assert_eq!(s.handle_key(Key::Char('+')), KeyEffect::SaveConfig);
    assert_eq!(s.config.sampling_rate_ms, 500);
    assert_eq!(s.handle_key(Key::Char('g')), KeyEffect::OpenProfile);
}

#[test]
fn panels_cycle_both_ways() {
    let mut s = state_with(0);
    assert_eq!(s.active_panel, ActivePanel::Processes);
    for _ in 0..6 {
        s.handle_key(Key::Tab);
    }
    assert_eq!(s.active_panel, ActivePanel::Processes);
    s.handle_key(Key::Tab);
    assert_eq!(s.active_panel, ActivePanel::Cpu);
    s.handle_key(Key::BackTab);
    assert_eq!(s.active_panel, ActivePanel::Processes);
}

#[test]
fn help_and_update_prompts() {
    let mut s = state_with(0);
    s.handle_key(Key::Char('?'));
    assert!(s.show_help);
    s.handle_key(Key::Char('q'));
    assert!(!s.show_help);
    assert!(!s.should_quit);
    s.handle_key(Key::Char('u'));
    assert!(!s.pending_update_confirm);
    s.update_status = UpdateStatus::Available(ReleaseInfo { version: "9.9.9".to_string(), asset_url: "u".to_string() });
    s.handle_key(Key::Char('u'));
    assert!(s.pending_update_confirm);
    s.handle_key(Key::Char('Y'));
    assert!(!s.pending_update_confirm);
    assert!(s.update_confirmed);
    s.handle_key(Key::Char('q'));
    assert!(s.should_quit);
}

#[test]
fn filter_typing_skips_exactly_the_control_characters() {
    for v in 0u32..0x300 {
        let Some(c) = char::from_u32(v) else { continue };
        let mut st = AppState::new(AppConfig::default());
        st.handle_key(Key::Char('/'));
        st.handle_key(Key::Char(c));
        assert_eq!(st.proc_filter.is_empty(), c.is_control(), "U+{v:04X}");
    }
}
