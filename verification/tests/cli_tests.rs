use wtop::battery::{battery_report_line, BatteryReading};
use wtop::cli::{immediate_action, non_empty, parse_args, process_heading, shown_process_count, Action, CliRequest};

#[test]
fn help_flag_exits_successfully() {
    let result = immediate_action(&parse_args(&vec!["--help".to_string()]));
    assert!(matches!(result, Some(Action::Exit(0))));
}

#[test]
fn no_flags_falls_through_to_tui() {
    assert!(matches!(immediate_action(&parse_args(&vec![])), Some(Action::RunTui)));
}

#[test]
fn unrecognized_flag_exits_with_error_code() {
    let result = immediate_action(&parse_args(&vec!["--bogus".to_string()]));
    assert!(matches!(result, Some(Action::Exit(1))));
}

#[test]
fn text_snapshot_reports_no_battery_when_absent() {
    let text = battery_report_line(&BatteryReading::default());
    assert!(text.contains("BATTERY  : no battery detected"));
}

#[test]
fn text_snapshot_reports_battery_state_when_present() {
    let battery = BatteryReading {
        is_present: true,
        percent: 77,
        ac_online: false,
        charging: false,
        seconds_remaining: Some(1200),
    };
    let text = battery_report_line(&battery);
    assert!(text.contains("BATTERY  : 77% - on battery"));
}

#[test]
fn text_snapshot_caps_process_list() {
    let names: Vec<String> = (0..20).map(|i| format!("proc{i}.exe")).collect();
    let shown = shown_process_count(names.len());
    let mut text = process_heading(names.len());
    for name in names.iter().take(shown) {
        text.push_str(name);
        text.push('\n');
    }
    assert!(text.contains("showing 15 of 20"));
    assert!(text.contains("proc14.exe"));
    assert!(!text.contains("proc15.exe"));
}

#[test]
fn process_heading_without_cap() {
    assert_eq!(process_heading(3), "PROCESSES (3):");
    assert_eq!(process_heading(15), "PROCESSES (15):");
    assert_eq!(process_heading(16), "PROCESSES (showing 15 of 16):");
}

#[test]
fn once_and_json_flags_ask_for_a_snapshot() {
    assert_eq!(parse_args(&vec!["--once".to_string()]), CliRequest::Snapshot { json: false });
    assert_eq!(
        parse_args(&vec!["--once".to_string(), "--json".to_string()]),
        CliRequest::Snapshot { json: true }
    );
    assert_eq!(immediate_action(&CliRequest::Snapshot { json: true }), None);
    assert_eq!(
        parse_args(&vec!["--once".to_string(), "-x".to_string(), "--help".to_string()]),
        CliRequest::Unrecognized("-x".to_string())
    );
    assert_eq!(parse_args(&vec!["-h".to_string(), "-x".to_string()]), CliRequest::Usage);
}

#[test]
fn non_empty_falls_back() {
    assert_eq!(non_empty("", "unknown"), "unknown");
    assert_eq!(non_empty("Ryzen", "unknown"), "Ryzen");
}
