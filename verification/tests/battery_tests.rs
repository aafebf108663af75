use wtop::battery::{battery_data_from_status, battery_report_line, status_line, BatteryReading, PowerStatus};

fn status(ac_line: u8, battery_flag: u8, life_percent: u8, life_time: u32) -> PowerStatus {
    PowerStatus {
        ac_line_status: ac_line,
        battery_flag,
        battery_life_percent: life_percent,
        battery_life_time: life_time,
    }
}

#[test]
fn no_system_battery_is_not_present() {
    let s = status(1, 0x80, 0xFF, u32::MAX);
    let data = battery_data_from_status(&s);
    assert!(!data.is_present);
}

#[test]
fn discharging_on_battery() {
    // High charge (>66%), not charging, not on AC, 1h30m remaining.
    let s = status(0, 0x01, 72, 5400);
    let data = battery_data_from_status(&s);
    assert!(data.is_present);
    assert_eq!(data.percent, 72);
    assert!(!data.ac_online);
    assert!(!data.charging);
    assert_eq!(data.seconds_remaining, Some(5400));
}

#[test]
fn charging_on_ac() {
    let s = status(1, 0x08, 45, u32::MAX);
    let data = battery_data_from_status(&s);
    assert!(data.is_present);
    assert!(data.ac_online);
    assert!(data.charging);
    assert_eq!(data.seconds_remaining, None);
}

#[test]
fn fully_unknown_status_is_treated_as_not_present() {
    let s = status(255, 0xFF, 0xFF, u32::MAX);
    let data = battery_data_from_status(&s);
    assert!(!data.is_present);
}

#[test]
fn unknown_percentage_reads_as_zero() {
    let data = battery_data_from_status(&status(0, 0x00, 0xFF, 60));
    assert!(data.is_present);
    assert_eq!(data.percent, 0);
    assert_eq!(data.seconds_remaining, Some(60));
}

#[test]
fn missing_battery_flag_wins_over_everything() {
    let data = battery_data_from_status(&status(1, 0x88, 50, 100));
    assert_eq!(data, BatteryReading::default());
}

#[test]
fn status_line_charging_takes_priority() {
    let battery = BatteryReading {
        is_present: true,
        percent: 50,
        ac_online: true,
        charging: true,
        seconds_remaining: None,
    };
    assert_eq!(status_line(&battery), "Charging");
}

#[test]
fn status_line_plugged_in_without_remaining_time() {
    let battery = BatteryReading {
        is_present: true,
        percent: 100,
        ac_online: true,
        charging: false,
        seconds_remaining: None,
    };
    assert_eq!(status_line(&battery), "Plugged in");
}

#[test]
fn status_line_on_battery_with_remaining_time() {
    let battery = BatteryReading {
        is_present: true,
        percent: 42,
        ac_online: false,
        charging: false,
        seconds_remaining: Some(3665),
    };
    assert_eq!(status_line(&battery), "On battery  1h 01m 05s left");
}

#[test]
fn status_line_on_battery_unknown_remaining_time() {
    let battery = BatteryReading {
        is_present: true,
        percent: 42,
        ac_online: false,
        charging: false,
        seconds_remaining: None,
    };
    assert_eq!(status_line(&battery), "On battery");
}

#[test]
fn battery_report_line_variants() {
    let mut b = BatteryReading {
        is_present: true,
        percent: 77,
        ac_online: true,
        charging: true,
        seconds_remaining: None,
    };
    assert_eq!(battery_report_line(&b), "BATTERY  : 77% - charging");
    b.charging = false;
    assert_eq!(battery_report_line(&b), "BATTERY  : 77% - plugged in");
    b.ac_online = false;
    assert_eq!(battery_report_line(&b), "BATTERY  : 77% - on battery");
}
