//! Battery state: interpretation of the power-status reading and the text
//! shown for it.
use vstd::prelude::*;
use crate::gauge::{duration_text, format_duration, push_all};
use crate::text::{decimal, push_decimal};

verus! {

broadcast use vstd::string::group_string_axioms;

/// `BatteryFlag` bit meaning "no system battery" (desktop PCs).
pub const NO_SYSTEM_BATTERY: u8 = 0x80;
/// `BatteryFlag` / `BatteryLifePercent` sentinel meaning "unable to read".
pub const UNKNOWN: u8 = 0xFF;
/// `BatteryFlag` bit meaning the battery is currently charging.
pub const CHARGING: u8 = 0x08;
/// `BatteryLifeTime` sentinel meaning "unknown, or on AC power".
pub const UNKNOWN_TIME: u32 = 0xFFFF_FFFF;

/// The fields of a Win32 `SYSTEM_POWER_STATUS` reading that are used.
#[derive(Debug, Clone, Copy, PartialEq, Eq, Structural)]
pub struct PowerStatus {
    pub ac_line_status: u8,
    pub battery_flag: u8,
    pub battery_life_percent: u8,
    pub battery_life_time: u32,
}

/// What is known of the battery. `percent` is a whole percentage.
#[derive(Debug, Clone, Copy, PartialEq, Eq, Structural)]
pub struct BatteryReading {
    pub is_present: bool,
    pub percent: u8,
    pub ac_online: bool,
    pub charging: bool,
    pub seconds_remaining: Option<u32>,
}

/// The reading of a machine without a (readable) battery.
pub open spec fn no_battery() -> BatteryReading {
    BatteryReading {
        is_present: false,
        percent: 0,
        ac_online: false,
        charging: false,
        seconds_remaining: None,
    }
}

/// The interpretation of a power-status reading. A "no system battery" flag
/// (also carried by the fully unknown flag 0xFF) means no battery; an
/// unknown percentage reads as 0; an unknown remaining time as none.
pub open spec fn reading_of(s: PowerStatus) -> BatteryReading {
    if s.battery_flag & NO_SYSTEM_BATTERY != 0 {
        no_battery()
    } else {
        BatteryReading {
            is_present: true,
            percent: if s.battery_life_percent == UNKNOWN {
                0
            } else {
                s.battery_life_percent
            },
            ac_online: s.ac_line_status == 1,
            charging: s.battery_flag != UNKNOWN && s.battery_flag & CHARGING != 0,
            seconds_remaining: if s.battery_life_time == UNKNOWN_TIME {
                None
            } else {
                Some(s.battery_life_time)
            },
        }
    }
}

impl Default for BatteryReading {
    fn default() -> (r: Self)
        ensures
            r == no_battery(),
    {
        BatteryReading {
            is_present: false,
            percent: 0,
            ac_online: false,
            charging: false,
            seconds_remaining: None,
        }
    }
}

/// Interprets a power-status reading; the missing-battery case is reported
/// rather than a made-up reading for a battery that cannot be read.
pub fn battery_data_from_status(status: &PowerStatus) -> (r: BatteryReading)
    ensures
        r == reading_of(*status),
{
    if status.battery_flag & NO_SYSTEM_BATTERY != 0 {
        return BatteryReading::default();
    }
    BatteryReading {
        is_present: true,
        percent: if status.battery_life_percent == UNKNOWN {
            0
        } else {
            status.battery_life_percent
        },
        ac_online: status.ac_line_status == 1,
        charging: status.battery_flag != UNKNOWN && status.battery_flag & CHARGING != 0,
        seconds_remaining: if status.battery_life_time == UNKNOWN_TIME {
            None
        } else {
            Some(status.battery_life_time)
        },
    }
}

/// A "no system battery" flag always reads as no battery, whatever else
/// the reading says.
pub proof fn law_missing_battery_flag_hides_reading(s: PowerStatus)
    requires
        s.battery_flag & NO_SYSTEM_BATTERY != 0,
    ensures
        !reading_of(s).is_present,
        reading_of(s) == no_battery(),
{
}

/// The battery is present exactly when the flag lacks the 0x80 "no system
/// battery" bit. Then it reports charging exactly when the charging bit
/// 0x08 of the flag is set, whatever the other bits (high 0x01, low 0x02,
/// critical 0x04) say; it is on mains power when the AC status is 1; its
/// percentage is the reported one, 0 when unknown (0xFF); and its remaining
/// time is the reported number of seconds, none when unknown.
pub proof fn law_charging_follows_its_bit(s: PowerStatus)
    ensures
        reading_of(s).is_present == (s.battery_flag & 0x80 == 0),
        s.battery_flag & 0x80 == 0 ==> {
            &&& reading_of(s).charging == (s.battery_flag & 0x08 != 0)
            &&& reading_of(s).ac_online == (s.ac_line_status == 1)
            &&& reading_of(s).percent == (if s.battery_life_percent == 0xFF {
                0
            } else {
                s.battery_life_percent
            })
            &&& reading_of(s).seconds_remaining == (if s.battery_life_time == 0xFFFF_FFFF {
                None
            } else {
                Some(s.battery_life_time)
            })
        },
        s.battery_flag & 0x80 != 0 ==> !reading_of(s).charging && !reading_of(s).ac_online,
{
    let f = s.battery_flag;
    assert(f & 0x80 == 0 ==> f != 0xFF) by (bit_vector);
}

/// The line under the battery gauge: charging wins, then being plugged in,
/// then the remaining time when it is known.
pub open spec fn status_line_text(b: BatteryReading) -> Seq<char> {
    if b.charging {
        seq!['C', 'h', 'a', 'r', 'g', 'i', 'n', 'g']
    } else if b.ac_online {
        seq!['P', 'l', 'u', 'g', 'g', 'e', 'd', ' ', 'i', 'n']
    } else {
        match b.seconds_remaining {
            Some(secs) => seq!['O', 'n', ' ', 'b', 'a', 't', 't', 'e', 'r', 'y', ' ', ' ']
                + duration_text(secs as nat) + seq![' ', 'l', 'e', 'f', 't'],
            None => seq!['O', 'n', ' ', 'b', 'a', 't', 't', 'e', 'r', 'y'],
        }
    }
}

/// Builds the status line under the percentage/gauge row: charge state plus,
/// when discharging and known, the remaining time.
pub fn status_line(battery: &BatteryReading) -> (r: String)
    ensures
        r@ == status_line_text(*battery),
{
    let mut out = String::new();
    if battery.charging {
        push_all(&mut out, &['C', 'h', 'a', 'r', 'g', 'i', 'n', 'g']);
    } else if battery.ac_online {
        push_all(&mut out, &['P', 'l', 'u', 'g', 'g', 'e', 'd', ' ', 'i', 'n']);
    } else {
        push_all(&mut out, &['O', 'n', ' ', 'b', 'a', 't', 't', 'e', 'r', 'y']);
        if let Some(secs) = battery.seconds_remaining {
            push_all(&mut out, &[' ', ' ']);
            let d = format_duration(secs as u64);
            out.append(d.as_str());
            push_all(&mut out, &[' ', 'l', 'e', 'f', 't']);
        }
    }
    assert(out@ =~= status_line_text(*battery));
    out
}

/// The battery's state in the one-shot text report.
pub open spec fn state_word(b: BatteryReading) -> Seq<char> {
    if b.charging {
        seq!['c', 'h', 'a', 'r', 'g', 'i', 'n', 'g']
    } else if b.ac_online {
        seq!['p', 'l', 'u', 'g', 'g', 'e', 'd', ' ', 'i', 'n']
    } else {
        seq!['o', 'n', ' ', 'b', 'a', 't', 't', 'e', 'r', 'y']
    }
}

/// The label column of the one-shot report's battery line.
pub open spec fn battery_label() -> Seq<char> {
    seq!['B', 'A', 'T', 'T', 'E', 'R', 'Y', ' ', ' ', ':', ' ']
}

/// The battery line of the one-shot text report.
pub open spec fn battery_report_text(b: BatteryReading) -> Seq<char> {
    if b.is_present {
        battery_label() + decimal(b.percent as nat) + seq!['%', ' ', '-', ' '] + state_word(b)
    } else {
        battery_label() + seq![
            'n', 'o', ' ', 'b', 'a', 't', 't', 'e', 'r', 'y', ' ', 'd', 'e', 't', 'e', 'c', 't', 'e', 'd'
        ]
    }
}

/// The battery line of the one-shot text report, e.g.
/// "BATTERY  : 77% - on battery" or "BATTERY  : no battery detected".
pub fn battery_report_line(battery: &BatteryReading) -> (r: String)
    ensures
        r@ == battery_report_text(*battery),
{
    let mut out = String::new();
    push_all(&mut out, &['B', 'A', 'T', 'T', 'E', 'R', 'Y', ' ', ' ', ':', ' ']);
    if battery.is_present {
        push_decimal(&mut out, battery.percent as u64);
        push_all(&mut out, &['%', ' ', '-', ' ']);
        if battery.charging {
            push_all(&mut out, &['c', 'h', 'a', 'r', 'g', 'i', 'n', 'g']);
        } else if battery.ac_online {
            push_all(&mut out, &['p', 'l', 'u', 'g', 'g', 'e', 'd', ' ', 'i', 'n']);
        } else {
            push_all(&mut out, &['o', 'n', ' ', 'b', 'a', 't', 't', 'e', 'r', 'y']);
        }
    } else {
        push_all(
            &mut out,
            &[
                'n', 'o', ' ', 'b', 'a', 't', 't', 'e', 'r', 'y', ' ', 'd', 'e', 't', 'e', 'c', 't', 'e', 'd',
            ],
        );
    }
    assert(out@ =~= battery_report_text(*battery));
    out
}


/// The status line and the report line tell the same state, charging
/// first, then being plugged in, then running on battery; the status line
/// adds the remaining time only when running on battery and it is known,
/// and the report shows the whole percentage.
pub proof fn law_battery_lines_agree(b: BatteryReading)
    ensures
        b.charging ==> status_line_text(b) == seq!['C', 'h', 'a', 'r', 'g', 'i', 'n', 'g'],
        !b.charging && b.ac_online ==> status_line_text(b) == seq![
            'P', 'l', 'u', 'g', 'g', 'e', 'd', ' ', 'i', 'n'
        ],
        !b.charging && !b.ac_online && b.seconds_remaining is None ==> status_line_text(b)
            == seq!['O', 'n', ' ', 'b', 'a', 't', 't', 'e', 'r', 'y'],
        !b.charging && !b.ac_online && b.seconds_remaining is Some ==> status_line_text(b)
            == seq!['O', 'n', ' ', 'b', 'a', 't', 't', 'e', 'r', 'y', ' ', ' '] + duration_text(
            b.seconds_remaining->0 as nat,
        ) + seq![' ', 'l', 'e', 'f', 't'],
        b.is_present ==> battery_report_text(b) == seq![
            'B', 'A', 'T', 'T', 'E', 'R', 'Y', ' ', ' ', ':', ' '
        ] + decimal(b.percent as nat) + seq!['%', ' ', '-', ' '] + (if b.charging {
            seq!['c', 'h', 'a', 'r', 'g', 'i', 'n', 'g']
        } else if b.ac_online {
            seq!['p', 'l', 'u', 'g', 'g', 'e', 'd', ' ', 'i', 'n']
        } else {
            seq!['o', 'n', ' ', 'b', 'a', 't', 't', 'e', 'r', 'y']
        }),
        !b.is_present ==> battery_report_text(b) == seq![
            'B', 'A', 'T', 'T', 'E', 'R', 'Y', ' ', ' ', ':', ' ', 'n', 'o', ' ', 'b', 'a', 't', 't',
            'e', 'r', 'y', ' ', 'd', 'e', 't', 'e', 'c', 't', 'e', 'd'
        ],
{
    assert(battery_label() + seq![
        'n', 'o', ' ', 'b', 'a', 't', 't', 'e', 'r', 'y', ' ', 'd', 'e', 't', 'e', 'c', 't', 'e', 'd'
    ] =~= seq![
        'B', 'A', 'T', 'T', 'E', 'R', 'Y', ' ', ' ', ':', ' ', 'n', 'o', ' ', 'b', 'a', 't', 't',
        'e', 'r', 'y', ' ', 'd', 'e', 't', 'e', 'c', 't', 'e', 'd'
    ]);
}

} // verus!
