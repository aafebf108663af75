//! User preferences: colour theme, sampling interval and process ordering.
//! Reading and writing `config.json` is done by the application around the
//! library; this module holds the values and the rules that change them.
use vstd::prelude::*;

verus! {

/// Colour theme of the interface.
#[derive(Debug, Clone, Copy, PartialEq, Eq, Structural)]
pub enum ThemeMode {
    Dark,
    Light,
}

/// Column by which the process list is ordered.
#[derive(Debug, Clone, Copy, PartialEq, Eq, Structural)]
pub enum ProcessSortBy {
    Cpu,
    Memory,
    Pid,
    Name,
}

/// Persisted user preferences.
#[derive(Debug, Clone, Copy, PartialEq, Eq, Structural)]
pub struct AppConfig {
    pub sampling_rate_ms: u64,
    pub theme: ThemeMode,
    pub proc_sort_by: ProcessSortBy,
    pub proc_sort_desc: bool,
}

/// The preferences used when none were saved: one sample per second, dark
/// theme, processes by CPU usage, highest first.
pub open spec fn default_config() -> AppConfig {
    AppConfig {
        sampling_rate_ms: 1000,
        theme: ThemeMode::Dark,
        proc_sort_by: ProcessSortBy::Cpu,
        proc_sort_desc: true,
    }
}

impl Default for AppConfig {
    fn default() -> (r: Self)
        ensures
            r == default_config(),
    {
        AppConfig {
            sampling_rate_ms: 1000,
            theme: ThemeMode::Dark,
            proc_sort_by: ProcessSortBy::Cpu,
            proc_sort_desc: true,
        }
    }
}

/// The sampling-interval presets, in milliseconds, ascending.
pub open spec fn sampling_rates() -> Seq<u64> {
    seq![250u64, 500, 1000, 2000, 5000]
}

/// The first of `rates` above `current`, in list order.
pub open spec fn first_above(rates: Seq<u64>, current: u64) -> Option<u64>
    decreases rates.len(),
{
    if rates.len() == 0 {
        None
    } else if rates[0] > current {
        Some(rates[0])
    } else {
        first_above(rates.drop_first(), current)
    }
}

/// The last of `rates` below `current`, in list order.
pub open spec fn last_below(rates: Seq<u64>, current: u64) -> Option<u64>
    decreases rates.len(),
{
    if rates.len() == 0 {
        None
    } else if rates.last() < current {
        Some(rates.last())
    } else {
        last_below(rates.drop_last(), current)
    }
}

/// The first preset above `current` (a slower sampling), or `current`
/// itself when no preset is above it.
pub open spec fn slower_rate(current: u64) -> u64 {
    match first_above(sampling_rates(), current) {
        Some(r) => r,
        None => current,
    }
}

/// The last preset below `current` (a faster sampling), or `current`
/// itself when no preset is below it.
pub open spec fn faster_rate(current: u64) -> u64 {
    match last_below(sampling_rates(), current) {
        Some(r) => r,
        None => current,
    }
}

/// The documented presets are 250, 500, 1000, 2000 and 5000 ms: a slower
/// step goes to the next of them above the interval, a faster step to the
/// next below it, and past either end the interval stays.
pub proof fn law_rate_steps_over_presets(current: u64)
    ensures
        slower_rate(current) == if current < 250 {
            250
        } else if current < 500 {
            500
        } else if current < 1000 {
            1000
        } else if current < 2000 {
            2000
        } else if current < 5000 {
            5000
        } else {
            current
        },
        faster_rate(current) == if current > 5000 {
            5000
        } else if current > 2000 {
            2000
        } else if current > 1000 {
            1000
        } else if current > 500 {
            500
        } else if current > 250 {
            250
        } else {
            current
        },
{
    let r = sampling_rates();
    reveal_with_fuel(first_above, 6);
    reveal_with_fuel(last_below, 6);
    assert(r.drop_first() =~= seq![500u64, 1000, 2000, 5000]);
    assert(r.drop_first().drop_first() =~= seq![1000u64, 2000, 5000]);
    assert(r.drop_first().drop_first().drop_first() =~= seq![2000u64, 5000]);
    assert(r.drop_first().drop_first().drop_first().drop_first() =~= seq![5000u64]);
    assert(r.drop_first().drop_first().drop_first().drop_first().drop_first() =~= Seq::<u64>::empty());
    assert(r.drop_last() =~= seq![250u64, 500, 1000, 2000]);
    assert(r.drop_last().drop_last() =~= seq![250u64, 500, 1000]);
    assert(r.drop_last().drop_last().drop_last() =~= seq![250u64, 500]);
    assert(r.drop_last().drop_last().drop_last().drop_last() =~= seq![250u64]);
    assert(r.drop_last().drop_last().drop_last().drop_last().drop_last() =~= Seq::<u64>::empty());
}

/// The theme that `t` switches to.
pub open spec fn toggled_theme(mode: ThemeMode) -> ThemeMode {
    match mode {
        ThemeMode::Dark => ThemeMode::Light,
        ThemeMode::Light => ThemeMode::Dark,
    }
}

impl AppConfig {
    /// Steps the sampling interval to the next preset: `increase` moves to
    /// the next slower preset (a longer interval), otherwise to the next
    /// faster one. At either end of the preset list the interval stays.
    pub fn cycle_sampling_rate(&mut self, increase: bool)
        ensures
            final(self).sampling_rate_ms == (if increase {
                slower_rate(old(self).sampling_rate_ms)
            } else {
                faster_rate(old(self).sampling_rate_ms)
            }),
            final(self).theme == old(self).theme,
            final(self).proc_sort_by == old(self).proc_sort_by,
            final(self).proc_sort_desc == old(self).proc_sort_desc,
    {
        proof {
            law_rate_steps_over_presets(old(self).sampling_rate_ms);
        }
        let current = self.sampling_rate_ms;
        if increase {
            self.sampling_rate_ms = if current < 250 {
                250
            } else if current < 500 {
                500
            } else if current < 1000 {
                1000
            } else if current < 2000 {
                2000
            } else if current < 5000 {
                5000
            } else {
                current
            };
        } else {
            self.sampling_rate_ms = if current > 5000 {
                5000
            } else if current > 2000 {
                2000
            } else if current > 1000 {
                1000
            } else if current > 500 {
                500
            } else if current > 250 {
                250
            } else {
                current
            };
        }
    }
}

/// A slower step never shortens the interval and a faster one never
/// lengthens it; each lands on a preset unless it is already past the end
/// of the list, where the interval is kept.
pub proof fn law_sampling_rate_steps(current: u64)
    ensures
        slower_rate(current) >= current,
        faster_rate(current) <= current,
        current < 5000 ==> sampling_rates().contains(slower_rate(current)),
        current > 250 ==> sampling_rates().contains(faster_rate(current)),
        current >= 5000 ==> slower_rate(current) == current,
        current <= 250 ==> faster_rate(current) == current,
{
    let r = sampling_rates();
    law_rate_steps_over_presets(current);
    assert(r[0] == 250 && r[1] == 500 && r[2] == 1000 && r[3] == 2000 && r[4] == 5000);
}

/// From any preset, a faster step followed by a slower one (or the other way
/// round) comes back to that preset, except at the end of the list that the
/// first step cannot leave.
pub proof fn law_sampling_rate_round_trip(current: u64)
    requires
        sampling_rates().contains(current),
    ensures
        current != 250 ==> slower_rate(faster_rate(current)) == current,
        current != 5000 ==> faster_rate(slower_rate(current)) == current,
{
    let r = sampling_rates();
    let i = choose|i: int| 0 <= i < r.len() && r[i] == current;
    law_rate_steps_over_presets(current);
    law_rate_steps_over_presets(faster_rate(current));
    law_rate_steps_over_presets(slower_rate(current));
    assert(r[0] == 250 && r[1] == 500 && r[2] == 1000 && r[3] == 2000 && r[4] == 5000);
}

/// Toggling the theme twice restores it.
pub proof fn law_theme_toggle_involutive(mode: ThemeMode)
    ensures
        toggled_theme(toggled_theme(mode)) == mode,
        toggled_theme(mode) != mode,
{
}

} // verus!
