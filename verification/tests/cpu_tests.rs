use wtop::cpu::{cpu_ticks, cpu_ticks_fit, CoreTicks, ProcessorTimes};

fn t(idle: i64, kernel: i64, user: i64) -> ProcessorTimes {
    ProcessorTimes { idle_time: idle, kernel_time: kernel, user_time: user }
}

#[test]
fn ticks_per_core_and_in_total() {
    let prev = vec![t(100, 200, 50), t(0, 0, 0)];
    let cur = vec![t(160, 300, 70), t(10, 10, 0)];
    assert!(cpu_ticks_fit(&prev, &cur));
    let ticks = cpu_ticks(&prev, &cur).expect("same cores");
    // Core 0: kernel 100 (idle 60 inside) + user 20.
    assert_eq!(ticks.cores[0], CoreTicks { total: 120, idle: 60, busy: 60 });
    // Core 1: all of its ticks idle.
    assert_eq!(ticks.cores[1], CoreTicks { total: 10, idle: 10, busy: 0 });
    assert_eq!(ticks.all, CoreTicks { total: 130, idle: 70, busy: 60 });
}

#[test]
fn no_ticks_without_a_comparable_reading() {
    let cur = vec![t(1, 2, 3)];
    assert!(cpu_ticks(&vec![], &cur).is_none());
    assert!(cpu_ticks(&vec![t(0, 0, 0), t(0, 0, 0)], &cur).is_none());
    // A core with no ticks counts as idle, not busy.
    let still = cpu_ticks(&vec![t(5, 5, 5)], &vec![t(5, 5, 5)]).expect("same cores");
    assert_eq!(still.cores[0], CoreTicks { total: 0, idle: 0, busy: 0 });
}

#[test]
fn overflowing_counters_are_refused() {
    assert!(!cpu_ticks_fit(&vec![t(0, i64::MIN, 0)], &vec![t(0, i64::MAX, 0)]));
    assert!(!cpu_ticks_fit(&vec![t(0, 0, 0), t(0, 0, 0)], &vec![t(0, i64::MAX, 0), t(0, 1, 0)]));
    assert!(cpu_ticks_fit(&vec![t(0, 0, 0)], &vec![t(0, i64::MAX, 0)]));
    assert!(cpu_ticks_fit(&vec![], &vec![t(0, i64::MAX, i64::MAX)]));
}
