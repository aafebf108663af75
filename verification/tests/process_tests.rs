use wtop::config::ProcessSortBy;
use wtop::process::{process_matches, sort_order, sort_processes, CpuDelta, CpuTimeSample, ProcessCollector, ProcessItem};

fn item(pid: u32, name: &str, cpu: f32, mem: u64) -> ProcessItem {
    ProcessItem { pid, name: name.to_string(), cpu_pct_bits: cpu.to_bits(), mem_bytes: mem, threads: 1 }
}

fn pids(v: &[ProcessItem]) -> Vec<u32> {
    v.iter().map(|p| p.pid).collect()
}

#[test]
fn sort_by_cpu_descending_is_stable() {
    let items = vec![
        item(1, "a", 5.0, 10),
        item(2, "b", 50.0, 20),
        item(3, "c", 5.0, 30),
        item(4, "d", 0.0, 40),
        item(5, "e", 50.0, 5),
    ];
    assert_eq!(pids(&sort_processes(&items, ProcessSortBy::Cpu, true)), vec![2, 5, 1, 3, 4]);
    assert_eq!(pids(&sort_processes(&items, ProcessSortBy::Cpu, false)), vec![4, 1, 3, 2, 5]);
}

#[test]
fn sort_by_memory_pid_and_name() {
    let items = vec![
        item(30, "Zeta.exe", 0.0, 300),
        item(10, "alpha.exe", 0.0, 100),
        item(20, "Beta.exe", 0.0, 300),
    ];
    assert_eq!(pids(&sort_processes(&items, ProcessSortBy::Memory, true)), vec![30, 20, 10]);
    assert_eq!(pids(&sort_processes(&items, ProcessSortBy::Pid, false)), vec![10, 20, 30]);
    assert_eq!(pids(&sort_processes(&items, ProcessSortBy::Pid, true)), vec![30, 20, 10]);
    assert_eq!(pids(&sort_processes(&items, ProcessSortBy::Name, false)), vec![10, 20, 30]);
    assert_eq!(pids(&sort_processes(&items, ProcessSortBy::Name, true)), vec![30, 20, 10]);
}

#[test]
fn sort_matches_std_stable_sort() {
    let mut x: u64 = 88172645463325252;
    let mut items = Vec::new();
    for pid in 0..200u32 {
        x ^= x << 13;
        x ^= x >> 7;
        x ^= x << 17;
        let names = ["svchost.exe", "Chrome.exe", "chrome.exe", "explorer.exe", "Code.exe"];
        items.push(item(pid, names[(x % 5) as usize], ((x >> 8) % 7) as f32 * 1.5, (x >> 20) % 9));
    }
    for by in [ProcessSortBy::Cpu, ProcessSortBy::Memory, ProcessSortBy::Pid, ProcessSortBy::Name] {
        for desc in [false, true] {
            let mut expected: Vec<&ProcessItem> = items.iter().collect();
            expected.sort_by(|a, b| {
                let (a, b) = if desc { (b, a) } else { (a, b) };
                match by {
                    ProcessSortBy::Cpu => f32::from_bits(a.cpu_pct_bits)
                        .partial_cmp(&f32::from_bits(b.cpu_pct_bits))
                        .unwrap_or(std::cmp::Ordering::Equal),
                    ProcessSortBy::Memory => a.mem_bytes.cmp(&b.mem_bytes),
                    ProcessSortBy::Pid => a.pid.cmp(&b.pid),
                    ProcessSortBy::Name => a.name.to_lowercase().cmp(&b.name.to_lowercase()),
                }
            });
            let got = sort_processes(&items, by, desc);
            let exp_pids: Vec<u32> = expected.iter().map(|p| p.pid).collect();
            assert_eq!(pids(&got), exp_pids);
            let order = sort_order(&items, by, desc);
            assert_eq!(order.len(), items.len());
        }
    }
}

#[test]
fn filter_matches_name_case_insensitively_or_pid() {
    assert!(process_matches("chrome.exe", 1234, ""));
    assert!(process_matches("Chrome.exe", 1234, "CHROME"));
    assert!(process_matches("chrome.exe", 1234, "23"));
    assert!(!process_matches("chrome.exe", 1234, "firefox"));
    assert!(!process_matches("chrome.exe", 1234, "5"));
    assert!(process_matches("Code.exe", 77, "de.e"));
}

#[test]
fn cpu_tracking_needs_a_previous_reading_50ms_old() {
    let mut c = ProcessCollector::new(0);
    assert_eq!(c.num_cores(), 1);
    let first = vec![
        CpuTimeSample { pid: 0, total_time_100ns: Some(5) },
        CpuTimeSample { pid: 10, total_time_100ns: Some(1_000) },
        CpuTimeSample { pid: 11, total_time_100ns: None },
    ];
    assert_eq!(c.track_cpu_times(&first, 1_000_000_000), vec![None, None, None]);
    let second = vec![
        CpuTimeSample { pid: 0, total_time_100ns: Some(50) },
        CpuTimeSample { pid: 10, total_time_100ns: Some(6_000) },
        CpuTimeSample { pid: 11, total_time_100ns: Some(10) },
    ];
    // 50 ms exactly is not enough.
    assert_eq!(c.track_cpu_times(&second, 1_050_000_000), vec![None, None, None]);
    let third = vec![
        CpuTimeSample { pid: 10, total_time_100ns: Some(9_000) },
        CpuTimeSample { pid: 11, total_time_100ns: Some(5) },
    ];
    assert_eq!(
        c.track_cpu_times(&third, 1_150_000_000),
        vec![Some(CpuDelta { process_100ns: 3_000, wall_ns: 100_000_000 }), None]
    );
    assert_eq!(ProcessCollector::new(8).num_cores(), 8);
}

#[test]
fn gone_processes_are_forgotten() {
    let mut c = ProcessCollector::new(1);
    let s = |pid: u32, t: u64| CpuTimeSample { pid, total_time_100ns: Some(t) };
    let first = c.track_cpu_times(&vec![s(7, 100), s(8, 100)], 0);
    assert_eq!(first, vec![None, None]);
    // pid 7 is gone in the second sample.
    let second = c.track_cpu_times(&vec![s(8, 300)], 1_000_000_000);
    assert_eq!(second, vec![Some(CpuDelta { process_100ns: 200, wall_ns: 1_000_000_000 })]);
    // When it shows up again, it starts over without a delta.
    let third = c.track_cpu_times(&vec![s(7, 500), s(8, 400)], 2_000_000_000);
    assert_eq!(third, vec![None, Some(CpuDelta { process_100ns: 100, wall_ns: 1_000_000_000 })]);
}

#[test]
fn unreadable_process_table_keeps_readings() {
    let mut c = ProcessCollector::new(2);
    let s = |pid: u32, t: u64| CpuTimeSample { pid, total_time_100ns: Some(t) };
    assert_eq!(c.track_sample(Some(vec![s(9, 100)]), 0), vec![None]);
    // The table could not be read: nothing listed, nothing forgotten.
    assert!(c.track_sample(None, 500_000_000).is_empty());
    assert_eq!(
        c.track_sample(Some(vec![s(9, 400)]), 1_000_000_000),
        vec![Some(CpuDelta { process_100ns: 300, wall_ns: 1_000_000_000 })]
    );
    assert_eq!(c.num_cores(), 2);
}
