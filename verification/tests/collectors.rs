use goblin_metrics::collectors::{
    cpu_delta, cpu_samples_consistent, loadavg_field, mem_counters, parse_cpu_stat,
    parse_meminfo_line, CpuTimes,
};

const STAT: &str = "cpu  10132153 290696 3084719 46828483 16683 0 25195 0 0 0\n\
cpu0 1393280 32966 572056 13343292 6130 0 17875 0 0 0\n\
intr 1462898 0 0\n";

#[test]
fn cpu_line_is_read() {
    let t = parse_cpu_stat(STAT).unwrap();
    assert_eq!(
        t,
        CpuTimes { user: 10132153, nice: 290696, system: 3084719, idle: 46828483, iowait: 16683 }
    );
}

#[test]
fn cpu_line_missing_or_short() {
    assert_eq!(parse_cpu_stat("cpu0 1 2 3\nintr 5\n"), None);
    assert_eq!(parse_cpu_stat(""), None);
    assert_eq!(
        parse_cpu_stat("intr 1\ncpu 7 x 9\r\n"),
        Some(CpuTimes { user: 7, nice: 0, system: 9, idle: 0, iowait: 0 })
    );
}

#[test]
fn cpu_delta_counts_busy_ticks() {
    let a = CpuTimes { user: 100, nice: 0, system: 50, idle: 800, iowait: 50 };
    let b = CpuTimes { user: 160, nice: 0, system: 70, idle: 900, iowait: 70 };
    assert!(cpu_samples_consistent(&a, &b));
    let d = cpu_delta(&a, &b);
    assert_eq!(d.total, 200);
    assert_eq!(d.busy, 80);
    let same = cpu_delta(&a, &a);
    assert_eq!((same.busy, same.total), (0, 0));
}

#[test]
fn cpu_samples_inconsistent() {
    let a = CpuTimes { user: 100, nice: 0, system: 50, idle: 800, iowait: 50 };
    let back = CpuTimes { user: 90, ..a };
    assert!(!cpu_samples_consistent(&a, &back));
    let huge = CpuTimes { user: u64::MAX, nice: 1, ..a };
    assert!(!cpu_samples_consistent(&a, &huge));
}

const MEMINFO: &str = "MemTotal:       16303428 kB\n\
MemFree:         1191492 kB\n\
MemAvailable:    9712776 kB\n\
Buffers:          612880 kB\n";

#[test]
fn meminfo_totals() {
    let m = mem_counters(MEMINFO);
    assert_eq!(m.total_kb, 16303428);
    assert_eq!(m.available_kb, 9712776);
    assert_eq!(m.used_kb, 16303428 - 9712776);
}

#[test]
fn meminfo_missing_and_oversized() {
    let m = mem_counters("MemFree: 5 kB\n");
    assert_eq!((m.total_kb, m.available_kb, m.used_kb), (0, 0, 0));
    let m = mem_counters("MemTotal: 10 kB\nMemAvailable: 20 kB\n");
    assert_eq!(m.used_kb, 0);
}

#[test]
fn meminfo_line() {
    assert_eq!(parse_meminfo_line("MemTotal:       16303428 kB", "MemTotal:"), Some(16303428));
    assert_eq!(parse_meminfo_line("MemTotal:", "MemTotal:"), None);
    assert_eq!(parse_meminfo_line("MemFree: 12 kB", "MemTotal:"), None);
    assert_eq!(parse_meminfo_line("MemTotal: x kB", "MemTotal:"), None);
    assert_eq!(parse_meminfo_line("MemTotal:7", "MemTotal:"), Some(7));
}

#[test]
fn loadavg_first_field() {
    assert_eq!(loadavg_field("0.52 0.58 0.59 1/467 12345\n").as_deref(), Some("0.52"));
    assert_eq!(loadavg_field("  \n"), None);
}
