use chs_deck::stats::{
    cpu_delta, cpu_fields, cpu_poll_step, cpu_raw_from_fields, docker_count_title, fields_sum_fits,
    parse_meminfo, stat_kind, stat_title, CpuRaw, StatKind,
};

const PROC_STAT: &str = "cpu  4705 356 584 3699176 23 23 0 0 0 0\ncpu0 1393 280 290 925214 8 4 0 0 0 0\nintr 1\n";

#[test]
fn cpu_fields_of_first_line() {
    assert_eq!(cpu_fields(PROC_STAT), Some(vec![4705, 356, 584, 3699176, 23, 23, 0, 0, 0, 0]));
    assert_eq!(cpu_fields("cpu"), Some(vec![]));
    assert_eq!(cpu_fields("cpu 1 x 2"), Some(vec![1, 2]));
    assert_eq!(cpu_fields("\nsecond 1 2"), Some(vec![]));
    assert_eq!(cpu_fields(""), None);
}

#[test]
fn cpu_raw_sums_fields_and_idle() {
    let f = cpu_fields(PROC_STAT).unwrap();
    assert!(fields_sum_fits(&f));
    let raw = cpu_raw_from_fields(&f);
    assert_eq!(raw, CpuRaw { total: 4705 + 356 + 584 + 3699176 + 23 + 23, idle: 3699176 + 23 });
    let raw = cpu_raw_from_fields(&vec![1, 2, 3, 4]);
    assert_eq!(raw, CpuRaw { total: 10, idle: 4 });
    let raw = cpu_raw_from_fields(&vec![1, 2]);
    assert_eq!(raw, CpuRaw { total: 3, idle: 0 });
}

#[test]
fn cpu_sum_overflow_is_detected() {
    assert!(!fields_sum_fits(&vec![u64::MAX, 1]));
    assert!(fields_sum_fits(&vec![u64::MAX, 0]));
}

#[test]
fn cpu_delta_saturates() {
    let a = CpuRaw { total: 100, idle: 40 };
    let b = CpuRaw { total: 150, idle: 30 };
    assert_eq!(cpu_delta(&a, &b), (50, 0));
    assert_eq!(cpu_delta(&b, &a), (0, 10));
}

#[test]
fn cpu_poll_step_needs_two_samples() {
    let a = CpuRaw { total: 100, idle: 40 };
    let b = CpuRaw { total: 160, idle: 70 };
    assert_eq!(cpu_poll_step(None, Some(a)), (None, Some(a)));
    assert_eq!(cpu_poll_step(Some(a), Some(b)), (Some((60, 30)), Some(b)));
    assert_eq!(cpu_poll_step(Some(a), None), (None, None));
}

#[test]
fn meminfo_total_and_available() {
    let text = "MemTotal:       16000000 kB\nMemFree:         1000000 kB\nMemAvailable:    8000000 kB\n";
    assert_eq!(parse_meminfo(text), Some((16000000, 8000000)));
}

#[test]
fn meminfo_missing_or_zero_total() {
    assert_eq!(parse_meminfo("MemTotal: 100 kB\n"), None);
    assert_eq!(parse_meminfo("MemAvailable: 100 kB\n"), None);
    assert_eq!(parse_meminfo("MemTotal: 0 kB\nMemAvailable: 0 kB\n"), None);
    assert_eq!(parse_meminfo(""), None);
    assert_eq!(parse_meminfo("MemTotal: x kB\nMemAvailable: 5 kB\n"), None);
}

#[test]
fn meminfo_stops_once_both_are_known() {
    let text = "MemTotal: 10 kB\nMemAvailable: 5 kB\nMemTotal: 0 kB\n";
    assert_eq!(parse_meminfo(text), Some((10, 5)));
    let text = "MemTotal: 10 kB\nMemTotal: 20 kB\nMemAvailable: 5 kB\n";
    assert_eq!(parse_meminfo(text), Some((20, 5)));
    let text = "MemTotal: 10 kB\nMemTotal: bad\nMemAvailable: 5 kB\n";
    assert_eq!(parse_meminfo(text), None);
}

#[test]
fn stat_titles() {
    assert_eq!(stat_kind("ram"), StatKind::Ram);
    assert_eq!(stat_kind("docker"), StatKind::Docker);
    assert_eq!(stat_kind("cpu"), StatKind::Cpu);
    assert_eq!(stat_kind("anything"), StatKind::Cpu);
    assert_eq!(stat_title("cpu", "27", "53", 8), "CPU\n27%");
    assert_eq!(stat_title("ram", "27", "53", 8), "RAM\n53%");
    assert_eq!(stat_title("docker", "27", "53", 8), "🐳 8");
    assert_eq!(stat_title("", "27", "53", 8), "CPU\n27%");
    assert_eq!(docker_count_title(12), "12");
}
