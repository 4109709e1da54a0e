use hostmetrics::readers::resolve_hostname;
use hostmetrics::record::{format_record, sample, MetricsRecord};

const MEMINFO: &str = "MemTotal:       8000000 kB\nMemFree:        4000000 kB\n";
const UPTIME: &str = "100.0 0";
const LOADAVG: &str = "1.00 0.80 0.60 1/123 456";

#[test]
fn one_cycle_emits_the_expected_line() {
    let hostname = resolve_hostname(Some("node1"));
    let record = sample(
        &hostname,
        Some(UPTIME),
        Some(MEMINFO),
        Some(MEMINFO),
        Some(LOADAVG),
    );
    let line = format_record(&record);
    assert_eq!(
        line,
        "{\"hostname\":\"node1\",\"uptime\":100,\"mem_total_kb\":8000000,\"mem_free_kb\":4000000,\"load_1m\":\"1.00\"}"
    );
}

#[test]
fn all_sources_missing_emit_the_default_line() {
    let hostname = resolve_hostname(None);
    let record = sample(&hostname, None, None, None, None);
    let line = format_record(&record);
    assert_eq!(
        line,
        "{\"hostname\":\"unknown\",\"uptime\":0,\"mem_total_kb\":0,\"mem_free_kb\":0,\"load_1m\":\"0.00\"}"
    );
}

#[test]
fn one_failing_reader_leaves_the_other_fields_alone() {
    let hostname = resolve_hostname(Some("node1"));
    let full = sample(
        &hostname,
        Some(UPTIME),
        Some(MEMINFO),
        Some(MEMINFO),
        Some(LOADAVG),
    );
    // the load-average source fails: only load_1m falls back to its default
    let without_load = sample(&hostname, Some(UPTIME), Some(MEMINFO), Some(MEMINFO), None);
    assert_eq!(without_load.hostname, full.hostname);
    assert_eq!(without_load.uptime_seconds, full.uptime_seconds);
    assert_eq!(without_load.mem_total_kb, full.mem_total_kb);
    assert_eq!(without_load.mem_free_kb, full.mem_free_kb);
    assert_eq!(without_load.load_1m, "0.00");
    // the uptime source fails: only uptime_seconds falls back
    let without_uptime = sample(&hostname, None, Some(MEMINFO), Some(MEMINFO), Some(LOADAVG));
    assert_eq!(without_uptime.uptime_seconds, 0);
    assert_eq!(without_uptime.mem_total_kb, full.mem_total_kb);
    assert_eq!(without_uptime.mem_free_kb, full.mem_free_kb);
    assert_eq!(without_uptime.load_1m, full.load_1m);
    // one memory read fails: the other memory field is untouched
    let without_total = sample(&hostname, Some(UPTIME), None, Some(MEMINFO), Some(LOADAVG));
    assert_eq!(without_total.mem_total_kb, 0);
    assert_eq!(without_total.mem_free_kb, full.mem_free_kb);
}

#[test]
fn unchanging_sources_emit_identical_lines() {
    let hostname = resolve_hostname(Some("node1"));
    let mut lines: Vec<String> = Vec::new();
    for _ in 0..3 {
        let record = sample(
            &hostname,
            Some(UPTIME),
            Some(MEMINFO),
            Some(MEMINFO),
            Some(LOADAVG),
        );
        lines.push(format_record(&record));
    }
    assert_eq!(lines[0], lines[1]);
    assert_eq!(lines[1], lines[2]);
}

#[test]
fn formatting_renders_each_field_in_place() {
    let record = MetricsRecord {
        hostname: String::from("box"),
        uptime_seconds: u64::MAX,
        mem_total_kb: 1,
        mem_free_kb: 0,
        load_1m: String::from("0.07"),
    };
    let line = format_record(&record);
    assert_eq!(
        line,
        "{\"hostname\":\"box\",\"uptime\":18446744073709551615,\"mem_total_kb\":1,\"mem_free_kb\":0,\"load_1m\":\"0.07\"}"
    );
}
