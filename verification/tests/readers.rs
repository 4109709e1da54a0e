use hostmetrics::readers::{read_loadavg, read_meminfo, read_uptime, resolve_hostname};

const MEMINFO: &str = "MemTotal:       16384000 kB\n\
MemFree:         4000000 kB\n\
MemAvailable:    9000000 kB\n\
Buffers:          123456 kB\n";

#[test]
fn absent_sources_yield_defaults() {
    assert_eq!(read_uptime(None), 0);
    assert_eq!(read_meminfo(None, "MemTotal:"), 0);
    assert_eq!(read_loadavg(None), "0.00");
    assert_eq!(resolve_hostname(None), "unknown");
}

#[test]
fn empty_sources_yield_defaults() {
    assert_eq!(read_uptime(Some("")), 0);
    assert_eq!(read_meminfo(Some(""), "MemTotal:"), 0);
    assert_eq!(read_loadavg(Some("")), "0.00");
    assert_eq!(resolve_hostname(Some("")), "unknown");
}

#[test]
fn uptime_truncates_instead_of_rounding() {
    assert_eq!(read_uptime(Some("12345.67 6789.01")), 12345);
}

#[test]
fn uptime_reads_the_first_token() {
    assert_eq!(read_uptime(Some("100.0 0")), 100);
    assert_eq!(read_uptime(Some("  7.99 1.23")), 7);
}

#[test]
fn uptime_accepts_a_bare_integer() {
    assert_eq!(read_uptime(Some("42")), 42);
    assert_eq!(read_uptime(Some("42.")), 42);
}

#[test]
fn uptime_rejects_malformed_tokens() {
    assert_eq!(read_uptime(Some("abc 1.0")), 0);
    assert_eq!(read_uptime(Some(".5 1.0")), 0);
    assert_eq!(read_uptime(Some("1.2.3 4.5")), 0);
    assert_eq!(read_uptime(Some("12a.0 4.5")), 0);
    assert_eq!(read_uptime(Some("   \n")), 0);
}

#[test]
fn uptime_rejects_an_integer_part_beyond_u64() {
    assert_eq!(read_uptime(Some("18446744073709551615.9 0")), u64::MAX);
    assert_eq!(read_uptime(Some("18446744073709551616.0 0")), 0);
}

#[test]
fn meminfo_finds_a_key_among_other_lines() {
    assert_eq!(read_meminfo(Some(MEMINFO), "MemTotal:"), 16384000);
    assert_eq!(read_meminfo(Some(MEMINFO), "MemFree:"), 4000000);
}

#[test]
fn meminfo_without_a_matching_line_yields_zero() {
    assert_eq!(read_meminfo(Some(MEMINFO), "SwapTotal:"), 0);
}

#[test]
fn meminfo_takes_the_first_matching_line() {
    let src = "MemFree: 111 kB\nMemFree: 222 kB\n";
    assert_eq!(read_meminfo(Some(src), "MemFree:"), 111);
}

#[test]
fn meminfo_matches_by_prefix() {
    // "MemTotal:" is a prefix of the line even though the line carries
    // more text after the value
    assert_eq!(read_meminfo(Some("MemTotal: 5 kB extra\n"), "MemTotal:"), 5);
    // "Mem" matches the first line starting with it
    assert_eq!(read_meminfo(Some(MEMINFO), "Mem"), 16384000);
}

#[test]
fn meminfo_handles_carriage_returns() {
    let src = "MemTotal: 777 kB\r\nMemFree: 888 kB\r\n";
    assert_eq!(read_meminfo(Some(src), "MemTotal:"), 777);
    assert_eq!(read_meminfo(Some(src), "MemFree:"), 888);
}

#[test]
fn meminfo_with_an_unparsable_value_yields_zero() {
    assert_eq!(read_meminfo(Some("MemTotal: abc kB\n"), "MemTotal:"), 0);
    assert_eq!(read_meminfo(Some("MemTotal:\n"), "MemTotal:"), 0);
    assert_eq!(
        read_meminfo(Some("MemTotal: 18446744073709551616 kB\n"), "MemTotal:"),
        0
    );
}

#[test]
fn meminfo_value_at_the_u64_limit_is_kept() {
    assert_eq!(
        read_meminfo(Some("MemTotal: 18446744073709551615 kB\n"), "MemTotal:"),
        u64::MAX
    );
}

#[test]
fn loadavg_keeps_the_first_token_verbatim() {
    assert_eq!(read_loadavg(Some("0.52 0.41 0.33 2/456 7890")), "0.52");
}

#[test]
fn loadavg_preserves_the_textual_form() {
    // kept as text: trailing zeros and exotic spellings survive
    assert_eq!(read_loadavg(Some("1.50 0.80 0.60 1/123 456")), "1.50");
    assert_eq!(read_loadavg(Some("  00.10 x")), "00.10");
}

#[test]
fn loadavg_blank_source_yields_default() {
    assert_eq!(read_loadavg(Some("   \n")), "0.00");
}

#[test]
fn hostname_is_trimmed() {
    assert_eq!(resolve_hostname(Some("myhost\n")), "myhost");
    assert_eq!(resolve_hostname(Some("  node7 \t\n")), "node7");
}

#[test]
fn hostname_keeps_inner_text_intact() {
    assert_eq!(resolve_hostname(Some("my host\n")), "my host");
}

#[test]
fn hostname_blank_source_yields_default() {
    assert_eq!(resolve_hostname(Some(" \t\n")), "unknown");
}
