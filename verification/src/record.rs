//! The per-cycle record and its one-line rendering.
//!
//! A `MetricsRecord` is rebuilt from scratch every cycle from the current
//! contents of the metric sources; `format_record` renders it as the one
//! output line of the sampler.

use vstd::prelude::*;

use crate::num::dec_digits;
use crate::num::u64_to_string;
use crate::readers::{
    read_loadavg, read_meminfo, read_uptime, spec_read_loadavg, spec_read_meminfo,
    spec_read_uptime,
};

verus! {

/// One emitted sample: every field holds either a freshly read value or
/// its documented default.
pub struct MetricsRecord {
    /// Resolved once at startup; `"unknown"` if unresolvable.
    pub hostname: String,
    /// Seconds since boot, truncated; `0` if unreadable.
    pub uptime_seconds: u64,
    /// Total memory in kibibytes; `0` if unreadable.
    pub mem_total_kb: u64,
    /// Free memory in kibibytes; `0` if unreadable.
    pub mem_free_kb: u64,
    /// The 1-minute load average, kept as its source text; `"0.00"` if
    /// unreadable.
    pub load_1m: String,
}

/// The mathematical content of a record.
#[verifier::ext_equal]
pub ghost struct RecordView {
    pub hostname: Seq<char>,
    pub uptime_seconds: u64,
    pub mem_total_kb: u64,
    pub mem_free_kb: u64,
    pub load_1m: Seq<char>,
}

impl View for MetricsRecord {
    type V = RecordView;

    open spec fn view(&self) -> RecordView {
        RecordView {
            hostname: self.hostname@,
            uptime_seconds: self.uptime_seconds,
            mem_total_kb: self.mem_total_kb,
            mem_free_kb: self.mem_free_kb,
            load_1m: self.load_1m@,
        }
    }
}

/// The one-line rendering of a record: five fields in fixed order, the
/// string-typed ones quoted, the integer ones as bare decimal numerals.
pub open spec fn spec_format_record(v: RecordView) -> Seq<char> {
    "{\"hostname\":\""@ + v.hostname + "\",\"uptime\":"@ + dec_digits(v.uptime_seconds as nat)
        + ",\"mem_total_kb\":"@ + dec_digits(v.mem_total_kb as nat) + ",\"mem_free_kb\":"@
        + dec_digits(v.mem_free_kb as nat) + ",\"load_1m\":\""@ + v.load_1m + "\"}"@
}

/// The record assembled from one cycle's source contents: each field is a
/// function of its own source alone.
pub open spec fn spec_sample(
    hostname: Seq<char>,
    uptime_src: Option<Seq<char>>,
    mem_total_src: Option<Seq<char>>,
    mem_free_src: Option<Seq<char>>,
    loadavg_src: Option<Seq<char>>,
) -> RecordView {
    RecordView {
        hostname: hostname,
        uptime_seconds: spec_read_uptime(uptime_src),
        mem_total_kb: spec_read_meminfo(mem_total_src, "MemTotal:"@),
        mem_free_kb: spec_read_meminfo(mem_free_src, "MemFree:"@),
        load_1m: spec_read_loadavg(loadavg_src),
    }
}

/// The line one cycle emits, as a function of the source contents.
pub open spec fn spec_emit(
    hostname: Seq<char>,
    uptime_src: Option<Seq<char>>,
    mem_total_src: Option<Seq<char>>,
    mem_free_src: Option<Seq<char>>,
    loadavg_src: Option<Seq<char>>,
) -> Seq<char> {
    spec_format_record(
        spec_sample(hostname, uptime_src, mem_total_src, mem_free_src, loadavg_src),
    )
}

/// Renders `r` as the sampler's one-line output.
pub fn format_record(r: &MetricsRecord) -> (line: String)
    ensures
        line@ == spec_format_record(r@),
{
    let mut out = String::from_str("{\"hostname\":\"");
    out.append(r.hostname.as_str());
    out.append("\",\"uptime\":");
    let uptime = u64_to_string(r.uptime_seconds);
    out.append(uptime.as_str());
    out.append(",\"mem_total_kb\":");
    let mem_total = u64_to_string(r.mem_total_kb);
    out.append(mem_total.as_str());
    out.append(",\"mem_free_kb\":");
    let mem_free = u64_to_string(r.mem_free_kb);
    out.append(mem_free.as_str());
    out.append(",\"load_1m\":\"");
    out.append(r.load_1m.as_str());
    out.append("\"}");
    proof {
        assert(out@ =~= spec_format_record(r@));
    }
    out
}

/// Builds the record of one cycle. The two memory fields come from
/// independent reads of the memory-info source, so each gets the contents
/// its own read returned.
pub fn sample(
    hostname: &str,
    uptime_src: Option<&str>,
    mem_total_src: Option<&str>,
    mem_free_src: Option<&str>,
    loadavg_src: Option<&str>,
) -> (r: MetricsRecord)
    ensures
        r@ == spec_sample(
            hostname@,
            uptime_src.deep_view(),
            mem_total_src.deep_view(),
            mem_free_src.deep_view(),
            loadavg_src.deep_view(),
        ),
{
    let r = MetricsRecord {
        hostname: String::from_str(hostname),
        uptime_seconds: read_uptime(uptime_src),
        mem_total_kb: read_meminfo(mem_total_src, "MemTotal:"),
        mem_free_kb: read_meminfo(mem_free_src, "MemFree:"),
        load_1m: read_loadavg(loadavg_src),
    };
    proof {
        assert(r@ =~= spec_sample(
            hostname@,
            uptime_src.deep_view(),
            mem_total_src.deep_view(),
            mem_free_src.deep_view(),
            loadavg_src.deep_view(),
        ));
    }
    r
}

/// No reader's failure leaks into any other field: each field of a sample
/// is determined by its own source alone, whatever the other sources hold
/// or fail to hold.
pub proof fn lemma_field_independence(
    hostname: Seq<char>,
    uptime_src: Option<Seq<char>>,
    mem_total_src: Option<Seq<char>>,
    mem_free_src: Option<Seq<char>>,
    loadavg_src: Option<Seq<char>>,
    other_uptime: Option<Seq<char>>,
    other_mem_total: Option<Seq<char>>,
    other_mem_free: Option<Seq<char>>,
    other_loadavg: Option<Seq<char>>,
)
    ensures
        spec_sample(hostname, uptime_src, mem_total_src, mem_free_src, loadavg_src).hostname
            == hostname,
        spec_sample(hostname, uptime_src, mem_total_src, mem_free_src, loadavg_src).uptime_seconds
            == spec_sample(
            hostname,
            uptime_src,
            other_mem_total,
            other_mem_free,
            other_loadavg,
        ).uptime_seconds,
        spec_sample(hostname, uptime_src, mem_total_src, mem_free_src, loadavg_src).mem_total_kb
            == spec_sample(
            hostname,
            other_uptime,
            mem_total_src,
            other_mem_free,
            other_loadavg,
        ).mem_total_kb,
        spec_sample(hostname, uptime_src, mem_total_src, mem_free_src, loadavg_src).mem_free_kb
            == spec_sample(
            hostname,
            other_uptime,
            other_mem_total,
            mem_free_src,
            other_loadavg,
        ).mem_free_kb,
        spec_sample(hostname, uptime_src, mem_total_src, mem_free_src, loadavg_src).load_1m
            == spec_sample(
            hostname,
            other_uptime,
            other_mem_total,
            other_mem_free,
            loadavg_src,
        ).load_1m,
{
}

/// Across consecutive cycles whose backing sources are unchanged, the
/// emitted lines are identical: a cycle's line is a function of the
/// source contents alone, with no state carried over between cycles.
pub proof fn lemma_steady_cycles(
    hostname: Seq<char>,
    uptime_a: Option<Seq<char>>,
    mem_total_a: Option<Seq<char>>,
    mem_free_a: Option<Seq<char>>,
    loadavg_a: Option<Seq<char>>,
    uptime_b: Option<Seq<char>>,
    mem_total_b: Option<Seq<char>>,
    mem_free_b: Option<Seq<char>>,
    loadavg_b: Option<Seq<char>>,
)
    requires
        uptime_a == uptime_b,
        mem_total_a == mem_total_b,
        mem_free_a == mem_free_b,
        loadavg_a == loadavg_b,
    ensures
        spec_emit(hostname, uptime_a, mem_total_a, mem_free_a, loadavg_a) == spec_emit(
            hostname,
            uptime_b,
            mem_total_b,
            mem_free_b,
            loadavg_b,
        ),
{
}

/// Every reader yields its documented default when its backing source is
/// absent or empty.
pub proof fn lemma_reader_defaults(key: Seq<char>)
    ensures
        spec_read_uptime(None) == 0,
        spec_read_uptime(Some(Seq::empty())) == 0,
        spec_read_meminfo(None, key) == 0,
        spec_read_meminfo(Some(Seq::empty()), key) == 0,
        spec_read_loadavg(None) == "0.00"@,
        spec_read_loadavg(Some(Seq::empty())) == "0.00"@,
        crate::readers::spec_resolve_hostname(None) == "unknown"@,
        crate::readers::spec_resolve_hostname(Some(Seq::empty())) == "unknown"@,
{
    let e = Seq::<char>::empty();
    assert(crate::scan::first_token(e) =~= e);
    assert(crate::scan::trimmed(e) =~= e);
}

} // verus!
