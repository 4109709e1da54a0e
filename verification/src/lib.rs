//! A minimal host-metrics sampler library.
//!
//! The library holds the pure half of a read-parse-format loop: given the
//! textual contents of the usual kernel pseudo-files (uptime, memory info,
//! load average, hostname), it parses each metric, substitutes a fixed
//! default wherever a source is absent or malformed, and renders one
//! structured line per sample. Reading the files, printing the line and
//! sleeping between samples are left to the surrounding program.

pub mod num;
pub mod readers;
pub mod record;
pub mod scan;
