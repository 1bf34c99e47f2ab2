//! Comparison of benchmark measurements: a two-sample significance test on
//! exact fixed-point numbers, and the reports built on it.
//!
//! A run (`bench::BenchData`) holds, group by group, the commands that were
//! benchmarked, each with its counters (`counter::BenchCounter`), which
//! `perf` puts together from the events of a profiler's report. Two
//! counters are compared by their change in percent and by a t-test
//! (`counter`), with critical values from a table (`critical`). `report`
//! writes the comparison of two runs, the comparison within one run
//! (`compare` says which rows), and the raw numbers as Markdown.
//!
//! Every number is an integer: means and variances count thousandths, and
//! all comparisons are decided exactly (`exact`).

pub mod exact;
pub mod critical;
pub mod counter;
pub mod text;
pub mod display;
pub mod lookup;
pub mod names;
pub mod bench;
pub mod perf;
pub mod compare;
pub mod report;
pub mod cpu;
