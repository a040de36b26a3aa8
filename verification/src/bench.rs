//! Benchmark vocabulary: metrics, comparison outcomes, run options and where
//! a project keeps its measurement history.
use vstd::prelude::*;

use crate::paths::{join_path, path_join};

verus! {

/// What a performance gate measures.
#[derive(Debug, Clone, Copy, PartialEq, Eq, Structural)]
pub enum PerformanceMetric {
    RuntimeMedianMs,
    RuntimeP95Ms,
    ThroughputMbS,
    PeakMemoryMb,
    Speedup,
}

pub open spec fn metric_name_spec(metric: PerformanceMetric) -> Seq<char> {
    match metric {
        PerformanceMetric::RuntimeMedianMs => "runtime_median_ms"@,
        PerformanceMetric::RuntimeP95Ms => "runtime_p95_ms"@,
        PerformanceMetric::ThroughputMbS => "throughput_mb_s"@,
        PerformanceMetric::PeakMemoryMb => "peak_memory_mb"@,
        PerformanceMetric::Speedup => "speedup"@,
    }
}

/// The metric's name as records and gates spell it.
pub fn metric_name(metric: PerformanceMetric) -> (out: &'static str)
    ensures
        out@ == metric_name_spec(metric),
{
    match metric {
        PerformanceMetric::RuntimeMedianMs => "runtime_median_ms",
        PerformanceMetric::RuntimeP95Ms => "runtime_p95_ms",
        PerformanceMetric::ThroughputMbS => "throughput_mb_s",
        PerformanceMetric::PeakMemoryMb => "peak_memory_mb",
        PerformanceMetric::Speedup => "speedup",
    }
}

/// How a measurement moved against the previous one.
#[derive(Debug, Clone, Copy, PartialEq, Eq, Structural)]
pub enum ComparisonOutcome {
    Improved,
    Regressed,
    Unchanged,
}

/// A machine property that differs between two measurements.
#[derive(Debug, Clone)]
pub struct MachineDifference {
    pub previous: String,
    pub current: String,
}

/// Execution knobs for one benchmark run; `cancellation_path` names the
/// file whose presence stops it.
#[derive(Debug, Clone)]
pub struct BenchmarkOptions {
    pub iterations: Option<u64>,
    pub warmup: Option<u64>,
    pub cancellation_path: Option<String>,
}

/// Where a project keeps its saved measurements.
pub fn history_path(project_root: &str) -> (out: String)
    ensures
        out@ == path_join(path_join(project_root@, ".deltaforge"@), "benchmark_history.json"@),
{
    let dir = join_path(project_root, ".deltaforge");
    join_path(dir.as_str(), "benchmark_history.json")
}

/// What one benchmark runs with: how many measured iterations, how many
/// warm-up runs before them, and how long a run may take.
#[derive(Debug, Clone, Copy)]
pub struct BenchmarkSettings {
    pub iterations: u64,
    pub warmup: u64,
    pub timeout_ms: u64,
}

/// The first value given: the run's option, else the benchmark's own, else
/// the project default.
pub open spec fn chosen(option: Option<u64>, own: Option<u64>, default: u64) -> u64 {
    match option {
        Some(v) => v,
        None => match own {
            Some(v) => v,
            None => default,
        },
    }
}

/// Why a benchmark cannot run, in the order it is checked: an empty
/// command, an invalid matrix, an unsafe fixture path, zero iterations.
pub open spec fn benchmark_problem(
    name: Seq<char>,
    command_len: nat,
    matrix_problems: Seq<Seq<char>>,
    fixture: Seq<char>,
    iterations: u64,
) -> Option<Seq<char>> {
    if command_len == 0 {
        Some("benchmark "@ + name + " command is empty"@)
    } else if matrix_problems.len() > 0 {
        Some("benchmark "@ + name + " has an invalid matrix: "@ + crate::text::join(matrix_problems, "; "@))
    } else if !crate::paths::safe_relative(fixture) {
        Some("benchmark "@ + name + " fixture path is unsafe: "@ + fixture)
    } else if iterations == 0 {
        Some("benchmark "@ + name + " iterations must be greater than 0"@)
    } else {
        None
    }
}

/// Check a benchmark before it runs and settle what it runs with: the
/// run's options win over the benchmark's own values, which win over the
/// project's defaults; the timeout is the benchmark's own or the runner's.
pub fn benchmark_settings(
    name: &str,
    command: &Vec<String>,
    matrix_problems: &Vec<String>,
    fixture: &str,
    options: &BenchmarkOptions,
    own_iterations: Option<u64>,
    own_warmup: Option<u64>,
    own_timeout_ms: Option<u64>,
    bench: &crate::config::BenchConfig,
    runner: &crate::config::RunnerConfig,
) -> (r: Result<BenchmarkSettings, String>)
    ensures
        match benchmark_problem(
            name@,
            command@.len(),
            crate::diagnosis::strings_view(matrix_problems@),
            fixture@,
            chosen(options.iterations, own_iterations, bench.iterations),
        ) {
            Some(p) => r matches Err(e) && e@ == p,
            None => r matches Ok(s) && s.iterations == chosen(options.iterations, own_iterations, bench.iterations)
                && s.warmup == chosen(options.warmup, own_warmup, bench.warmup) && s.timeout_ms == match own_timeout_ms {
                Some(t) => t,
                None => runner.timeout_ms,
            },
        },
{
    if command.len() == 0 {
        let mut m: Vec<char> = Vec::new();
        crate::text::push_str(&mut m, "benchmark ");
        crate::text::push_str(&mut m, name);
        crate::text::push_str(&mut m, " command is empty");
        return Err(crate::text::string_of(m.as_slice()));
    }
    if matrix_problems.len() > 0 {
        let mut m: Vec<char> = Vec::new();
        crate::text::push_str(&mut m, "benchmark ");
        crate::text::push_str(&mut m, name);
        crate::text::push_str(&mut m, " has an invalid matrix: ");
        let listed = crate::console::join_strings(matrix_problems, "; ");
        crate::text::push_chars(&mut m, listed.as_slice());
        return Err(crate::text::string_of(m.as_slice()));
    }
    if !crate::paths::is_safe_relative_path(fixture) {
        let mut m: Vec<char> = Vec::new();
        crate::text::push_str(&mut m, "benchmark ");
        crate::text::push_str(&mut m, name);
        crate::text::push_str(&mut m, " fixture path is unsafe: ");
        crate::text::push_str(&mut m, fixture);
        return Err(crate::text::string_of(m.as_slice()));
    }
    let iterations = match options.iterations {
        Some(v) => v,
        None => match own_iterations {
            Some(v) => v,
            None => bench.iterations,
        },
    };
    if iterations == 0 {
        let mut m: Vec<char> = Vec::new();
        crate::text::push_str(&mut m, "benchmark ");
        crate::text::push_str(&mut m, name);
        crate::text::push_str(&mut m, " iterations must be greater than 0");
        return Err(crate::text::string_of(m.as_slice()));
    }
    let warmup = match options.warmup {
        Some(v) => v,
        None => match own_warmup {
            Some(v) => v,
            None => bench.warmup,
        },
    };
    let timeout_ms = match own_timeout_ms {
        Some(t) => t,
        None => runner.timeout_ms,
    };
    Ok(BenchmarkSettings { iterations, warmup, timeout_ms })
}

} // verus!
