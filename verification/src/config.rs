//! A project's configuration: the runner's and benchmarks' limits, git and
//! gate behaviour, and extra names the integrity digest leaves out.
use vstd::prelude::*;

use crate::text::{chars_of, contains, push_decimal, push_str, string_of, trim};

verus! {

/// Names the integrity digest leaves out, besides the built-in ones.
#[derive(Debug, Clone)]
pub struct IntegrityConfig {
    pub exclude: Vec<String>,
}

#[derive(Debug, Clone, Copy)]
pub struct RunnerConfig {
    pub timeout_ms: u64,
    pub build_timeout_ms: u64,
    pub keep_temp: bool,
}

#[derive(Debug, Clone, Copy)]
pub struct BenchConfig {
    pub iterations: u64,
    pub warmup: u64,
}

#[derive(Debug, Clone, Copy)]
pub struct GitConfig {
    pub auto_commit: bool,
    pub auto_tag: bool,
}

#[derive(Debug, Clone, Copy)]
pub struct GatesConfig {
    pub enforce: bool,
}

#[derive(Debug, Clone)]
pub struct ProjectConfig {
    pub schema_version: u32,
    pub runner: RunnerConfig,
    pub bench: BenchConfig,
    pub git: GitConfig,
    pub integrity: IntegrityConfig,
    pub gates: GatesConfig,
}

impl Default for IntegrityConfig {
    fn default() -> (c: Self)
        ensures
            c.exclude@.len() == 0,
    {
        IntegrityConfig { exclude: Vec::new() }
    }
}

impl Default for RunnerConfig {
    fn default() -> (c: Self)
        ensures
            c.timeout_ms == 5000,
            c.build_timeout_ms == 120000,
            !c.keep_temp,
    {
        RunnerConfig { timeout_ms: 5000, build_timeout_ms: 120000, keep_temp: false }
    }
}

impl Default for BenchConfig {
    fn default() -> (c: Self)
        ensures
            c.iterations == 7,
            c.warmup == 2,
    {
        BenchConfig { iterations: 7, warmup: 2 }
    }
}

impl Default for GitConfig {
    fn default() -> (c: Self)
        ensures
            !c.auto_commit,
            c.auto_tag,
    {
        GitConfig { auto_commit: false, auto_tag: true }
    }
}

impl Default for GatesConfig {
    fn default() -> (c: Self)
        ensures
            c.enforce,
    {
        GatesConfig { enforce: true }
    }
}

impl Default for ProjectConfig {
    fn default() -> (c: Self)
        ensures
            c.schema_version == 1,
            c.runner.timeout_ms == 5000,
            c.runner.build_timeout_ms == 120000,
            !c.runner.keep_temp,
            c.bench.iterations == 7,
            c.bench.warmup == 2,
            !c.git.auto_commit,
            c.git.auto_tag,
            c.integrity.exclude@.len() == 0,
            c.gates.enforce,
    {
        ProjectConfig {
            schema_version: 1,
            runner: RunnerConfig::default(),
            bench: BenchConfig::default(),
            git: GitConfig::default(),
            integrity: IntegrityConfig::default(),
            gates: GatesConfig::default(),
        }
    }
}

/// How `Debug` writes a string, quotes and escapes included.
pub uninterp spec fn str_debug(s: Seq<char>) -> Seq<char>;

/// `format!("{s:?}")` for a string.
#[verifier::external_body]
fn debug_str(s: &str) -> (out: String)
    ensures
        out@ == str_debug(s@),
{
    format!("{s:?}")
}

/// An exclusion that is a plain name: not blank, no separator.
pub open spec fn plain_name(name: Seq<char>) -> bool {
    trim(name).len() > 0 && !contains(name, seq!['/']) && !contains(name, seq!['\\'])
}

/// The first exclusion that is not a plain name.
pub open spec fn first_unplain(names: Seq<String>) -> Option<Seq<char>>
    decreases names.len(),
{
    if names.len() == 0 {
        None
    } else if !plain_name(names[0]@) {
        Some(names[0]@)
    } else {
        first_unplain(names.drop_first())
    }
}

/// Why a configuration read from `path` is refused, checked in order.
pub open spec fn config_problem(c: ProjectConfig, path: Seq<char>) -> Option<Seq<char>> {
    let invalid = "invalid config "@ + path;
    if c.schema_version != 1 {
        Some("unsupported config schema_version "@ + crate::text::decimal(c.schema_version as nat) + " in "@ + path
            + "; expected 1"@)
    } else if c.runner.timeout_ms == 0 {
        Some(invalid + ": runner.timeout_ms must be greater than 0"@)
    } else if c.runner.build_timeout_ms == 0 {
        Some(invalid + ": runner.build_timeout_ms must be greater than 0"@)
    } else if c.bench.iterations == 0 {
        Some(invalid + ": bench.iterations must be greater than 0"@)
    } else {
        match first_unplain(c.integrity.exclude@) {
            Some(name) => Some(invalid
                + ": integrity.exclude entries must be plain file or directory names, got "@
                + str_debug(name)),
            None => None,
        }
    }
}

fn invalid_config(path: &str, rest: &str) -> (e: String)
    ensures
        e@ == "invalid config "@ + path@ + rest@,
{
    let mut m: Vec<char> = Vec::new();
    push_str(&mut m, "invalid config ");
    push_str(&mut m, path);
    push_str(&mut m, rest);
    string_of(m.as_slice())
}

impl ProjectConfig {
    /// Check a configuration read from `path`.
    pub fn validate(&self, path: &str) -> (r: Result<(), String>)
        ensures
            match config_problem(*self, path@) {
                Some(e) => r matches Err(x) && x@ == e,
                None => r is Ok,
            },
    {
        if self.schema_version != 1 {
            let mut m: Vec<char> = Vec::new();
            push_str(&mut m, "unsupported config schema_version ");
            push_decimal(&mut m, self.schema_version as u64);
            push_str(&mut m, " in ");
            push_str(&mut m, path);
            push_str(&mut m, "; expected 1");
            return Err(string_of(m.as_slice()));
        }
        if self.runner.timeout_ms == 0 {
            return Err(invalid_config(path, ": runner.timeout_ms must be greater than 0"));
        }
        if self.runner.build_timeout_ms == 0 {
            return Err(invalid_config(path, ": runner.build_timeout_ms must be greater than 0"));
        }
        if self.bench.iterations == 0 {
            return Err(invalid_config(path, ": bench.iterations must be greater than 0"));
        }
        let names = &self.integrity.exclude;
        let mut i: usize = 0;
        assert(names@.skip(0) =~= names@);
        while i < names.len()
            invariant
                i <= names@.len(),
                names@ == self.integrity.exclude@,
                self.schema_version == 1,
                self.runner.timeout_ms != 0,
                self.runner.build_timeout_ms != 0,
                self.bench.iterations != 0,
                first_unplain(names@) == first_unplain(names@.skip(i as int)),
            decreases names@.len() - i,
        {
            assert(names@.skip(i as int).drop_first() =~= names@.skip(i + 1));
            assert(names@.skip(i as int)[0] == names@[i as int]);
            let c = chars_of(names[i].as_str());
            let blank = crate::text::trim_chars(c.as_slice()).len() == 0;
            let slash = vec!['/'];
            let back = vec!['\\'];
            assert(slash@ =~= seq!['/']);
            assert(back@ =~= seq!['\\']);
            if blank || crate::text::contains_exec(c.as_slice(), slash.as_slice())
                || crate::text::contains_exec(c.as_slice(), back.as_slice()) {
                let m = invalid_config(
                    path,
                    ": integrity.exclude entries must be plain file or directory names, got ",
                );
                let mut v = chars_of(m.as_str());
                push_str(&mut v, debug_str(names[i].as_str()).as_str());
                return Err(string_of(v.as_slice()));
            }
            i = i + 1;
        }
        Ok(())
    }
}

} // verus!
