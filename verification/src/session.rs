//! The workbench's view of where the learner is: whether the latest result
//! is still current, what the main button does, and what a returning
//! learner is told.
use vstd::prelude::*;

use crate::gate::GateStatus;
use crate::text::{chars_of, push_str, string_of};

verus! {

/// What started a run.
#[derive(Debug, Clone, Copy, PartialEq, Eq, Structural)]
pub enum RunTrigger {
    Cli,
    Workbench,
}

/// An event sink that discards every event.
#[derive(Debug, Clone, Copy)]
pub struct NullEventSink;

/// A request to run a stage's checks.
#[derive(Debug, Clone)]
pub struct TestRunRequest {
    pub stage: Option<String>,
    pub all: bool,
    pub filter: Option<String>,
    pub list_tests: bool,
    pub fail_fast: bool,
    pub no_build: bool,
    pub keep_temp: bool,
    pub capture_details: bool,
    pub trigger: RunTrigger,
}

/// A request to run a stage's benchmarks.
#[derive(Debug, Clone)]
pub struct BenchmarkRunRequest {
    pub stage: Option<String>,
    pub all: bool,
    pub iterations: Option<u64>,
    pub warmup: Option<u64>,
    pub save: bool,
    pub compare: bool,
    pub trigger: RunTrigger,
}

/// Whether the latest test result still describes the current source.
#[derive(Debug, Clone, Copy, PartialEq, Eq, Structural)]
pub enum ResultFreshness {
    NeverRun,
    Fresh,
    Stale,
}

/// The step the learner is on.
#[derive(Debug, Clone)]
pub struct CapabilityState {
    pub id: String,
    pub title: String,
    pub completed: bool,
    pub next_id: Option<String>,
}

/// A step on the journey rail and where its gates stand.
#[derive(Debug, Clone)]
pub struct StageGateMarker {
    pub stage_id: String,
    pub has_benchmarks: bool,
    pub status: Option<GateStatus>,
}

#[derive(Debug, Clone, Copy, PartialEq, Eq, Structural)]
pub enum PrimaryActionKind {
    RunChecks,
    ResumeChecks,
    CancelRun,
    BeginNextCapability,
    JourneyComplete,
}

/// The workbench's main button.
#[derive(Debug, Clone)]
pub struct PrimaryAction {
    pub kind: PrimaryActionKind,
    pub label: String,
    pub enabled: bool,
}

#[derive(Debug, Clone, Copy, PartialEq, Eq, Structural)]
pub enum ResumptionKind {
    Interrupted,
    CapabilityChanged,
    SourceChanged,
    ChecksFailed,
    CapabilityAcquired,
    Ready,
}

/// The step a returning learner left and the one they are on now.
#[derive(Debug, Clone)]
pub struct StageChangeSummary {
    pub from_id: String,
    pub from_title: String,
    pub to_id: String,
    pub to_title: String,
}

/// What a returning learner is told about where they left off.
#[derive(Debug, Clone)]
pub struct ResumptionSummary {
    pub kind: ResumptionKind,
    pub title: String,
    pub detail: String,
    pub previous_session_started_at: Option<String>,
    pub stage_change: Option<StageChangeSummary>,
    pub action_pending: bool,
}

/// A result is fresh when it was taken of the source as it is now.
pub open spec fn freshness_of(last_run_digest: Option<Seq<char>>, current_digest: Seq<char>) -> ResultFreshness {
    match last_run_digest {
        None => ResultFreshness::NeverRun,
        Some(d) => if d == current_digest {
            ResultFreshness::Fresh
        } else {
            ResultFreshness::Stale
        },
    }
}

pub fn result_freshness(last_run_digest: Option<&str>, current_digest: &str) -> (f: ResultFreshness)
    ensures
        f == freshness_of(
            match last_run_digest {
                Some(d) => Some(d@),
                None => None,
            },
            current_digest@,
        ),
{
    match last_run_digest {
        None => ResultFreshness::NeverRun,
        Some(d) => {
            let a = chars_of(d);
            let b = chars_of(current_digest);
            if crate::text::chars_eq(a.as_slice(), b.as_slice()) {
                ResultFreshness::Fresh
            } else {
                ResultFreshness::Stale
            }
        },
    }
}

/// The main button: cancel a running job; after a fresh pass, go on to the
/// next step or celebrate the last; otherwise run the checks, or resume
/// with them where the learner's last session left an action pending.
pub open spec fn primary_action_spec(
    job_active: bool,
    completed: bool,
    freshness: ResultFreshness,
    has_next: bool,
    resumption: Option<(ResumptionKind, bool)>,
) -> (PrimaryActionKind, Seq<char>, bool) {
    if job_active {
        (PrimaryActionKind::CancelRun, "Cancel run"@, true)
    } else if completed && freshness == ResultFreshness::Fresh {
        if has_next {
            (PrimaryActionKind::BeginNextCapability, "Begin next step"@, true)
        } else {
            (PrimaryActionKind::JourneyComplete, "Project complete"@, false)
        }
    } else {
        match resumption {
            Some((kind, true)) => (
                PrimaryActionKind::ResumeChecks,
                if kind == ResumptionKind::Interrupted {
                    "Run checks again"@
                } else {
                    "Resume with checks"@
                },
                true,
            ),
            _ => (
                PrimaryActionKind::RunChecks,
                if freshness == ResultFreshness::NeverRun {
                    "Run initial checks"@
                } else {
                    "Run checks again"@
                },
                true,
            ),
        }
    }
}

pub open spec fn resumption_key(r: Option<&ResumptionSummary>) -> Option<(ResumptionKind, bool)> {
    match r {
        Some(s) => Some((s.kind, s.action_pending)),
        None => None,
    }
}

fn action(kind: PrimaryActionKind, label: &str, enabled: bool) -> (a: PrimaryAction)
    ensures
        a.kind == kind,
        a.label@ == label@,
        a.enabled == enabled,
{
    PrimaryAction { kind, label: String::from_str(label), enabled }
}

pub fn primary_action(
    job_active: bool,
    completed: bool,
    freshness: ResultFreshness,
    has_next: bool,
    resumption: Option<&ResumptionSummary>,
) -> (a: PrimaryAction)
    ensures
        (a.kind, a.label@, a.enabled) == primary_action_spec(
            job_active,
            completed,
            freshness,
            has_next,
            resumption_key(resumption),
        ),
{
    if job_active {
        return action(PrimaryActionKind::CancelRun, "Cancel run", true);
    }
    if completed && freshness == ResultFreshness::Fresh {
        if has_next {
            return action(PrimaryActionKind::BeginNextCapability, "Begin next step", true);
        }
        return action(PrimaryActionKind::JourneyComplete, "Project complete", false);
    }
    match resumption {
        Some(s) => {
            if s.action_pending {
                if s.kind == ResumptionKind::Interrupted {
                    return action(PrimaryActionKind::ResumeChecks, "Run checks again", true);
                }
                return action(PrimaryActionKind::ResumeChecks, "Resume with checks", true);
            }
        },
        None => {},
    }
    if freshness == ResultFreshness::NeverRun {
        action(PrimaryActionKind::RunChecks, "Run initial checks", true)
    } else {
        action(PrimaryActionKind::RunChecks, "Run checks again", true)
    }
}

/// What the returning learner is told, in order of precedence: an
/// interrupted run, a changed step, changed source, a completed step still
/// current, a failing check ready to look at, or simply ready.
pub open spec fn resumption_kind(
    interrupted: bool,
    stage_changed: bool,
    freshness: ResultFreshness,
    completed: bool,
    has_failure: bool,
) -> ResumptionKind {
    if interrupted {
        ResumptionKind::Interrupted
    } else if stage_changed {
        ResumptionKind::CapabilityChanged
    } else if freshness == ResultFreshness::Stale {
        ResumptionKind::SourceChanged
    } else if completed && freshness == ResultFreshness::Fresh {
        ResumptionKind::CapabilityAcquired
    } else if has_failure && freshness == ResultFreshness::Fresh {
        ResumptionKind::ChecksFailed
    } else {
        ResumptionKind::Ready
    }
}

/// The title and detail for each kind; a changed step names both steps.
pub open spec fn resumption_text(kind: ResumptionKind, change: Option<(Seq<char>, Seq<char>)>) -> (Seq<char>, Seq<char>) {
    match kind {
        ResumptionKind::Interrupted => (
            "Previous run interrupted"@,
            "DeltaForge preserved the last completed test result. Run checks again when you are ready."@,
        ),
        ResumptionKind::CapabilityChanged => (
            "Current step changed"@,
            match change {
                Some((from, to)) => "Your previous session was on "@ + from + ". Continue with "@ + to + "."@,
                None => Seq::empty(),
            },
        ),
        ResumptionKind::SourceChanged => (
            "Source changed since the last result"@,
            "Your previous test result is preserved, but the current source needs a new check run."@,
        ),
        ResumptionKind::CapabilityAcquired => (
            "Completed step is still current"@,
            "The completed step and its passing test result were restored without rerunning checks."@,
        ),
        ResumptionKind::ChecksFailed => (
            "Your last failing check is ready"@,
            "The latest run and first failing check were restored without rerunning checks."@,
        ),
        ResumptionKind::Ready => (
            "Ready to continue"@,
            "Your project and current step were restored without rerunning checks."@,
        ),
    }
}

/// The summary for a learner returning to the session they left. `None`
/// where there is nothing to resume: no earlier session and no interrupted
/// run. `action_pending` holds when the project state has not changed since
/// the session began.
pub fn resumption_summary(
    previous_session_started_at: Option<String>,
    interrupted: bool,
    stage_change: Option<StageChangeSummary>,
    freshness: ResultFreshness,
    completed: bool,
    has_failure: bool,
    action_pending: bool,
) -> (r: Option<ResumptionSummary>)
    ensures
        (previous_session_started_at is None && !interrupted) ==> r is None,
        !(previous_session_started_at is None && !interrupted) ==> (r matches Some(s) && {
            let kind = resumption_kind(interrupted, stage_change is Some, freshness, completed, has_failure);
            let text = resumption_text(
                kind,
                match stage_change {
                    Some(c) => Some((c.from_title@, c.to_title@)),
                    None => None,
                },
            );
            &&& s.kind == kind
            &&& s.title@ == text.0
            &&& s.detail@ == text.1
            &&& s.previous_session_started_at == previous_session_started_at
            &&& s.action_pending == action_pending
            &&& s.stage_change == stage_change
        }),
{
    if previous_session_started_at.is_none() && !interrupted {
        return None;
    }
    let (kind, title, detail): (ResumptionKind, String, String) = if interrupted {
        (
            ResumptionKind::Interrupted,
            String::from_str("Previous run interrupted"),
            String::from_str(
                "DeltaForge preserved the last completed test result. Run checks again when you are ready.",
            ),
        )
    } else if let Some(change) = &stage_change {
        let mut d: Vec<char> = Vec::new();
        push_str(&mut d, "Your previous session was on ");
        push_str(&mut d, change.from_title.as_str());
        push_str(&mut d, ". Continue with ");
        push_str(&mut d, change.to_title.as_str());
        push_str(&mut d, ".");
        (ResumptionKind::CapabilityChanged, String::from_str("Current step changed"), string_of(d.as_slice()))
    } else if freshness == ResultFreshness::Stale {
        (
            ResumptionKind::SourceChanged,
            String::from_str("Source changed since the last result"),
            String::from_str(
                "Your previous test result is preserved, but the current source needs a new check run.",
            ),
        )
    } else if completed && freshness == ResultFreshness::Fresh {
        (
            ResumptionKind::CapabilityAcquired,
            String::from_str("Completed step is still current"),
            String::from_str(
                "The completed step and its passing test result were restored without rerunning checks.",
            ),
        )
    } else if has_failure && freshness == ResultFreshness::Fresh {
        (
            ResumptionKind::ChecksFailed,
            String::from_str("Your last failing check is ready"),
            String::from_str(
                "The latest run and first failing check were restored without rerunning checks.",
            ),
        )
    } else {
        (
            ResumptionKind::Ready,
            String::from_str("Ready to continue"),
            String::from_str("Your project and current step were restored without rerunning checks."),
        )
    };
    Some(
        ResumptionSummary {
            kind,
            title,
            detail,
            previous_session_started_at,
            stage_change,
            action_pending,
        },
    )
}

// ------------------------------------------------------------ decisions

/// The help level to reveal next, from the level already revealed, or why
/// none can be.
pub open spec fn next_hint(current: nat, levels: nat, completed: bool) -> Result<nat, Seq<char>> {
    let maximum = crate::help::available_levels(levels, completed);
    if maximum == 0 {
        Err("this capability has no help levels"@)
    } else if current >= maximum {
        if completed {
            Err("all help levels are already revealed"@)
        } else {
            Err("the retrospective unlocks after this capability is acquired"@)
        }
    } else {
        Ok(current + 1)
    }
}

/// Reveal one more help level, never past the ceiling that
/// `available_help_levels` publishes: the new revealed level, or why none
/// is left.
pub fn reveal_next_hint(current: usize, levels: usize, completed: bool) -> (r: Result<usize, String>)
    ensures
        match next_hint(current as nat, levels as nat, completed) {
            Ok(n) => r matches Ok(x) && x == n,
            Err(e) => r matches Err(x) && x@ == e,
        },
        r is Ok <==> (current as nat) < crate::help::available_levels(levels as nat, completed),
{
    let maximum = crate::help::available_help_levels(levels, completed);
    if maximum == 0 {
        return Err(String::from_str("this capability has no help levels"));
    }
    if current >= maximum {
        if completed {
            return Err(String::from_str("all help levels are already revealed"));
        }
        return Err(String::from_str("the retrospective unlocks after this capability is acquired"));
    }
    Ok(current + 1)
}

/// What the hint command does: show nothing for a stage without help, or
/// show some levels and record how far help now goes.
#[derive(Debug)]
pub enum HintPlan {
    NoHints,
    Show { levels: Vec<usize>, revealed: usize },
}

/// The levels `first..=last`, in order.
pub open spec fn level_range(first: int, last: int) -> Seq<usize>
    decreases last - first + 1,
{
    if last < first {
        Seq::empty()
    } else {
        level_range(first, last - 1).push(last as usize)
    }
}

/// The hint command's decision, from the level asked for (or every level
/// available, or the next one), the level already revealed, the number of
/// help levels, and whether the stage is complete.
pub open spec fn hint_plan(asked: Option<usize>, all: bool, current: nat, levels: nat, completed: bool) -> Result<
    (bool, Seq<usize>, nat),
    Seq<char>,
> {
    let maximum = crate::help::available_levels(levels, completed);
    if asked == Some(0usize) {
        Err("hint level must be greater than 0"@)
    } else if levels == 0 {
        Ok((false, Seq::empty(), current))
    } else if all {
        Ok((true, level_range(1, maximum as int), maximum))
    } else {
        let level: int = match asked {
            Some(l) => l as int,
            None => (current + 1) as int,
        };
        if level > maximum {
            if levels <= maximum {
                Err("all help levels are already revealed"@)
            } else {
                Err("the retrospective unlocks after this capability is acquired"@)
            }
        } else {
            Ok((true, seq![level as usize], if current >= level {
                current
            } else {
                level as nat
            }))
        }
    }
}

/// Decide what the hint command shows and records.
pub fn plan_hints(asked: Option<usize>, all: bool, current: usize, levels: usize, completed: bool) -> (r: Result<HintPlan, String>)
    requires
        current < usize::MAX,
    ensures
        match hint_plan(asked, all, current as nat, levels as nat, completed) {
            Err(e) => r matches Err(x) && x@ == e,
            Ok((false, _, _)) => r matches Ok(HintPlan::NoHints),
            Ok((true, shown, revealed)) => r matches Ok(HintPlan::Show { levels: l, revealed: n }) && l@ == shown
                && n == revealed,
        },
{
    if asked == Some(0usize) {
        return Err(String::from_str("hint level must be greater than 0"));
    }
    if levels == 0 {
        return Ok(HintPlan::NoHints);
    }
    let maximum = crate::help::available_help_levels(levels, completed);
    if all {
        let mut shown: Vec<usize> = Vec::new();
        let mut k: usize = 0;
        while k < maximum
            invariant
                k <= maximum,
                shown@ == level_range(1, k as int),
            decreases maximum - k,
        {
            k = k + 1;
            shown.push(k);
        }
        return Ok(HintPlan::Show { levels: shown, revealed: maximum });
    }
    let level = match asked {
        Some(l) => l,
        None => current + 1,
    };
    if level > maximum {
        if levels <= maximum {
            return Err(String::from_str("all help levels are already revealed"));
        }
        return Err(String::from_str("the retrospective unlocks after this capability is acquired"));
    }
    let revealed = if current >= level {
        current
    } else {
        level
    };
    let mut shown: Vec<usize> = Vec::new();
    shown.push(level);
    assert(shown@ =~= seq![level]);
    Ok(HintPlan::Show { levels: shown, revealed })
}

/// The lines the hint command prints for one help level.
pub open spec fn hint_lines(total: usize, level: usize, content: Seq<char>) -> Seq<Seq<char>> {
    seq![
        "Hint "@ + crate::text::decimal(level as nat) + "/"@ + crate::text::decimal(total as nat) + ":"@,
        crate::text::trim(content),
        Seq::empty(),
    ]
}

pub fn hint_output(total: usize, level: usize, content: &str) -> (out: Vec<String>)
    ensures
        out@.map_values(|s: String| s@) == hint_lines(total, level, content@),
{
    let mut head: Vec<char> = Vec::new();
    push_str(&mut head, "Hint ");
    crate::text::push_decimal(&mut head, level as u64);
    push_str(&mut head, "/");
    crate::text::push_decimal(&mut head, total as u64);
    push_str(&mut head, ":");
    let c = chars_of(content);
    let body = crate::text::trim_chars(c.as_slice());
    let mut out: Vec<String> = Vec::new();
    out.push(string_of(head.as_slice()));
    out.push(string_of(body.as_slice()));
    out.push(String::new());
    assert(out@.map_values(|s: String| s@) =~= hint_lines(total, level, content@));
    out
}

/// A run is active while a job is recorded and its lease is held.
pub fn run_is_active(job_recorded: bool, lease_held: bool) -> (b: bool)
    ensures
        b == (job_recorded && lease_held),
{
    job_recorded && lease_held
}

/// Ask the active run to stop: the job's identifier and the sentinel file to
/// write, or why there is nothing to cancel.
pub fn cancel_active_run(project_root: &str, active_job: Option<&str>, lease_held: bool) -> (r: Result<(String, String), String>)
    ensures
        match active_job {
            None => r matches Err(e) && e@ == "there is no active run to cancel"@,
            Some(id) => if !lease_held {
                r matches Err(e) && e@ == "the active run has already stopped"@
            } else if crate::health::valid_job_id(id@) {
                r matches Ok((j, p)) && j@ == id@ && p@ == crate::paths::path_join(
                    crate::paths::path_join(project_root@, ".deltaforge"@),
                    "cancel-"@ + id@,
                )
            } else {
                r matches Err(e) && e@ == "active job identifier is invalid"@
            },
        },
{
    let id = match active_job {
        Some(id) => id,
        None => return Err(String::from_str("there is no active run to cancel")),
    };
    if !lease_held {
        return Err(String::from_str("the active run has already stopped"));
    }
    let path = crate::health::cancellation_path(project_root, id)?;
    Ok((String::from_str(id), path))
}

/// What a project is pinned to: the pack's version, where it was
/// installed from, and the digest of its contents.
#[derive(Debug, Clone)]
pub struct PackPin {
    pub pack_version: String,
    pub pack_source: String,
    pub pack_digest: String,
}

/// Why a project may not use the pack discovery selected, if it may not:
/// a pinned version that differs, a pinned source it does not come from,
/// or a pinned digest its contents no longer have. An empty pin value is
/// not checked.
pub open spec fn pin_problem(
    project: Seq<char>,
    pin: PackPin,
    pack_version: Seq<char>,
    pack_root: Seq<char>,
    source_matches: bool,
    source_label: Seq<char>,
    current_digest: Option<Seq<char>>,
) -> Option<Seq<char>> {
    if pin.pack_version@.len() > 0 && pin.pack_version@ != pack_version {
        Some(
            "project is pinned to pack "@ + project + " version "@ + pin.pack_version@
                + ", but discovery selected version "@ + pack_version + " from "@ + pack_root
                + ". Adopt the currently discovered pack definition to continue."@,
        )
    } else if pin.pack_source@.len() > 0 && !source_matches {
        Some(
            "project is pinned to pack source "@ + pin.pack_source@ + ", but discovery selected "@ + source_label
                + ". Restore the original pack source or adopt the currently discovered pack definition."@,
        )
    } else if pin.pack_digest@.len() > 0 && current_digest != Some(pin.pack_digest@) {
        Some("pack contents changed since project initialization. Adopt the currently discovered pack definition to continue."@)
    } else {
        None
    }
}

/// Check that a project may use the pack discovery selected. The caller
/// says whether the pack comes from the pinned source, and supplies the
/// pack's current digest where a digest is pinned.
pub fn check_pack_pin(
    project: &str,
    pin: &PackPin,
    pack_version: &str,
    pack_root: &str,
    source_matches: bool,
    source_label: &str,
    current_digest: Option<&str>,
) -> (r: Result<(), String>)
    requires
        pin.pack_digest@.len() > 0 ==> current_digest is Some,
    ensures
        match pin_problem(
            project@,
            *pin,
            pack_version@,
            pack_root@,
            source_matches,
            source_label@,
            match current_digest {
                Some(d) => Some(d@),
                None => None,
            },
        ) {
            Some(p) => r matches Err(e) && e@ == p,
            None => r is Ok,
        },
{
    let pinned_version = chars_of(pin.pack_version.as_str());
    if pinned_version.len() > 0 && !crate::text::chars_eq_str(pinned_version.as_slice(), pack_version) {
        let mut m: Vec<char> = Vec::new();
        push_str(&mut m, "project is pinned to pack ");
        push_str(&mut m, project);
        push_str(&mut m, " version ");
        push_str(&mut m, pin.pack_version.as_str());
        push_str(&mut m, ", but discovery selected version ");
        push_str(&mut m, pack_version);
        push_str(&mut m, " from ");
        push_str(&mut m, pack_root);
        push_str(&mut m, ". Adopt the currently discovered pack definition to continue.");
        return Err(string_of(m.as_slice()));
    }
    let pinned_source = chars_of(pin.pack_source.as_str());
    if pinned_source.len() > 0 && !source_matches {
        let mut m: Vec<char> = Vec::new();
        push_str(&mut m, "project is pinned to pack source ");
        push_str(&mut m, pin.pack_source.as_str());
        push_str(&mut m, ", but discovery selected ");
        push_str(&mut m, source_label);
        push_str(&mut m, ". Restore the original pack source or adopt the currently discovered pack definition.");
        return Err(string_of(m.as_slice()));
    }
    let pinned_digest = chars_of(pin.pack_digest.as_str());
    if pinned_digest.len() > 0 {
        let current = current_digest.unwrap();
        if !crate::text::chars_eq_str(pinned_digest.as_slice(), current) {
            return Err(
                String::from_str(
                    "pack contents changed since project initialization. Adopt the currently discovered pack definition to continue.",
                ),
            );
        }
    }
    Ok(())
}

/// Whether the project's health says its pack changed under it.
pub open spec fn pack_changed(health: crate::health::ProjectHealth) -> bool {
    health.issue matches Some(i) && i.code@ == "pack_changed"@
}

/// Adopt the installed pack: offered only for a pack that changed, when the
/// project's pin becomes the installed pack's version, source and digest.
/// A refused re-pin leaves the pin as it was.
pub fn repin_current_pack(health: &crate::health::ProjectHealth, pin: &mut PackPin, installed: &PackPin) -> (r: Result<(), String>)
    ensures
        pack_changed(*health) ==> {
            &&& r is Ok
            &&& final(pin).pack_version@ == installed.pack_version@
            &&& final(pin).pack_source@ == installed.pack_source@
            &&& final(pin).pack_digest@ == installed.pack_digest@
        },
        !pack_changed(*health) ==> {
            &&& r matches Err(e) && e@ == "the project does not require pack recovery"@
            &&& *final(pin) == *old(pin)
        },
{
    let needed = match &health.issue {
        Some(issue) => {
            let c = chars_of(issue.code.as_str());
            crate::text::chars_eq_str(c.as_slice(), "pack_changed")
        },
        None => false,
    };
    if needed {
        pin.pack_version = crate::text::copy_string(&installed.pack_version);
        pin.pack_source = crate::text::copy_string(&installed.pack_source);
        pin.pack_digest = crate::text::copy_string(&installed.pack_digest);
        Ok(())
    } else {
        Err(String::from_str("the project does not require pack recovery"))
    }
}

/// One measured point of a benchmark run, as far as the run's success goes.
#[derive(Debug, Clone, Copy)]
pub struct PointOutcome {
    pub success: bool,
}

/// One benchmark's record in a run: its points.
#[derive(Debug, Clone)]
pub struct RecordOutcome {
    pub benchmark: String,
    pub points: Vec<PointOutcome>,
}

/// What a benchmark run produced: its records, whether they were saved, and
/// the error that stopped it, if one did.
#[derive(Debug, Clone)]
pub struct BenchmarkRunOutcome {
    pub job_id: String,
    pub records: Vec<RecordOutcome>,
    pub saved: bool,
    pub execution_error: Option<String>,
}

/// The failed points among `points`.
pub open spec fn failures_in(points: Seq<PointOutcome>) -> nat
    decreases points.len(),
{
    if points.len() == 0 {
        0
    } else {
        failures_in(points.drop_last()) + if points.last().success {
            0nat
        } else {
            1nat
        }
    }
}

pub open spec fn failures_across(records: Seq<RecordOutcome>) -> nat
    decreases records.len(),
{
    if records.len() == 0 {
        0
    } else {
        failures_across(records.drop_last()) + failures_in(records.last().points@)
    }
}

impl BenchmarkRunOutcome {
    /// A run succeeds when it completed and every measured point produced a
    /// result; a gate that is not met is no failure of the run.
    pub fn is_success(&self) -> (b: bool)
        ensures
            b == (self.execution_error is None && forall|i: int, j: int|
                0 <= i < self.records@.len() && 0 <= j < self.records@[i].points@.len()
                    ==> (#[trigger] self.records@[i].points@[j]).success),
    {
        if self.execution_error.is_some() {
            return false;
        }
        let mut i: usize = 0;
        while i < self.records.len()
            invariant
                i <= self.records@.len(),
                forall|a: int, b: int|
                    0 <= a < i && 0 <= b < self.records@[a].points@.len()
                        ==> (#[trigger] self.records@[a].points@[b]).success,
            decreases self.records@.len() - i,
        {
            let points = &self.records[i].points;
            let mut j: usize = 0;
            while j < points.len()
                invariant
                    i < self.records@.len(),
                    points@ == self.records@[i as int].points@,
                    j <= points@.len(),
                    forall|a: int, b: int|
                        0 <= a < i && 0 <= b < self.records@[a].points@.len()
                            ==> (#[trigger] self.records@[a].points@[b]).success,
                    forall|b: int| 0 <= b < j ==> (#[trigger] points@[b]).success,
                decreases points@.len() - j,
            {
                if !points[j].success {
                    return false;
                }
                j = j + 1;
            }
            i = i + 1;
        }
        true
    }

    /// How many measured points failed, across every record.
    pub fn failed_points(&self) -> (n: usize)
        requires
            failures_across(self.records@) <= usize::MAX,
        ensures
            n == failures_across(self.records@),
    {
        let mut n: usize = 0;
        let mut i: usize = 0;
        while i < self.records.len()
            invariant
                i <= self.records@.len(),
                failures_across(self.records@) <= usize::MAX,
                n == failures_across(self.records@.take(i as int)),
            decreases self.records@.len() - i,
        {
            let points = &self.records[i].points;
            let ghost base = n;
            proof {
                lemma_failures_prefix(self.records@, i + 1);
                assert(self.records@.take(i + 1).drop_last() =~= self.records@.take(i as int));
            }
            let mut j: usize = 0;
            while j < points.len()
                invariant
                    i < self.records@.len(),
                    points@ == self.records@[i as int].points@,
                    j <= points@.len(),
                    base + failures_in(points@) <= usize::MAX,
                    n == base + failures_in(points@.take(j as int)),
                decreases points@.len() - j,
            {
                proof {
                    assert(points@.take(j + 1).drop_last() =~= points@.take(j as int));
                    lemma_failures_in_prefix(points@, j + 1);
                }
                if !points[j].success {
                    n = n + 1;
                }
                j = j + 1;
            }
            assert(points@.take(j as int) =~= points@);
            i = i + 1;
        }
        assert(self.records@.take(i as int) =~= self.records@);
        n
    }
}

proof fn lemma_failures_in_prefix(points: Seq<PointOutcome>, k: int)
    requires
        0 <= k <= points.len(),
    ensures
        failures_in(points.take(k)) <= failures_in(points),
    decreases points.len() - k,
{
    if k < points.len() {
        lemma_failures_in_prefix(points, k + 1);
        assert(points.take(k + 1).drop_last() =~= points.take(k));
    } else {
        assert(points.take(k) =~= points);
    }
}

proof fn lemma_failures_prefix(records: Seq<RecordOutcome>, k: int)
    requires
        0 <= k <= records.len(),
    ensures
        failures_across(records.take(k)) <= failures_across(records),
    decreases records.len() - k,
{
    if k < records.len() {
        lemma_failures_prefix(records, k + 1);
        assert(records.take(k + 1).drop_last() =~= records.take(k));
    } else {
        assert(records.take(k) =~= records);
    }
}

/// The note a learner records for a step (a prediction or a reflection):
/// trimmed, at most 4096 bytes as written, and not blank unless skipped.
pub open spec fn note_verdict(text: Seq<char>, skipped: bool) -> Result<Seq<char>, Seq<char>> {
    if crate::health::byte_len(text) > 4096 {
        Err("the note is longer than DeltaForge stores for one step"@)
    } else if crate::text::trim(text).len() == 0 && !skipped {
        Err("write a prediction or skip it"@)
    } else {
        Ok(crate::text::trim(text))
    }
}

pub fn learner_note(text: &str, skipped: bool) -> (r: Result<String, String>)
    ensures
        match note_verdict(text@, skipped) {
            Ok(t) => r matches Ok(x) && x@ == t,
            Err(e) => r matches Err(x) && x@ == e,
        },
{
    let chars = chars_of(text);
    if crate::authoring::exceeds_bytes(chars.as_slice(), 4096) {
        return Err(String::from_str("the note is longer than DeltaForge stores for one step"));
    }
    let trimmed = crate::text::trim_chars(chars.as_slice());
    if trimmed.len() == 0 && !skipped {
        return Err(String::from_str("write a prediction or skip it"));
    }
    Ok(string_of(trimmed.as_slice()))
}

/// Whether the source needs looking at: no baseline recorded yet, a digest
/// that moved, or a change not yet announced.
pub fn source_observation_needed(observed_digest: &str, current_digest: &str, event_revision: u64, revision: u64) -> (b: bool)
    ensures
        b == (observed_digest@.len() == 0 || observed_digest@ != current_digest@ || event_revision < revision),
{
    let o = chars_of(observed_digest);
    let c = chars_of(current_digest);
    let needs_baseline = o.len() == 0;
    let needs_change = !needs_baseline && !crate::text::chars_eq(o.as_slice(), c.as_slice());
    needs_baseline || needs_change || event_revision < revision
}

/// The digest source observation starts from: the current step's last test
/// run where it recorded one, else the current digest.
pub fn source_baseline(last_run_digest: Option<&str>, current_digest: &str) -> (b: String)
    ensures
        b@ == match last_run_digest {
            Some(d) => if d@.len() > 0 {
                d@
            } else {
                current_digest@
            },
            None => current_digest@,
        },
{
    match last_run_digest {
        Some(d) => {
            let dc = chars_of(d);
            if dc.len() > 0 {
                String::from_str(d)
            } else {
                String::from_str(current_digest)
            }
        },
        None => String::from_str(current_digest),
    }
}

/// What the next command does: the lines it prints and, when it moves on,
/// the stage that becomes current.
#[derive(Debug)]
pub struct NextOutcome {
    pub lines: Vec<String>,
    pub new_current: Option<String>,
}

/// The stage after `current` in `stages`, where there is one.
pub open spec fn following(stages: Seq<crate::pack::StageSpec>, current: Seq<char>) -> Option<crate::pack::StageSpec> {
    match crate::pack::stage_position(stages, current) {
        Some(k) => if k + 1 < stages.len() {
            Some(stages[k + 1])
        } else {
            None
        },
        None => None,
    }
}

/// The next command's decision. An incomplete stage only gets a pointer to
/// the checks; a stale proof, or an unmet gate where gates are enforced,
/// stops it; otherwise it unlocks the following stage, or says the project
/// is done. Unenforced gates are mentioned and skipped.
pub fn next_command(
    manifest: &crate::pack::ProjectPack,
    current_stage: &str,
    completed: bool,
    proof_problem: Option<String>,
    has_gates: bool,
    gates_enforced: bool,
    gate_problem: Option<String>,
) -> (r: Result<NextOutcome, String>)
    ensures
        !completed ==> (r matches Ok(o) && o.new_current is None && o.lines@.map_values(|l: String| l@)
            == seq!["Current stage has not passed yet."@, "Run: deltaforge test"@]),
        completed && proof_problem is Some ==> (r matches Err(e) && e@ == proof_problem->0@),
        completed && proof_problem is None && has_gates && gates_enforced && gate_problem is Some ==> (r matches Err(e)
            && e@ == gate_problem->0@),
        completed && proof_problem is None && !(has_gates && gates_enforced && gate_problem is Some) ==> (r matches Ok(o)
            && {
            let skipped: Seq<Seq<char>> = if has_gates && !gates_enforced {
                seq!["performance gates skipped: gates.enforce = false"@]
            } else {
                Seq::empty()
            };
            match following(manifest.stages@, current_stage@) {
                Some(st) => o.new_current matches Some(id) && id@ == st.id@ && o.lines@.map_values(|l: String| l@)
                    == skipped + seq!["Unlocked Stage "@ + st.id@ + ": "@ + st.title@],
                None => o.new_current is None && o.lines@.map_values(|l: String| l@) == skipped + seq![
                    "All stages complete."@,
                ],
            }
        }),
{
    let mut lines: Vec<String> = Vec::new();
    if !completed {
        lines.push(String::from_str("Current stage has not passed yet."));
        lines.push(String::from_str("Run: deltaforge test"));
        assert(lines@.map_values(|l: String| l@) =~= seq!["Current stage has not passed yet."@, "Run: deltaforge test"@]);
        return Ok(NextOutcome { lines, new_current: None });
    }
    if let Some(problem) = proof_problem {
        return Err(problem);
    }
    if has_gates {
        if gates_enforced {
            if let Some(problem) = gate_problem {
                return Err(problem);
            }
        } else {
            lines.push(String::from_str("performance gates skipped: gates.enforce = false"));
        }
    }
    let ghost skipped = lines@.map_values(|l: String| l@);
    assert(skipped =~= if has_gates && !gates_enforced {
        seq!["performance gates skipped: gates.enforce = false"@]
    } else {
        Seq::<Seq<char>>::empty()
    });
    match manifest.next_stage(current_stage) {
        Some(st) => {
            let mut m: Vec<char> = Vec::new();
            push_str(&mut m, "Unlocked Stage ");
            push_str(&mut m, st.id.as_str());
            push_str(&mut m, ": ");
            push_str(&mut m, st.title.as_str());
            lines.push(string_of(m.as_slice()));
            assert(lines@.map_values(|l: String| l@) =~= skipped.push(m@));
            Ok(NextOutcome { lines, new_current: Some(crate::text::copy_string(&st.id)) })
        },
        None => {
            lines.push(String::from_str("All stages complete."));
            assert(lines@.map_values(|l: String| l@) =~= skipped.push("All stages complete."@));
            Ok(NextOutcome { lines, new_current: None })
        },
    }
}

/// Moving on from the current step: it must be complete, its completion
/// proof still valid, its gates met where they are enforced, and a later
/// step must exist; the later step's identifier.
pub fn begin_next_capability(
    manifest: &crate::pack::ProjectPack,
    current_stage: &str,
    completed: bool,
    proof_problem: Option<String>,
    gates_enforced: bool,
    gate_problem: Option<String>,
) -> (r: Result<String, String>)
    ensures
        !completed ==> (r matches Err(e) && e@ == "the current capability has not been acquired yet"@),
        completed && proof_problem is Some ==> (r matches Err(e) && e@ == proof_problem->0@),
        completed && proof_problem is None && gates_enforced && gate_problem is Some ==> (r matches Err(e) && e@
            == gate_problem->0@),
        completed && proof_problem is None && !(gates_enforced && gate_problem is Some) ==> match crate::pack::stage_position(
            manifest.stages@,
            current_stage@,
        ) {
            Some(k) => if k + 1 < manifest.stages@.len() {
                r matches Ok(id) && id@ == manifest.stages@[k + 1].id@
            } else {
                r matches Err(e) && e@ == "the project has no later capability"@
            },
            None => r matches Err(e) && e@ == "the project has no later capability"@,
        },
{
    if !completed {
        return Err(String::from_str("the current capability has not been acquired yet"));
    }
    if let Some(problem) = proof_problem {
        return Err(problem);
    }
    if gates_enforced {
        if let Some(problem) = gate_problem {
            return Err(problem);
        }
    }
    match manifest.next_stage(current_stage) {
        Some(next) => Ok(crate::text::copy_string(&next.id)),
        None => Err(String::from_str("the project has no later capability")),
    }
}

/// A recorded result counts as fresh exactly when it was taken of the
/// source as it is now: a result of source that has since changed is stale,
/// and no result at all has never run. So a completed step whose last pass
/// was of other source is offered its checks again, never the next step.
pub proof fn law_results_are_fresh_only_for_current_source(recorded: Seq<char>, current: Seq<char>, has_next: bool)
    ensures
        (freshness_of(Some(recorded), current) == ResultFreshness::Fresh) == (recorded == current),
        recorded != current ==> freshness_of(Some(recorded), current) == ResultFreshness::Stale,
        freshness_of(None, current) == ResultFreshness::NeverRun,
        recorded != current ==> primary_action_spec(false, true, freshness_of(Some(recorded), current), has_next, None).0
            == PrimaryActionKind::RunChecks,
        recorded == current && has_next ==> primary_action_spec(
            false,
            true,
            freshness_of(Some(recorded), current),
            has_next,
            None,
        ).0 == PrimaryActionKind::BeginNextCapability,
{
}

} // verus!
