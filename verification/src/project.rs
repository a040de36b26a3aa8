//! Decisions about a loaded project: what the project digest leaves out,
//! which generated files join that list, and what an unmet gate means.
use vstd::prelude::*;

use crate::gate::GateStatus;
use crate::pack::string_views;
use crate::text::{chars_of, push_str, string_of};

verus! {

/// What the project digest always leaves out: tool directories and the
/// records this tool writes into the project.
pub const BUILTIN_EXCLUSIONS: [&'static str; 11] = [
    ".git",
    ".deltaforge",
    "target",
    "build",
    "node_modules",
    "__pycache__",
    ".venv",
    ".DS_Store",
    "deltaforge-report.md",
    "deltaforge-report.html",
    "deltaforge-report.json",
];

pub open spec fn builtin_exclusions() -> Seq<Seq<char>> {
    seq![
        ".git"@,
        ".deltaforge"@,
        "target"@,
        "build"@,
        "node_modules"@,
        "__pycache__"@,
        ".venv"@,
        ".DS_Store"@,
        "deltaforge-report.md"@,
        "deltaforge-report.html"@,
        "deltaforge-report.json"@,
    ]
}

/// `names` added one by one to `base`, each only where it is not yet there.
pub open spec fn add_missing(base: Seq<Seq<char>>, names: Seq<Seq<char>>) -> Seq<Seq<char>>
    decreases names.len(),
{
    if names.len() == 0 {
        base
    } else {
        let so_far = add_missing(base, names.drop_last());
        if so_far.contains(names.last()) {
            so_far
        } else {
            so_far.push(names.last())
        }
    }
}

/// The names the project digest leaves out: the built-in ones, then the
/// pack's ignored paths, then the project's configured exclusions, each
/// once.
pub open spec fn exclusions(ignored_paths: Seq<Seq<char>>, configured: Seq<Seq<char>>) -> Seq<Seq<char>> {
    add_missing(add_missing(builtin_exclusions(), ignored_paths), configured)
}

fn contains_name(v: &Vec<String>, name: &str) -> (b: bool)
    ensures
        b == string_views(v@).contains(name@),
{
    let n = chars_of(name);
    let mut i: usize = 0;
    while i < v.len()
        invariant
            i <= v@.len(),
            n@ == name@,
            forall|j: int| 0 <= j < i ==> v@[j]@ != name@,
        decreases v@.len() - i,
    {
        let c = chars_of(v[i].as_str());
        if crate::text::chars_eq(c.as_slice(), n.as_slice()) {
            assert(string_views(v@)[i as int] == name@);
            return true;
        }
        i = i + 1;
    }
    assert forall|j: int| 0 <= j < string_views(v@).len() implies string_views(v@)[j] != name@ by {
        assert(string_views(v@)[j] == v@[j]@);
    }
    false
}

fn add_all_missing(out: &mut Vec<String>, names: &Vec<String>)
    ensures
        string_views(final(out)@) == add_missing(string_views(old(out)@), string_views(names@)),
{
    let ghost base = string_views(out@);
    let ghost nv = string_views(names@);
    let mut i: usize = 0;
    while i < names.len()
        invariant
            i <= names@.len(),
            nv == string_views(names@),
            string_views(out@) == add_missing(base, nv.take(i as int)),
        decreases names@.len() - i,
    {
        assert(nv.take(i + 1).drop_last() =~= nv.take(i as int));
        assert(nv.take(i + 1).last() == names@[i as int]@);
        if !contains_name(out, names[i].as_str()) {
            let ghost before = string_views(out@);
            out.push(crate::text::copy_string(&names[i]));
            assert(string_views(out@) =~= before.push(names@[i as int]@));
        }
        i = i + 1;
    }
    assert(nv.take(i as int) =~= nv);
}

/// The names the project digest leaves out.
pub fn digest_exclusions(ignored_paths: &Vec<String>, configured: &Vec<String>) -> (out: Vec<String>)
    ensures
        string_views(out@) == exclusions(string_views(ignored_paths@), string_views(configured@)),
{
    let names: [&'static str; 11] = BUILTIN_EXCLUSIONS;
    let mut out: Vec<String> = Vec::new();
    let mut k: usize = 0;
    while k < 11
        invariant
            k <= 11,
            names@.map_values(|s: &str| s@) == builtin_exclusions(),
            string_views(out@) == builtin_exclusions().take(k as int),
        decreases 11 - k,
    {
        let ghost before = string_views(out@);
        out.push(String::from_str(names[k]));
        assert(builtin_exclusions()[k as int] == names@[k as int]@);
        assert(builtin_exclusions().take(k + 1) =~= builtin_exclusions().take(k as int).push(
            builtin_exclusions()[k as int],
        ));
        assert(string_views(out@) =~= builtin_exclusions().take(k + 1));
        k = k + 1;
    }
    assert(builtin_exclusions().take(11) =~= builtin_exclusions());
    add_all_missing(&mut out, ignored_paths);
    add_all_missing(&mut out, configured);
    out
}

proof fn lemma_add_one(base: Seq<Seq<char>>, name: Seq<char>)
    ensures
        add_missing(base, seq![name]) == if base.contains(name) {
            base
        } else {
            base.push(name)
        },
{
    let one = seq![name];
    assert(one.drop_last() =~= Seq::<Seq<char>>::empty());
    assert(add_missing(base, Seq::<Seq<char>>::empty()) == base);
    assert(add_missing(base, one.drop_last()) == base);
    assert(one.last() == name);
}

/// Record `name` among the configured exclusions unless it is already
/// there; whether it was added.
pub fn add_exclusion(exclude: &mut Vec<String>, name: &str) -> (added: bool)
    ensures
        string_views(final(exclude)@) == add_missing(string_views(old(exclude)@), seq![name@]),
        added == !string_views(old(exclude)@).contains(name@),
{
    let ghost before = string_views(exclude@);
    proof {
        lemma_add_one(before, name@);
    }
    if contains_name(exclude, name) {
        return false;
    }
    exclude.push(String::from_str(name));
    assert(string_views(exclude@) =~= before.push(name@));
    true
}

/// Keep a file the project itself generates at its root (an exported
/// report) out of the project's digest: where the output lands directly in
/// the project root, its name joins the configured exclusions, once. An
/// output elsewhere, or without a name, changes nothing. Returns whether
/// the configuration changed and must be written back.
pub fn exclude_generated_root_file(
    config: &mut crate::config::ProjectConfig,
    lands_in_root: bool,
    name: Option<&str>,
) -> (changed: bool)
    ensures
        final(config).runner == old(config).runner,
        final(config).bench == old(config).bench,
        final(config).git == old(config).git,
        final(config).gates == old(config).gates,
        final(config).schema_version == old(config).schema_version,
        match name {
            Some(n) if lands_in_root => {
                &&& string_views(final(config).integrity.exclude@) == add_missing(
                    string_views(old(config).integrity.exclude@),
                    seq![n@],
                )
                &&& changed == !string_views(old(config).integrity.exclude@).contains(n@)
            },
            _ => !changed && final(config).integrity.exclude@ == old(config).integrity.exclude@,
        },
{
    match name {
        Some(n) => if lands_in_root {
            add_exclusion(&mut config.integrity.exclude, n)
        } else {
            false
        },
        None => false,
    }
}

/// Adding a name that is already excluded changes nothing: the exclusion
/// list never names a file twice.
pub proof fn law_exclusion_is_added_once(exclude: Seq<Seq<char>>, name: Seq<char>)
    ensures
        add_missing(add_missing(exclude, seq![name]), seq![name]) == add_missing(exclude, seq![name]),
        add_missing(exclude, seq![name]).contains(name),
{
    lemma_add_one(exclude, name);
    let once = add_missing(exclude, seq![name]);
    if !exclude.contains(name) {
        assert(exclude.push(name)[exclude.len() as int] == name);
    }
    assert(once.contains(name));
    lemma_add_one(once, name);
}

/// What an unmet performance gate means for moving on.
pub open spec fn gate_verdict(stage_id: Seq<char>, status: Option<GateStatus>) -> Option<Seq<char>> {
    match status {
        Some(GateStatus::NotYet) => Some("the performance target for stage "@ + stage_id
            + " is not met yet; measure again after changing the implementation"@),
        Some(GateStatus::NotMeasured) => Some("the performance target for stage "@ + stage_id
            + " has not been measured against the current source; run the benchmarks"@),
        _ => None,
    }
}

/// A stage may be left behind when its gates passed or it has none.
pub fn verify_gate_record(stage_id: &str, status: Option<GateStatus>) -> (r: Result<(), String>)
    ensures
        match gate_verdict(stage_id@, status) {
            Some(e) => r matches Err(x) && x@ == e,
            None => r is Ok,
        },
{
    match status {
        Some(GateStatus::NotYet) => {
            let mut m: Vec<char> = Vec::new();
            push_str(&mut m, "the performance target for stage ");
            push_str(&mut m, stage_id);
            push_str(&mut m, " is not met yet; measure again after changing the implementation");
            Err(string_of(m.as_slice()))
        },
        Some(GateStatus::NotMeasured) => {
            let mut m: Vec<char> = Vec::new();
            push_str(&mut m, "the performance target for stage ");
            push_str(&mut m, stage_id);
            push_str(&mut m, " has not been measured against the current source; run the benchmarks");
            Err(string_of(m.as_slice()))
        },
        _ => Ok(()),
    }
}

/// What a stage's completion recorded: the pack's digest, the stage's
/// behavioural digest (empty in records older than that digest), and the
/// project's digest.
#[derive(Debug, Clone)]
pub struct CompletionProof {
    pub pack_digest: String,
    pub behavioral_digest: String,
    pub project_digest: String,
}

/// A completion proof is stale when the stage's tests, fixtures or
/// commands changed since it passed: by its behavioural digest, or, for a
/// record without one, by the whole pack's digest. A stage without a proof
/// always needs its checks again.
pub open spec fn needs_revalidation(
    record: Option<CompletionProof>,
    pack_digest: Option<Seq<char>>,
    behavioral_digest: Option<Seq<char>>,
) -> bool {
    match record {
        None => true,
        Some(p) => if p.behavioral_digest@.len() == 0 {
            Some(p.pack_digest@) != pack_digest
        } else {
            Some(p.behavioral_digest@) != behavioral_digest
        },
    }
}

pub open spec fn opt_digest(d: Option<&str>) -> Option<Seq<char>> {
    match d {
        Some(s) => Some(s@),
        None => None,
    }
}

/// Whether a stage must pass its checks again. The caller supplies the
/// current digest the proof is compared by: the pack's for a record without
/// a behavioural digest, the stage's otherwise.
pub fn stage_needs_revalidation(
    record: Option<&CompletionProof>,
    pack_digest: Option<&str>,
    behavioral_digest: Option<&str>,
) -> (b: bool)
    requires
        record matches Some(p) ==> (if p.behavioral_digest@.len() == 0 {
            pack_digest is Some
        } else {
            behavioral_digest is Some
        }),
    ensures
        b == needs_revalidation(
            match record {
                Some(p) => Some(*p),
                None => None,
            },
            opt_digest(pack_digest),
            opt_digest(behavioral_digest),
        ),
{
    match record {
        None => true,
        Some(p) => {
            let recorded_behavior = chars_of(p.behavioral_digest.as_str());
            if recorded_behavior.len() == 0 {
                let recorded = chars_of(p.pack_digest.as_str());
                let current = chars_of(pack_digest.unwrap());
                !crate::text::chars_eq(recorded.as_slice(), current.as_slice())
            } else {
                let current = chars_of(behavioral_digest.unwrap());
                !crate::text::chars_eq(recorded_behavior.as_slice(), current.as_slice())
            }
        },
    }
}

/// A proof recorded before behavioural digests existed, against exactly
/// the pack now installed: the one case where giving it a behavioural
/// digest is safe.
pub open spec fn migratable(p: CompletionProof, pack_digest: Seq<char>) -> bool {
    p.behavioral_digest@.len() == 0 && p.pack_digest@ == pack_digest
}

/// Give each migratable proof the behavioural digest computed for its
/// stage, where one could be computed (`behavioral[i]` for `proofs[i]`);
/// every other proof stays as it was. Returns how many were migrated.
pub fn migrate_legacy_proofs(
    proofs: &mut Vec<(String, CompletionProof)>,
    pack_digest: &str,
    behavioral: &Vec<Option<String>>,
) -> (n: usize)
    requires
        behavioral@.len() == old(proofs)@.len(),
    ensures
        final(proofs)@.len() == old(proofs)@.len(),
        forall|i: int|
            0 <= i < old(proofs)@.len() ==> {
                let before = #[trigger] old(proofs)@[i];
                let after = final(proofs)@[i];
                &&& after.0@ == before.0@
                &&& after.1.pack_digest@ == before.1.pack_digest@
                &&& after.1.project_digest@ == before.1.project_digest@
                &&& if migratable(before.1, pack_digest@) && behavioral@[i] is Some {
                    after.1.behavioral_digest@ == behavioral@[i]->0@
                } else {
                    after.1.behavioral_digest@ == before.1.behavioral_digest@
                }
            },
        n == migrated_count(old(proofs)@, pack_digest@, behavioral@, old(proofs)@.len() as int),
{
    let ghost start = proofs@;
    let mut n: usize = 0;
    let mut i: usize = 0;
    while i < proofs.len()
        invariant
            proofs@.len() == start.len() == behavioral@.len(),
            i <= start.len(),
            n <= i,
            n == migrated_count(start, pack_digest@, behavioral@, i as int),
            forall|j: int| i <= j < start.len() ==> #[trigger] proofs@[j] == start[j],
            forall|j: int|
                0 <= j < i ==> {
                    let before = #[trigger] start[j];
                    let after = proofs@[j];
                    &&& after.0@ == before.0@
                    &&& after.1.pack_digest@ == before.1.pack_digest@
                    &&& after.1.project_digest@ == before.1.project_digest@
                    &&& if migratable(before.1, pack_digest@) && behavioral@[j] is Some {
                        after.1.behavioral_digest@ == behavioral@[j]->0@
                    } else {
                        after.1.behavioral_digest@ == before.1.behavioral_digest@
                    }
                },
        decreases start.len() - i,
    {
        let recorded = chars_of(proofs[i].1.behavioral_digest.as_str());
        let pinned = chars_of(proofs[i].1.pack_digest.as_str());
        let legacy = recorded.len() == 0 && crate::text::chars_eq_str(pinned.as_slice(), pack_digest);
        if legacy {
            match &behavioral[i] {
                Some(d) => {
                    let (id, proof) = proofs.remove(i);
                    let updated = CompletionProof {
                        pack_digest: proof.pack_digest,
                        behavioral_digest: crate::text::copy_string(d),
                        project_digest: proof.project_digest,
                    };
                    proofs.insert(i, (id, updated));
                    n = n + 1;
                },
                None => {},
            }
        }
        i = i + 1;
    }
    n
}

/// How many of the first `k` proofs migrate.
pub open spec fn migrated_count(
    proofs: Seq<(String, CompletionProof)>,
    pack_digest: Seq<char>,
    behavioral: Seq<Option<String>>,
    k: int,
) -> nat
    decreases k,
{
    if k <= 0 {
        0
    } else {
        migrated_count(proofs, pack_digest, behavioral, k - 1) + if migratable(proofs[k - 1].1, pack_digest)
            && behavioral[k - 1] is Some {
            1nat
        } else {
            0nat
        }
    }
}

/// Whether a stage's completion still stands: it has a record, the pack
/// has not changed under it, and neither has the learner's project.
pub fn verify_completion_proof(
    stage_id: &str,
    record: Option<&CompletionProof>,
    needs_revalidation: bool,
    project_digest: &str,
) -> (r: Result<(), String>)
    ensures
        match record {
            None => r matches Err(e) && e@ == "stage "@ + stage_id@
                + " has no current completion record; its checks need to pass again"@,
            Some(p) => if needs_revalidation {
                r matches Err(e) && e@ == "stage "@ + stage_id@
                    + " passed against an older version of this pack and must be revalidated by passing its checks again"@
            } else if p.project_digest@ != project_digest@ {
                r matches Err(e) && e@ == "learner project changed since stage "@ + stage_id@
                    + " passed; its checks need to pass again"@
            } else {
                r is Ok
            },
        },
{
    let p = match record {
        Some(p) => p,
        None => {
            let mut m: Vec<char> = Vec::new();
            push_str(&mut m, "stage ");
            push_str(&mut m, stage_id);
            push_str(&mut m, " has no current completion record; its checks need to pass again");
            return Err(string_of(m.as_slice()));
        },
    };
    if needs_revalidation {
        let mut m: Vec<char> = Vec::new();
        push_str(&mut m, "stage ");
        push_str(&mut m, stage_id);
        push_str(&mut m, " passed against an older version of this pack and must be revalidated by passing its checks again");
        return Err(string_of(m.as_slice()));
    }
    let recorded = chars_of(p.project_digest.as_str());
    let current = chars_of(project_digest);
    if !crate::text::chars_eq(recorded.as_slice(), current.as_slice()) {
        let mut m: Vec<char> = Vec::new();
        push_str(&mut m, "learner project changed since stage ");
        push_str(&mut m, stage_id);
        push_str(&mut m, " passed; its checks need to pass again");
        return Err(string_of(m.as_slice()));
    }
    Ok(())
}

} // verus!
