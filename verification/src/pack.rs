//! Project packs: the manifest, where a pack's stage files live, and the
//! rules a pack must meet before a learner can open it.
use vstd::prelude::*;

use crate::fidelity::if_then;
use crate::paths::{is_safe_relative_path, join_path, path_join, safe_relative};
use crate::text::{chars_of, push_str, string_of, trim, trim_chars};

verus! {

/// A build or run invocation.
#[derive(Debug, Clone)]
pub struct CommandSpec {
    pub command: Vec<String>,
}

/// How a pack supports one language: its template directory and commands.
#[derive(Debug, Clone)]
pub struct LanguageSpec {
    pub template: String,
    pub build: Option<CommandSpec>,
    pub run: CommandSpec,
}

/// One stage: its identifier, its title and its directory within the pack.
#[derive(Debug, Clone)]
pub struct StageSpec {
    pub id: String,
    pub title: String,
    pub path: String,
}

/// A pack's manifest. Languages are keyed by name, each name once, in the
/// order of their names.
#[derive(Debug, Clone)]
pub struct ProjectPack {
    pub schema_version: u32,
    pub id: String,
    pub name: String,
    pub version: String,
    pub description: String,
    pub topics: Vec<String>,
    pub languages: Vec<(String, LanguageSpec)>,
    pub ignored_paths: Vec<String>,
    pub stages: Vec<StageSpec>,
}

/// A manifest together with the directory it was loaded from.
#[derive(Debug, Clone)]
pub struct LoadedPack {
    pub root: String,
    pub manifest: ProjectPack,
}

/// Where to look for packs besides the built-in ones.
#[derive(Debug, Clone)]
pub struct PackSearchOptions {
    pub packs_dir: Option<String>,
}

/// The schema version this library reads.
pub open spec fn pack_schema_version() -> u32 {
    1
}

/// The first stage with identifier `id`.
pub open spec fn stage_position(stages: Seq<StageSpec>, id: Seq<char>) -> Option<int>
    decreases stages.len(),
{
    if stages.len() == 0 {
        None
    } else {
        match stage_position(stages.drop_last(), id) {
            Some(k) => Some(k),
            None => if stages.last().id@ == id {
                Some(stages.len() - 1)
            } else {
                None
            },
        }
    }
}

pub proof fn lemma_stage_position(stages: Seq<StageSpec>, id: Seq<char>)
    ensures
        match stage_position(stages, id) {
            Some(k) => 0 <= k < stages.len() && stages[k].id@ == id && forall|j: int|
                0 <= j < k ==> (#[trigger] stages[j]).id@ != id,
            None => forall|j: int| 0 <= j < stages.len() ==> (#[trigger] stages[j]).id@ != id,
        },
    decreases stages.len(),
{
    if stages.len() > 0 {
        lemma_stage_position(stages.drop_last(), id);
        assert forall|j: int| 0 <= j < stages.len() - 1 implies stages[j] == stages.drop_last()[j] by {}
    }
}

/// The first language entry named `name`.
pub open spec fn language_position(languages: Seq<(String, LanguageSpec)>, name: Seq<char>) -> Option<int>
    decreases languages.len(),
{
    if languages.len() == 0 {
        None
    } else {
        match language_position(languages.drop_last(), name) {
            Some(k) => Some(k),
            None => if languages.last().0@ == name {
                Some(languages.len() - 1)
            } else {
                None
            },
        }
    }
}

pub proof fn lemma_language_position(languages: Seq<(String, LanguageSpec)>, name: Seq<char>)
    ensures
        match language_position(languages, name) {
            Some(k) => 0 <= k < languages.len() && languages[k].0@ == name && forall|j: int|
                0 <= j < k ==> (#[trigger] languages[j]).0@ != name,
            None => forall|j: int| 0 <= j < languages.len() ==> (#[trigger] languages[j]).0@ != name,
        },
    decreases languages.len(),
{
    if languages.len() > 0 {
        lemma_language_position(languages.drop_last(), name);
        assert forall|j: int| 0 <= j < languages.len() - 1 implies languages[j] == languages.drop_last()[j] by {}
    }
}

impl StageSpec {
    /// A field-by-field copy.
    pub fn clone_stage(&self) -> (c: StageSpec)
        ensures
            c.id@ == self.id@,
            c.title@ == self.title@,
            c.path@ == self.path@,
    {
        StageSpec {
            id: crate::text::copy_string(&self.id),
            title: crate::text::copy_string(&self.title),
            path: crate::text::copy_string(&self.path),
        }
    }
}

impl ProjectPack {
    /// Language names are unique.
    pub open spec fn wf(&self) -> bool {
        forall|i: int, j: int|
            0 <= i < j < self.languages@.len() ==> (#[trigger] self.languages@[i]).0@ != (
            #[trigger] self.languages@[j]).0@
    }

    pub fn language(&self, language: &str) -> (r: Option<&LanguageSpec>)
        ensures
            match language_position(self.languages@, language@) {
                Some(k) => r matches Some(l) && *l == self.languages@[k].1,
                None => r is None,
            },
    {
        proof {
            lemma_language_position(self.languages@, language@);
        }
        let mut k: usize = 0;
        while k < self.languages.len()
            invariant
                k <= self.languages@.len(),
                forall|j: int| 0 <= j < k ==> (#[trigger] self.languages@[j]).0@ != language@,
            decreases self.languages@.len() - k,
        {
            let name = crate::text::chars_of(self.languages[k].0.as_str());
            let wanted = crate::text::chars_of(language);
            if crate::text::chars_eq(name.as_slice(), wanted.as_slice()) {
                proof {
                    lemma_language_position(self.languages@, language@);
                }
                return Some(&self.languages[k].1);
            }
            k = k + 1;
        }
        None
    }

    pub fn first_stage(&self) -> (r: Option<&StageSpec>)
        ensures
            self.stages@.len() == 0 ==> r is None,
            self.stages@.len() > 0 ==> (r matches Some(s) && *s == self.stages@[0]),
    {
        if self.stages.len() == 0 {
            None
        } else {
            Some(&self.stages[0])
        }
    }

    pub fn stage_index(&self, stage_id: &str) -> (r: Option<usize>)
        ensures
            match stage_position(self.stages@, stage_id@) {
                Some(k) => r matches Some(i) && i == k,
                None => r is None,
            },
    {
        proof {
            lemma_stage_position(self.stages@, stage_id@);
        }
        let wanted = crate::text::chars_of(stage_id);
        let mut k: usize = 0;
        while k < self.stages.len()
            invariant
                k <= self.stages@.len(),
                wanted@ == stage_id@,
                forall|j: int| 0 <= j < k ==> (#[trigger] self.stages@[j]).id@ != stage_id@,
            decreases self.stages@.len() - k,
        {
            let id = crate::text::chars_of(self.stages[k].id.as_str());
            if crate::text::chars_eq(id.as_slice(), wanted.as_slice()) {
                proof {
                    lemma_stage_position(self.stages@, stage_id@);
                }
                return Some(k);
            }
            k = k + 1;
        }
        None
    }

    pub fn stage(&self, stage_id: &str) -> (r: Option<&StageSpec>)
        ensures
            match stage_position(self.stages@, stage_id@) {
                Some(k) => r matches Some(s) && *s == self.stages@[k],
                None => r is None,
            },
    {
        proof {
            lemma_stage_position(self.stages@, stage_id@);
        }
        match self.stage_index(stage_id) {
            Some(k) => Some(&self.stages[k]),
            None => None,
        }
    }

    /// The stage after `stage_id`, where there is one.
    pub fn next_stage(&self, stage_id: &str) -> (r: Option<&StageSpec>)
        ensures
            match stage_position(self.stages@, stage_id@) {
                Some(k) => if k + 1 < self.stages@.len() {
                    r matches Some(s) && *s == self.stages@[k + 1]
                } else {
                    r is None
                },
                None => r is None,
            },
    {
        proof {
            lemma_stage_position(self.stages@, stage_id@);
        }
        match self.stage_index(stage_id) {
            Some(k) => if k < self.stages.len() && k + 1 < self.stages.len() {
                Some(&self.stages[k + 1])
            } else {
                None
            },
            None => None,
        }
    }
}

impl LoadedPack {
    pub open spec fn stage_dir_spec(&self, stage: StageSpec) -> Seq<char> {
        path_join(self.root@, stage.path@)
    }

    pub fn stage_dir(&self, stage: &StageSpec) -> (p: String)
        ensures
            p@ == self.stage_dir_spec(*stage),
    {
        join_path(self.root.as_str(), stage.path.as_str())
    }

    pub fn instructions_path(&self, stage: &StageSpec) -> (p: String)
        ensures
            p@ == path_join(self.stage_dir_spec(*stage), "instructions.md"@),
    {
        let dir = self.stage_dir(stage);
        join_path(dir.as_str(), "instructions.md")
    }

    pub fn hints_path(&self, stage: &StageSpec) -> (p: String)
        ensures
            p@ == path_join(self.stage_dir_spec(*stage), "hints.md"@),
    {
        let dir = self.stage_dir(stage);
        join_path(dir.as_str(), "hints.md")
    }

    pub fn tests_path(&self, stage: &StageSpec) -> (p: String)
        ensures
            p@ == path_join(self.stage_dir_spec(*stage), "tests.yaml"@),
    {
        let dir = self.stage_dir(stage);
        join_path(dir.as_str(), "tests.yaml")
    }

    pub fn benchmarks_path(&self, stage: &StageSpec) -> (p: String)
        ensures
            p@ == path_join(self.stage_dir_spec(*stage), "benchmarks.yaml"@),
    {
        let dir = self.stage_dir(stage);
        join_path(dir.as_str(), "benchmarks.yaml")
    }

    pub fn design_prompt_path(&self, stage: &StageSpec) -> (p: String)
        ensures
            p@ == path_join(self.stage_dir_spec(*stage), "design_prompt.md"@),
    {
        let dir = self.stage_dir(stage);
        join_path(dir.as_str(), "design_prompt.md")
    }

    pub fn prediction_prompt_path(&self, stage: &StageSpec) -> (p: String)
        ensures
            p@ == path_join(self.stage_dir_spec(*stage), "prediction.md"@),
    {
        let dir = self.stage_dir(stage);
        join_path(dir.as_str(), "prediction.md")
    }

    pub fn fixture_path(&self, stage: &StageSpec, fixture: &str) -> (p: String)
        ensures
            p@ == path_join(path_join(self.stage_dir_spec(*stage), "fixtures"@), fixture@),
    {
        let dir = self.stage_dir(stage);
        let fixtures = join_path(dir.as_str(), "fixtures");
        join_path(fixtures.as_str(), fixture)
    }
}

// ------------------------------------------------------------ validation

/// What the file system shows of one stage's directory, gathered by the
/// caller: whether the directory and each required file are there, and what
/// the checks of its tests and benchmarks files found.
#[derive(Debug)]
pub struct StageFacts {
    pub dir_present: bool,
    pub instructions_present: bool,
    pub hints_present: bool,
    pub tests_present: bool,
    pub tests_problems: Vec<String>,
    pub benchmark_problems: Vec<String>,
}

/// What the file system shows of a pack: for each language, in manifest
/// order, whether its template directory is there; and each stage's facts.
#[derive(Debug)]
pub struct PackFacts {
    pub templates_present: Vec<bool>,
    pub stages: Vec<StageFacts>,
}

pub open spec fn string_views(v: Seq<String>) -> Seq<Seq<char>> {
    v.map_values(|s: String| s@)
}

pub open spec fn blank(s: Seq<char>) -> bool {
    trim(s).len() == 0
}

pub open spec fn manifest_problems(m: ProjectPack) -> Seq<Seq<char>> {
    if_then(m.schema_version != pack_schema_version(), "manifest schema_version must be 1"@)
        + if_then(blank(m.id@), "manifest id is empty"@)
        + if_then(blank(m.name@), "manifest name is empty"@)
        + if_then(blank(m.version@), "manifest version is empty"@)
        + if_then(blank(m.description@), "manifest description is empty"@)
}

pub open spec fn language_problems(root: Seq<char>, name: Seq<char>, l: LanguageSpec, present: bool) -> Seq<Seq<char>> {
    if !safe_relative(l.template@) {
        seq!["language "@ + name + " template path is unsafe: "@ + l.template@]
    } else {
        if_then(!present, "language "@ + name + " template directory is missing: "@ + path_join(root, l.template@))
            + if_then(l.run.command@.len() == 0, "language "@ + name + " run command is empty"@)
            + if_then(
            l.build matches Some(b) && b.command@.len() == 0,
            "language "@ + name + " build command is empty"@,
        )
    }
}

pub open spec fn languages_problems(root: Seq<char>, langs: Seq<(String, LanguageSpec)>, present: Seq<bool>) -> Seq<Seq<char>>
    decreases langs.len(),
{
    if langs.len() == 0 {
        Seq::empty()
    } else {
        languages_problems(root, langs.drop_last(), present) + language_problems(
            root,
            langs.last().0@,
            langs.last().1,
            present[langs.len() - 1],
        )
    }
}

pub open spec fn duplicate_before(stages: Seq<StageSpec>, i: int) -> bool {
    exists|j: int| 0 <= j < i && (#[trigger] stages[j]).id@ == stages[i].id@
}

pub open spec fn stage_head(stages: Seq<StageSpec>, i: int) -> Seq<Seq<char>> {
    let s = stages[i];
    if_then(blank(s.id@), "stage id is empty"@) + if_then(duplicate_before(stages, i), "duplicate stage id "@ + s.id@)
        + if_then(blank(s.title@), "stage "@ + s.id@ + " title is empty"@)
}

pub open spec fn stage_tail(root: Seq<char>, s: StageSpec, f: StageFacts) -> Seq<Seq<char>> {
    let id = s.id@;
    let dir = path_join(root, s.path@);
    if !safe_relative(s.path@) {
        seq!["stage "@ + id + " path is unsafe: "@ + s.path@]
    } else if !f.dir_present {
        seq!["stage "@ + id + " directory is missing: "@ + dir]
    } else {
        if_then(!f.instructions_present, "stage "@ + id + " missing required file "@ + path_join(dir, "instructions.md"@))
            + if_then(!f.hints_present, "stage "@ + id + " missing required file "@ + path_join(dir, "hints.md"@))
            + if_then(!f.tests_present, "stage "@ + id + " missing required file "@ + path_join(dir, "tests.yaml"@))
            + string_views(f.tests_problems@) + string_views(f.benchmark_problems@)
    }
}

/// The problems of stage `i`: its own fields, then its directory and files.
pub open spec fn stage_problems(root: Seq<char>, stages: Seq<StageSpec>, i: int, f: StageFacts) -> Seq<Seq<char>> {
    stage_head(stages, i) + stage_tail(root, stages[i], f)
}

pub open spec fn stages_problems(root: Seq<char>, stages: Seq<StageSpec>, facts: Seq<StageFacts>, n: int) -> Seq<Seq<char>>
    decreases n,
{
    if n <= 0 {
        Seq::empty()
    } else {
        stages_problems(root, stages, facts, n - 1) + stage_problems(root, stages, n - 1, facts[n - 1])
    }
}

/// Everything wrong with a pack, in the order a reader meets it: the
/// manifest's own fields, then each language, then each stage.
pub open spec fn pack_problems(pack: LoadedPack, facts: PackFacts) -> Seq<Seq<char>> {
    let m = pack.manifest;
    manifest_problems(m) + (if m.languages@.len() == 0 {
        seq!["manifest defines no languages"@]
    } else {
        languages_problems(pack.root@, m.languages@, facts.templates_present@)
    }) + (if m.stages@.len() == 0 {
        seq!["manifest defines no stages"@]
    } else {
        stages_problems(pack.root@, m.stages@, facts.stages@, m.stages@.len() as int)
    })
}

fn note(out: &mut Vec<String>, c: bool, m: String)
    ensures
        string_views(final(out)@) == string_views(old(out)@) + if_then(c, m@),
{
    let ghost before = string_views(out@);
    if c {
        out.push(m);
        assert(string_views(out@) =~= before.push(m@));
    } else {
        assert(string_views(out@) =~= before + Seq::<Seq<char>>::empty());
    }
}

fn text(a: &str) -> (s: String)
    ensures
        s@ == a@,
{
    String::from_str(a)
}

fn cat2(a: &str, b: &str) -> (s: String)
    ensures
        s@ == a@ + b@,
{
    let mut v: Vec<char> = Vec::new();
    push_str(&mut v, a);
    push_str(&mut v, b);
    string_of(v.as_slice())
}

fn cat(a: &str, b: &str, c: &str) -> (s: String)
    ensures
        s@ == a@ + b@ + c@,
{
    let mut v: Vec<char> = Vec::new();
    push_str(&mut v, a);
    push_str(&mut v, b);
    push_str(&mut v, c);
    string_of(v.as_slice())
}

fn is_blank(s: &str) -> (b: bool)
    ensures
        b == blank(s@),
{
    let c = chars_of(s);
    trim_chars(c.as_slice()).len() == 0
}

fn extend(out: &mut Vec<String>, more: &Vec<String>)
    ensures
        string_views(final(out)@) == string_views(old(out)@) + string_views(more@),
{
    let ghost start = string_views(out@);
    let mut i: usize = 0;
    while i < more.len()
        invariant
            i <= more@.len(),
            string_views(out@) == start + string_views(more@).take(i as int),
        decreases more@.len() - i,
    {
        let ghost before = string_views(out@);
        out.push(crate::text::copy_string(&more[i]));
        assert(string_views(more@).take(i + 1) =~= string_views(more@).take(i as int).push(more@[i as int]@));
        assert(string_views(out@) =~= before.push(more@[i as int]@));
        i = i + 1;
    }
    assert(string_views(more@).take(i as int) =~= string_views(more@));
}

fn check_language(out: &mut Vec<String>, root: &str, name: &str, l: &LanguageSpec, present: bool)
    ensures
        string_views(final(out)@) == string_views(old(out)@) + language_problems(root@, name@, *l, present),
{
    let ghost start = string_views(out@);
    if !is_safe_relative_path(l.template.as_str()) {
        let m = cat("language ", name, " template path is unsafe: ");
        let m = cat2(m.as_str(), l.template.as_str());
        let ghost before = string_views(out@);
        out.push(m);
        assert(string_views(out@) =~= before.push(m@));
        return;
    }
    let template = join_path(root, l.template.as_str());
    let m = cat("language ", name, " template directory is missing: ");
    note(out, !present, cat2(m.as_str(), template.as_str()));
    note(out, l.run.command.len() == 0, cat("language ", name, " run command is empty"));
    let empty_build = match &l.build {
        Some(b) => b.command.len() == 0,
        None => false,
    };
    note(out, empty_build, cat("language ", name, " build command is empty"));
    assert(string_views(out@) =~= start + language_problems(root@, name@, *l, present));
}

fn check_stage_head(out: &mut Vec<String>, stages: &Vec<StageSpec>, i: usize)
    requires
        i < stages@.len(),
    ensures
        string_views(final(out)@) == string_views(old(out)@) + stage_head(stages@, i as int),
{
    let ghost start = string_views(out@);
    let id = stages[i].id.as_str();
    note(out, is_blank(id), text("stage id is empty"));
    let mut dup = false;
    let mut j: usize = 0;
    let wanted = chars_of(id);
    while j < i
        invariant
            j <= i < stages@.len(),
            wanted@ == stages@[i as int].id@,
            dup == exists|k: int| 0 <= k < j && (#[trigger] stages@[k]).id@ == stages@[i as int].id@,
        decreases i - j,
    {
        let other = chars_of(stages[j].id.as_str());
        if crate::text::chars_eq(other.as_slice(), wanted.as_slice()) {
            dup = true;
        }
        j = j + 1;
    }
    note(out, dup, cat2("duplicate stage id ", id));
    note(out, is_blank(stages[i].title.as_str()), cat("stage ", id, " title is empty"));
    assert(string_views(out@) =~= start + stage_head(stages@, i as int));
}

fn check_stage_tail(out: &mut Vec<String>, root: &str, s: &StageSpec, f: &StageFacts)
    ensures
        string_views(final(out)@) == string_views(old(out)@) + stage_tail(root@, *s, *f),
{
    let ghost start = string_views(out@);
    let id = s.id.as_str();
    if !is_safe_relative_path(s.path.as_str()) {
        let m = cat("stage ", id, " path is unsafe: ");
        note(out, true, cat2(m.as_str(), s.path.as_str()));
        return;
    }
    let dir = join_path(root, s.path.as_str());
    if !f.dir_present {
        let m = cat("stage ", id, " directory is missing: ");
        note(out, true, cat2(m.as_str(), dir.as_str()));
        return;
    }
    let m = cat("stage ", id, " missing required file ");
    let p = join_path(dir.as_str(), "instructions.md");
    note(out, !f.instructions_present, cat2(m.as_str(), p.as_str()));
    let p = join_path(dir.as_str(), "hints.md");
    note(out, !f.hints_present, cat2(m.as_str(), p.as_str()));
    let p = join_path(dir.as_str(), "tests.yaml");
    note(out, !f.tests_present, cat2(m.as_str(), p.as_str()));
    extend(out, &f.tests_problems);
    extend(out, &f.benchmark_problems);
    assert(string_views(out@) =~= start + stage_tail(root@, *s, *f));
}

fn check_stage(out: &mut Vec<String>, root: &str, stages: &Vec<StageSpec>, i: usize, f: &StageFacts)
    requires
        i < stages@.len(),
    ensures
        string_views(final(out)@) == string_views(old(out)@) + stage_problems(root@, stages@, i as int, *f),
{
    let ghost start = string_views(out@);
    check_stage_head(out, stages, i);
    check_stage_tail(out, root, &stages[i], f);
    assert(string_views(out@) =~= start + stage_problems(root@, stages@, i as int, *f));
}

/// Everything wrong with a pack, given what the file system shows of it.
pub fn validate_pack(pack: &LoadedPack, facts: &PackFacts) -> (out: Vec<String>)
    requires
        facts.templates_present@.len() == pack.manifest.languages@.len(),
        facts.stages@.len() == pack.manifest.stages@.len(),
    ensures
        string_views(out@) == pack_problems(*pack, *facts),
{
    let m = &pack.manifest;
    let mut out: Vec<String> = Vec::new();
    assert(string_views(out@) =~= Seq::<Seq<char>>::empty());
    note(&mut out, m.schema_version != 1, text("manifest schema_version must be 1"));
    note(&mut out, is_blank(m.id.as_str()), text("manifest id is empty"));
    note(&mut out, is_blank(m.name.as_str()), text("manifest name is empty"));
    note(&mut out, is_blank(m.version.as_str()), text("manifest version is empty"));
    note(&mut out, is_blank(m.description.as_str()), text("manifest description is empty"));
    let ghost after_manifest = string_views(out@);
    assert(after_manifest =~= manifest_problems(*m));
    if m.languages.len() == 0 {
        note(&mut out, true, text("manifest defines no languages"));
    } else {
        let mut k: usize = 0;
        while k < m.languages.len()
            invariant
                k <= m.languages@.len(),
                facts.templates_present@.len() == m.languages@.len(),
                string_views(out@) == after_manifest + languages_problems(
                    pack.root@,
                    m.languages@.take(k as int),
                    facts.templates_present@,
                ),
            decreases m.languages@.len() - k,
        {
            assert(m.languages@.take(k + 1).drop_last() =~= m.languages@.take(k as int));
            check_language(
                &mut out,
                pack.root.as_str(),
                m.languages[k].0.as_str(),
                &m.languages[k].1,
                facts.templates_present[k],
            );
            k = k + 1;
        }
        assert(m.languages@.take(k as int) =~= m.languages@);
    }
    let ghost after_languages = string_views(out@);
    if m.stages.len() == 0 {
        note(&mut out, true, text("manifest defines no stages"));
    } else {
        let mut k: usize = 0;
        while k < m.stages.len()
            invariant
                k <= m.stages@.len(),
                facts.stages@.len() == m.stages@.len(),
                string_views(out@) == after_languages + stages_problems(
                    pack.root@,
                    m.stages@,
                    facts.stages@,
                    k as int,
                ),
            decreases m.stages@.len() - k,
        {
            check_stage(&mut out, pack.root.as_str(), &m.stages, k, &facts.stages[k]);
            k = k + 1;
        }
    }
    out
}

// ------------------------------------------------------------ loading

/// A pack id names one directory: a safe relative path with no separator.
pub open spec fn pack_id_ok(id: Seq<char>) -> bool {
    safe_relative(id) && !crate::text::contains(id, seq!['/']) && !crate::text::contains(id, seq!['\\'])
}

/// Refuse a pack id that could name anything but one directory.
pub fn check_pack_id(project_id: &str) -> (r: Result<(), String>)
    ensures
        pack_id_ok(project_id@) ==> r is Ok,
        !pack_id_ok(project_id@) ==> (r matches Err(e) && e@ == "unsafe project pack id: "@ + project_id@),
{
    let id = chars_of(project_id);
    let slash = vec!['/'];
    let back = vec!['\\'];
    assert(slash@ =~= seq!['/']);
    assert(back@ =~= seq!['\\']);
    if is_safe_relative_path(project_id) && !crate::text::contains_exec(id.as_slice(), slash.as_slice())
        && !crate::text::contains_exec(id.as_slice(), back.as_slice()) {
        Ok(())
    } else {
        let mut m: Vec<char> = Vec::new();
        push_str(&mut m, "unsafe project pack id: ");
        push_str(&mut m, project_id);
        Err(string_of(m.as_slice()))
    }
}

/// Refuse a manifest written for another schema version.
pub fn check_pack_schema(manifest: &ProjectPack, manifest_path: &str) -> (r: Result<(), String>)
    ensures
        manifest.schema_version == pack_schema_version() ==> r is Ok,
        manifest.schema_version != pack_schema_version() ==> (r matches Err(e) && e@
            == "unsupported pack schema_version "@ + crate::text::decimal(manifest.schema_version as nat) + " in "@
            + manifest_path@ + "; expected 1"@),
{
    if manifest.schema_version == 1 {
        Ok(())
    } else {
        let mut m: Vec<char> = Vec::new();
        push_str(&mut m, "unsupported pack schema_version ");
        crate::text::push_decimal(&mut m, manifest.schema_version as u64);
        push_str(&mut m, " in ");
        push_str(&mut m, manifest_path);
        push_str(&mut m, "; expected 1");
        Err(string_of(m.as_slice()))
    }
}

/// The problems that speak of something unsafe, in order.
pub open spec fn unsafe_problems(problems: Seq<Seq<char>>) -> Seq<Seq<char>>
    decreases problems.len(),
{
    if problems.len() == 0 {
        Seq::empty()
    } else {
        unsafe_problems(problems.drop_last()) + if crate::text::contains(problems.last(), "unsafe"@) {
            seq![problems.last()]
        } else {
            Seq::empty()
        }
    }
}

/// Whether a manifest found for `project_id` may be used: its schema
/// version, its id, and no problem of the pack that speaks of something
/// unsafe.
pub open spec fn pack_acceptance(
    project_id: Seq<char>,
    manifest_path: Seq<char>,
    manifest: ProjectPack,
    problems: Seq<Seq<char>>,
) -> Result<(), Seq<char>> {
    if manifest.schema_version != pack_schema_version() {
        Err(
            "unsupported pack schema_version "@ + crate::text::decimal(manifest.schema_version as nat) + " in "@
                + manifest_path + "; expected 1"@,
        )
    } else if manifest.id@ != project_id {
        Err("pack manifest id mismatch: requested "@ + project_id + ", found "@ + manifest.id@)
    } else if unsafe_problems(problems).len() > 0 {
        Err("pack contains unsafe paths:\n"@ + crate::text::join(unsafe_problems(problems), "\n"@))
    } else {
        Ok(())
    }
}

/// Accept a manifest loaded for `project_id`, given the problems that
/// validating its pack found.
pub fn accept_pack(project_id: &str, manifest_path: &str, manifest: &ProjectPack, problems: &Vec<String>) -> (r: Result<(), String>)
    ensures
        match pack_acceptance(project_id@, manifest_path@, *manifest, string_views(problems@)) {
            Ok(()) => r is Ok,
            Err(e) => r matches Err(x) && x@ == e,
        },
{
    check_pack_schema(manifest, manifest_path)?;
    let id = chars_of(manifest.id.as_str());
    if !crate::text::chars_eq_str(id.as_slice(), project_id) {
        let mut m: Vec<char> = Vec::new();
        push_str(&mut m, "pack manifest id mismatch: requested ");
        push_str(&mut m, project_id);
        push_str(&mut m, ", found ");
        push_str(&mut m, manifest.id.as_str());
        return Err(string_of(m.as_slice()));
    }
    let mut flagged: Vec<String> = Vec::new();
    let mut i: usize = 0;
    while i < problems.len()
        invariant
            i <= problems@.len(),
            string_views(flagged@) == unsafe_problems(string_views(problems@).take(i as int)),
        decreases problems@.len() - i,
    {
        let ghost before = string_views(flagged@);
        assert(string_views(problems@).take(i + 1).drop_last() =~= string_views(problems@).take(i as int));
        let p = chars_of(problems[i].as_str());
        if crate::text::contains_str(p.as_slice(), "unsafe") {
            flagged.push(crate::text::copy_string(&problems[i]));
            assert(string_views(flagged@) =~= before + seq![problems@[i as int]@]);
        } else {
            assert(string_views(flagged@) =~= before + Seq::<Seq<char>>::empty());
        }
        i = i + 1;
    }
    assert(string_views(problems@).take(i as int) =~= string_views(problems@));
    if flagged.len() > 0 {
        let mut m: Vec<char> = Vec::new();
        push_str(&mut m, "pack contains unsafe paths:\n");
        let listed = crate::console::join_strings(&flagged, "\n");
        crate::text::push_chars(&mut m, listed.as_slice());
        assert(string_views(flagged@) =~= crate::diagnosis::strings_view(flagged@));
        return Err(string_of(m.as_slice()));
    }
    Ok(())
}

/// Some pack among `s` has the id `id`.
pub open spec fn id_seen(s: Seq<LoadedPack>, id: Seq<char>) -> bool {
    exists|j: int| 0 <= j < s.len() && (#[trigger] s[j]).manifest.id@ == id
}

/// The first pack found for each id, in the order they were found.
pub open spec fn first_of_each(s: Seq<LoadedPack>) -> Seq<LoadedPack>
    decreases s.len(),
{
    if s.len() == 0 {
        Seq::empty()
    } else if id_seen(s.drop_last(), s.last().manifest.id@) {
        first_of_each(s.drop_last())
    } else {
        first_of_each(s.drop_last()).push(s.last())
    }
}

/// `x` placed among `s`, which is in id order: after every pack whose id
/// does not sort after its own.
pub open spec fn insert_by_id(s: Seq<LoadedPack>, x: LoadedPack) -> Seq<LoadedPack>
    decreases s.len(),
{
    if s.len() == 0 {
        seq![x]
    } else if !crate::digest::name_lt(x.manifest.id@, s.last().manifest.id@) {
        s.push(x)
    } else {
        insert_by_id(s.drop_last(), x).push(s.last())
    }
}

/// Packs in ascending order of id.
pub open spec fn packs_by_id(s: Seq<LoadedPack>) -> Seq<LoadedPack>
    decreases s.len(),
{
    if s.len() == 0 {
        Seq::empty()
    } else {
        insert_by_id(packs_by_id(s.drop_last()), s.last())
    }
}

/// Whether `id` is among `ids`.
pub(crate) fn listed(ids: &Vec<String>, id: &str) -> (b: bool)
    ensures
        b == exists|j: int| 0 <= j < ids@.len() && (#[trigger] ids@[j])@ == id@,
{
    let mut j: usize = 0;
    while j < ids.len()
        invariant
            j <= ids@.len(),
            forall|k: int| 0 <= k < j ==> (#[trigger] ids@[k])@ != id@,
        decreases ids@.len() - j,
    {
        let c = chars_of(ids[j].as_str());
        if crate::text::chars_eq_str(c.as_slice(), id) {
            return true;
        }
        j = j + 1;
    }
    false
}

fn insert_pack_sorted(out: &mut Vec<LoadedPack>, x: LoadedPack)
    ensures
        final(out)@ == insert_by_id(old(out)@, x),
{
    let ghost s = out@;
    let xc = chars_of(x.manifest.id.as_str());
    let mut k: usize = out.len();
    assert(s.take(s.len() as int) =~= s);
    loop
        invariant
            k <= s.len(),
            s == out@,
            xc@ == x.manifest.id@,
            insert_by_id(s, x) == insert_by_id(s.take(k as int), x) + s.skip(k as int),
        ensures
            k <= s.len(),
            s == out@,
            insert_by_id(s, x) == insert_by_id(s.take(k as int), x) + s.skip(k as int),
            k == 0 || !crate::digest::name_lt(x.manifest.id@, s[k - 1].manifest.id@),
        decreases k,
    {
        if k == 0 {
            break;
        }
        let prev = chars_of(out[k - 1].manifest.id.as_str());
        if !crate::digest::name_less(xc.as_slice(), prev.as_slice()) {
            break;
        }
        proof {
            let t = s.take(k as int);
            assert(t.drop_last() =~= s.take(k - 1));
            assert(t.last() == s[k - 1]);
            assert(s.skip(k - 1) =~= seq![s[k - 1]] + s.skip(k as int));
            assert(insert_by_id(t.drop_last(), x).push(t.last()) + s.skip(k as int) =~= insert_by_id(
                t.drop_last(),
                x,
            ) + s.skip(k - 1));
        }
        k = k - 1;
    }
    proof {
        let t = s.take(k as int);
        if k > 0 {
            assert(t.last() == s[k - 1]);
        }
        assert(insert_by_id(t, x) == t.push(x));
    }
    let ghost xv = x;
    out.insert(k, x);
    assert(out@ =~= s.take(k as int).push(xv) + s.skip(k as int));
}

/// The packs a search found, as discovery lists them: the first pack found
/// for each id, in ascending order of id.
pub fn discovered_packs(found: Vec<LoadedPack>) -> (out: Vec<LoadedPack>)
    ensures
        out@ == packs_by_id(first_of_each(found@)),
{
    let ghost orig = found@;
    let n = found.len();
    let mut rest = found;
    let mut ids: Vec<String> = Vec::new();
    let mut kept: Vec<LoadedPack> = Vec::new();
    let mut i: usize = 0;
    while rest.len() > 0
        invariant
            i <= orig.len(),
            orig.len() == n,
            rest@ == orig.skip(i as int),
            ids@.len() == i,
            forall|j: int| 0 <= j < i ==> (#[trigger] ids@[j])@ == orig[j].manifest.id@,
            kept@ == first_of_each(orig.take(i as int)),
        decreases rest@.len(),
    {
        assert(orig.take(i + 1).drop_last() =~= orig.take(i as int));
        assert(rest@[0] == orig[i as int]);
        let x = rest.remove(0);
        assert(rest@ =~= orig.skip(i + 1));
        assert(orig.take(i + 1).last() == x);
        let seen = listed(&ids, x.manifest.id.as_str());
        proof {
            if seen {
                let j = choose|j: int| 0 <= j < ids@.len() && (#[trigger] ids@[j])@ == x.manifest.id@;
                assert(orig.take(i as int)[j] == orig[j]);
            }
            if id_seen(orig.take(i as int), x.manifest.id@) {
                let j = choose|j: int| 0 <= j < i && (#[trigger] orig.take(i as int)[j]).manifest.id@ == x.manifest.id@;
                assert(orig.take(i as int)[j] == orig[j]);
                assert(ids@[j]@ == x.manifest.id@);
            }
        }
        ids.push(crate::text::copy_string(&x.manifest.id));
        if !seen {
            kept.push(x);
        }
        i = i + 1;
    }
    assert(orig.take(i as int) =~= orig);
    let ghost all = kept@;
    let m = kept.len();
    let mut sorted: Vec<LoadedPack> = Vec::new();
    let mut k: usize = 0;
    assert(sorted@ =~= packs_by_id(all.take(0)));
    while kept.len() > 0
        invariant
            k <= all.len(),
            all.len() == m,
            kept@ == all.skip(k as int),
            sorted@ == packs_by_id(all.take(k as int)),
        decreases kept@.len(),
    {
        assert(all.take(k + 1).drop_last() =~= all.take(k as int));
        assert(kept@[0] == all[k as int]);
        let x = kept.remove(0);
        assert(kept@ =~= all.skip(k + 1));
        assert(all.take(k + 1).last() == x);
        insert_pack_sorted(&mut sorted, x);
        k = k + 1;
    }
    assert(all.take(k as int) =~= all);
    sorted
}

/// The message for a stage's missing required file.
pub open spec fn missing_file_message(root: Seq<char>, s: StageSpec, file: Seq<char>) -> Seq<char> {
    "stage "@ + s.id@ + " missing required file "@ + path_join(path_join(root, s.path@), file)
}

proof fn lemma_stage_problems_kept(root: Seq<char>, stages: Seq<StageSpec>, facts: Seq<StageFacts>, k: int, n: int, x: Seq<char>)
    requires
        0 <= k < n,
        n <= facts.len(),
        stage_problems(root, stages, k, facts[k]).contains(x),
    ensures
        stages_problems(root, stages, facts, n).contains(x),
    decreases n,
{
    let prev = stages_problems(root, stages, facts, n - 1);
    let last = stage_problems(root, stages, n - 1, facts[n - 1]);
    assert(stages_problems(root, stages, facts, n) == prev + last);
    if k == n - 1 {
        let j = choose|j: int| 0 <= j < last.len() && last[j] == x;
        assert((prev + last)[prev.len() + j] == x);
    } else {
        lemma_stage_problems_kept(root, stages, facts, k, n - 1, x);
        let j = choose|j: int| 0 <= j < prev.len() && prev[j] == x;
        assert((prev + last)[j] == x);
    }
}

/// A stage whose directory is there but lacks one of its required files is
/// reported for that file: `instructions.md`, `hints.md` and `tests.yaml`
/// alike, each with the stage's id and the file's full path.
pub proof fn law_missing_required_files_are_reported(pack: LoadedPack, facts: PackFacts, k: int)
    requires
        facts.stages@.len() == pack.manifest.stages@.len(),
        0 <= k < pack.manifest.stages@.len(),
        safe_relative(pack.manifest.stages@[k].path@),
        facts.stages@[k].dir_present,
    ensures
        !facts.stages@[k].instructions_present ==> pack_problems(pack, facts).contains(
            missing_file_message(pack.root@, pack.manifest.stages@[k], "instructions.md"@),
        ),
        !facts.stages@[k].hints_present ==> pack_problems(pack, facts).contains(
            missing_file_message(pack.root@, pack.manifest.stages@[k], "hints.md"@),
        ),
        !facts.stages@[k].tests_present ==> pack_problems(pack, facts).contains(
            missing_file_message(pack.root@, pack.manifest.stages@[k], "tests.yaml"@),
        ),
{
    let root = pack.root@;
    let stages = pack.manifest.stages@;
    let fs = facts.stages@;
    let f = fs[k];
    let s = stages[k];
    let head = stage_head(stages, k);
    let a = if_then(!f.instructions_present, missing_file_message(root, s, "instructions.md"@));
    let b = if_then(!f.hints_present, missing_file_message(root, s, "hints.md"@));
    let c = if_then(!f.tests_present, missing_file_message(root, s, "tests.yaml"@));
    let rest = string_views(f.tests_problems@) + string_views(f.benchmark_problems@);
    let tail = stage_tail(root, s, f);
    assert(tail == a + b + c + rest);
    let sp = stage_problems(root, stages, k, f);
    assert(sp == head + tail);
    let before = manifest_problems(pack.manifest) + (if pack.manifest.languages@.len() == 0 {
        seq!["manifest defines no languages"@]
    } else {
        languages_problems(root, pack.manifest.languages@, facts.templates_present@)
    });
    let all = stages_problems(root, stages, fs, stages.len() as int);
    assert(pack_problems(pack, facts) == before + all);
    if !f.instructions_present {
        let x = missing_file_message(root, s, "instructions.md"@);
        assert(sp[head.len() as int] == x);
        lemma_stage_problems_kept(root, stages, fs, k, stages.len() as int, x);
        let j = choose|j: int| 0 <= j < all.len() && all[j] == x;
        assert((before + all)[before.len() + j] == x);
    }
    if !f.hints_present {
        let x = missing_file_message(root, s, "hints.md"@);
        assert(sp[head.len() + a.len() as int] == x);
        lemma_stage_problems_kept(root, stages, fs, k, stages.len() as int, x);
        let j = choose|j: int| 0 <= j < all.len() && all[j] == x;
        assert((before + all)[before.len() + j] == x);
    }
    if !f.tests_present {
        let x = missing_file_message(root, s, "tests.yaml"@);
        assert(sp[head.len() + a.len() + b.len() as int] == x);
        lemma_stage_problems_kept(root, stages, fs, k, stages.len() as int, x);
        let j = choose|j: int| 0 <= j < all.len() && all[j] == x;
        assert((before + all)[before.len() + j] == x);
    }
}

/// A stage whose path is unsafe is reported for it; one whose path is
/// safe but whose directory is missing is reported for that.
pub proof fn law_unusable_stage_directories_are_reported(pack: LoadedPack, facts: PackFacts, k: int)
    requires
        facts.stages@.len() == pack.manifest.stages@.len(),
        0 <= k < pack.manifest.stages@.len(),
    ensures
        !safe_relative(pack.manifest.stages@[k].path@) ==> pack_problems(pack, facts).contains(
            "stage "@ + pack.manifest.stages@[k].id@ + " path is unsafe: "@ + pack.manifest.stages@[k].path@,
        ),
        safe_relative(pack.manifest.stages@[k].path@) && !facts.stages@[k].dir_present ==> pack_problems(
            pack,
            facts,
        ).contains(
            "stage "@ + pack.manifest.stages@[k].id@ + " directory is missing: "@ + path_join(
                pack.root@,
                pack.manifest.stages@[k].path@,
            ),
        ),
{
    let root = pack.root@;
    let stages = pack.manifest.stages@;
    let fs = facts.stages@;
    let s = stages[k];
    let head = stage_head(stages, k);
    let sp = stage_problems(root, stages, k, fs[k]);
    let before = manifest_problems(pack.manifest) + (if pack.manifest.languages@.len() == 0 {
        seq!["manifest defines no languages"@]
    } else {
        languages_problems(root, pack.manifest.languages@, facts.templates_present@)
    });
    let all = stages_problems(root, stages, fs, stages.len() as int);
    assert(pack_problems(pack, facts) == before + all);
    if !safe_relative(s.path@) || !fs[k].dir_present {
        let x = stage_tail(root, s, fs[k])[0];
        assert(sp[head.len() as int] == x);
        lemma_stage_problems_kept(root, stages, fs, k, stages.len() as int, x);
        let j = choose|j: int| 0 <= j < all.len() && all[j] == x;
        assert((before + all)[before.len() + j] == x);
    }
}

} // verus!
