//! Everything the workbench shows for the step a learner is on: the
//! project overview, the roadmap, the step's panels and its help.
use vstd::prelude::*;

use crate::capability::{lookup_last, markdown_sections, section_get, sections_of};
use crate::content::{
    capability_sections, first_paragraph, first_paragraph_spec, missing_section_message,
    narrative, narrative_paragraphs, parse_overview_sections, CapabilitySection, OverviewSection,
    overview_of, overview_views,
};
use crate::help::{available_help_levels, help_ladder, help_views, parse_help, HelpLevel};
use crate::pack::{stage_position, string_views, LoadedPack, ProjectPack, StageSpec};
use crate::text::{chars_of, push_str, string_of};

verus! {

/// What the overview page says about the project as a whole.
#[derive(Debug)]
pub struct ProjectOverview {
    pub name: String,
    pub description: String,
    pub topics: Vec<String>,
    pub context: Vec<String>,
    pub why: Vec<String>,
    pub sections: Vec<OverviewSection>,
    pub capability_count: usize,
}

/// Where a step stands on the roadmap.
#[derive(Debug, Clone, Copy, PartialEq, Eq, Structural)]
pub enum RoadmapStatus {
    Complete,
    Current,
    Upcoming,
}

/// One step on the roadmap.
#[derive(Debug)]
pub struct RoadmapCapability {
    pub id: String,
    pub title: String,
    pub summary: String,
    pub position: usize,
    pub status: RoadmapStatus,
    pub current: bool,
}

/// A glimpse of the next step.
#[derive(Debug)]
pub struct CapabilityPreview {
    pub id: String,
    pub title: String,
    pub summary: String,
}

/// Everything the workbench shows for the current step.
#[derive(Debug)]
pub struct CapabilityContent {
    pub project_overview: ProjectOverview,
    pub roadmap: Vec<RoadmapCapability>,
    pub stage_id: String,
    pub title: String,
    pub mission: String,
    pub sections: Vec<CapabilitySection>,
    pub capability_statement: String,
    pub next: Option<CapabilityPreview>,
    pub help_levels: usize,
    pub available_help_levels: usize,
    pub revealed_help: Vec<HelpLevel>,
}

/// Exactly what a learner can see of one step, and nothing else.
#[derive(Debug)]
pub struct PublishedStageContent {
    pub pack: String,
    pub pack_description: String,
    pub stage_id: String,
    pub position: usize,
    pub total_stages: usize,
    pub title: String,
    pub mission: String,
    pub sections: Vec<CapabilitySection>,
    pub help: Vec<HelpLevel>,
    pub established: Vec<String>,
    pub run_command: Vec<String>,
}

/// Paragraphs that do not introduce a list, that is, that do not end in `:`.
pub open spec fn not_lead_ins(ps: Seq<Seq<char>>) -> Seq<Seq<char>>
    decreases ps.len(),
{
    if ps.len() == 0 {
        Seq::empty()
    } else if ps.last().len() > 0 && ps.last().last() == ':' {
        not_lead_ins(ps.drop_last())
    } else {
        not_lead_ins(ps.drop_last()).push(ps.last())
    }
}

pub open spec fn at_most(ps: Seq<Seq<char>>, n: int) -> Seq<Seq<char>> {
    if ps.len() > n {
        ps.take(n)
    } else {
        ps
    }
}

pub open spec fn section_narrative(readme: Seq<char>, name: Seq<char>, limit: nat) -> Seq<Seq<char>> {
    match lookup_last(sections_of(readme), name) {
        Some(body) => narrative(body, limit),
        None => Seq::empty(),
    }
}

fn copy_strings(v: &Vec<String>) -> (r: Vec<String>)
    ensures
        string_views(r@) == string_views(v@),
{
    let mut out: Vec<String> = Vec::new();
    let mut i: usize = 0;
    while i < v.len()
        invariant
            i <= v@.len(),
            out@.len() == i,
            forall|j: int| 0 <= j < i ==> #[trigger] out@[j]@ == v@[j]@,
        decreases v@.len() - i,
    {
        out.push(crate::text::copy_string(&v[i]));
        i = i + 1;
    }
    assert(string_views(out@) =~= string_views(v@));
    out
}

/// The overview holds what the manifest and README say of the project.
pub open spec fn overview_matches(o: ProjectOverview, manifest: ProjectPack, readme: Seq<char>) -> bool {
    &&& o.name@ == manifest.name@
    &&& o.description@ == manifest.description@
    &&& string_views(o.topics@) == string_views(manifest.topics@)
    &&& string_views(o.context@) == at_most(not_lead_ins(section_narrative(readme, "What you are building"@, 6)), 5)
    &&& string_views(o.why@) == section_narrative(readme, "Why this is useful"@, 2)
    &&& overview_views(o.sections@) == overview_of(readme)
    &&& o.capability_count == manifest.stages@.len()
}

/// The overview of a project from its manifest and its README: the
/// narrative of "What you are building" without lead-ins, at most five
/// paragraphs of six read; two paragraphs of "Why this is useful"; and the
/// README's sections.
pub fn project_overview(manifest: &ProjectPack, readme: &str) -> (o: ProjectOverview)
    ensures
        overview_matches(o, *manifest, readme@),
{
    let sections = markdown_sections(readme);
    let mut context: Vec<String> = Vec::new();
    let ghost wanted = section_narrative(readme@, "What you are building"@, 6);
    match section_get(&sections, "What you are building") {
        Some(body) => {
            let ps = narrative_paragraphs(body.as_str(), 6);
            assert(string_views(ps@) == wanted);
            let mut i: usize = 0;
            let mut kept: Vec<String> = Vec::new();
            while i < ps.len()
                invariant
                    i <= ps@.len(),
                    string_views(ps@) == wanted,
                    string_views(kept@) == not_lead_ins(wanted.take(i as int)),
                decreases ps@.len() - i,
            {
                assert(wanted.take(i + 1).drop_last() =~= wanted.take(i as int));
                assert(wanted.take(i + 1).last() == ps@[i as int]@);
                let c = chars_of(ps[i].as_str());
                if !(c.len() > 0 && c[c.len() - 1] == ':') {
                    let ghost before = string_views(kept@);
                    kept.push(crate::text::copy_string(&ps[i]));
                    assert(string_views(kept@) =~= before.push(ps@[i as int]@));
                }
                i = i + 1;
            }
            assert(wanted.take(i as int) =~= wanted);
            let ghost all = string_views(kept@);
            if kept.len() > 5 {
                kept.truncate(5);
                assert(string_views(kept@) =~= all.take(5));
            }
            context = kept;
        },
        None => {
            assert(string_views(context@) =~= Seq::<Seq<char>>::empty());
            assert(not_lead_ins(Seq::<Seq<char>>::empty()) == Seq::<Seq<char>>::empty());
        },
    }
    let why: Vec<String> = match section_get(&sections, "Why this is useful") {
        Some(body) => narrative_paragraphs(body.as_str(), 2),
        None => {
            let v: Vec<String> = Vec::new();
            assert(string_views(v@) =~= Seq::<Seq<char>>::empty());
            v
        },
    };
    ProjectOverview {
        name: crate::text::copy_string(&manifest.name),
        description: crate::text::copy_string(&manifest.description),
        topics: copy_strings(&manifest.topics),
        context,
        why,
        sections: parse_overview_sections(readme),
        capability_count: manifest.stages.len(),
    }
}

/// A step's one-line summary: the first paragraph of its `Goal`.
pub open spec fn goal_summary(source: Seq<char>) -> Option<Seq<char>> {
    match lookup_last(sections_of(source), "Goal"@) {
        Some(body) => Some(first_paragraph_spec(body)),
        None => None,
    }
}

fn goal_of(source: &str) -> (r: Result<String, String>)
    ensures
        match goal_summary(source@) {
            Some(s) => r matches Ok(x) && x@ == s,
            None => r matches Err(e) && e@ == missing_section_message("Goal"@),
        },
{
    let sections = markdown_sections(source);
    match section_get(&sections, "Goal") {
        Some(body) => Ok(first_paragraph(body.as_str())),
        None => {
            let mut m: Vec<char> = Vec::new();
            push_str(&mut m, "capability instructions are missing the ");
            push_str(&mut m, "Goal");
            push_str(&mut m, " section");
            Err(string_of(m.as_slice()))
        },
    }
}

/// The first step, in order, whose guide has no `Goal`.
pub open spec fn first_without_goal(sources: Seq<String>) -> Option<int>
    decreases sources.len(),
{
    if sources.len() == 0 {
        None
    } else {
        match first_without_goal(sources.drop_last()) {
            Some(k) => Some(k),
            None => if goal_summary(sources.last()@) is None {
                Some(sources.len() - 1)
            } else {
                None
            },
        }
    }
}

/// The roadmap lists every step in order: its summary, its position from
/// one, whether it is complete, current or ahead, and whether it is the
/// step the learner is on.
pub open spec fn roadmap_matches(
    out: Seq<RoadmapCapability>,
    stages: Seq<StageSpec>,
    current_stage: Seq<char>,
    completed: Seq<bool>,
    instructions: Seq<String>,
) -> bool {
    out.len() == stages.len() && forall|i: int|
        0 <= i < stages.len() ==> {
            let e = #[trigger] out[i];
            &&& e.id@ == stages[i].id@
            &&& e.title@ == stages[i].title@
            &&& Some(e.summary@) == goal_summary(instructions[i]@)
            &&& e.position == i + 1
            &&& e.current == (stages[i].id@ == current_stage)
            &&& e.status == if completed[i] {
                RoadmapStatus::Complete
            } else if stages[i].id@ == current_stage {
                RoadmapStatus::Current
            } else {
                RoadmapStatus::Upcoming
            }
        }
}

/// The roadmap: every step in order, with its summary, its position from
/// one, whether it is complete, current or ahead, and whether it is the
/// step the learner is on. `completed` and `instructions` hold, for each
/// step, whether it is complete and its guide.
pub fn roadmap(
    stages: &Vec<StageSpec>,
    current_stage: &str,
    completed: &Vec<bool>,
    instructions: &Vec<String>,
) -> (r: Result<Vec<RoadmapCapability>, String>)
    requires
        completed@.len() == stages@.len(),
        instructions@.len() == stages@.len(),
    ensures
        match first_without_goal(instructions@) {
            Some(_) => r matches Err(e) && e@ == missing_section_message("Goal"@),
            None => r matches Ok(out) && roadmap_matches(out@, stages@, current_stage@, completed@, instructions@),
        },
{
    let current = chars_of(current_stage);
    let mut out: Vec<RoadmapCapability> = Vec::new();
    let mut i: usize = 0;
    while i < stages.len()
        invariant
            i <= stages@.len(),
            completed@.len() == stages@.len(),
            instructions@.len() == stages@.len(),
            current@ == current_stage@,
            first_without_goal(instructions@.take(i as int)) is None,
            out@.len() == i,
            forall|j: int|
                0 <= j < i ==> {
                    let e = #[trigger] out@[j];
                    &&& e.id@ == stages@[j].id@
                    &&& e.title@ == stages@[j].title@
                    &&& Some(e.summary@) == goal_summary(instructions@[j]@)
                    &&& e.position == j + 1
                    &&& e.current == (stages@[j].id@ == current_stage@)
                    &&& e.status == if completed@[j] {
                        RoadmapStatus::Complete
                    } else if stages@[j].id@ == current_stage@ {
                        RoadmapStatus::Current
                    } else {
                        RoadmapStatus::Upcoming
                    }
                },
        decreases stages@.len() - i,
    {
        assert(instructions@.take(i + 1).drop_last() =~= instructions@.take(i as int));
        assert(instructions@.take(i + 1).last() == instructions@[i as int]);
        let summary = match goal_of(instructions[i].as_str()) {
            Ok(s) => s,
            Err(e) => {
                proof {
                    lemma_first_without_goal_prefix(instructions@, i + 1);
                }
                return Err(e);
            },
        };
        let id = chars_of(stages[i].id.as_str());
        let is_current = crate::text::chars_eq(id.as_slice(), current.as_slice());
        let status = if completed[i] {
            RoadmapStatus::Complete
        } else if is_current {
            RoadmapStatus::Current
        } else {
            RoadmapStatus::Upcoming
        };
        out.push(
            RoadmapCapability {
                id: crate::text::copy_string(&stages[i].id),
                title: crate::text::copy_string(&stages[i].title),
                summary,
                position: i + 1,
                status,
                current: is_current,
            },
        );
        i = i + 1;
    }
    assert(instructions@.take(i as int) =~= instructions@);
    Ok(out)
}

proof fn lemma_first_without_goal_prefix(sources: Seq<String>, k: int)
    requires
        0 <= k <= sources.len(),
        first_without_goal(sources.take(k)) is Some,
    ensures
        first_without_goal(sources) is Some,
    decreases sources.len() - k,
{
    if k < sources.len() {
        assert(sources.take(k + 1).drop_last() =~= sources.take(k));
        lemma_first_without_goal_prefix(sources, k + 1);
    } else {
        assert(sources.take(k) =~= sources);
    }
}

/// `str::to_lowercase`: Unicode's lowercase mapping of the whole string,
/// where a character's form may depend on its neighbours (a final sigma).
pub uninterp spec fn lowercase(s: Seq<char>) -> Seq<char>;

/// `str::to_lowercase`.
#[verifier::external_body]
fn to_lowercase(s: &str) -> (out: String)
    ensures
        out@ == lowercase(s@),
{
    s.to_lowercase()
}

/// What completing a step gives the learner: the first paragraph of its
/// "Capability acquired" section, or a sentence made from its title.
pub open spec fn statement_of(source: Seq<char>, title: Seq<char>) -> Seq<char> {
    match lookup_last(sections_of(source), "Capability acquired"@) {
        Some(body) => first_paragraph_spec(body),
        None => "Your program can now "@ + lowercase(title) + "."@,
    }
}

pub open spec fn revealed_count(revealed_level: nat, total: nat) -> nat {
    if revealed_level < total {
        revealed_level
    } else {
        total
    }
}

/// Everything the workbench shows for the current step. `completed` and
/// `instructions` hold, for each step, whether it is complete and its
/// guide; `hints` is the current step's help file; `readme` the pack's.
/// Help is revealed up to `revealed_level`.
pub fn load_current(
    pack: &LoadedPack,
    current_stage: &str,
    completed: &Vec<bool>,
    revealed_level: usize,
    instructions: &Vec<String>,
    hints: &str,
    readme: &str,
) -> (r: Result<CapabilityContent, String>)
    requires
        completed@.len() == pack.manifest.stages@.len(),
        instructions@.len() == pack.manifest.stages@.len(),
    ensures
        match stage_position(pack.manifest.stages@, current_stage@) {
            None => r matches Err(e) && e@ == "pack does not contain current stage "@ + current_stage@,
            Some(k) => if first_without_goal(instructions@) is Some {
                r matches Err(e) && e@ == missing_section_message("Goal"@)
            } else {
                match crate::content::first_absent(
                    crate::content::panel_sections(),
                    sections_of(instructions@[k]@),
                ) {
                    Some(name) => r matches Err(e) && e@ == missing_section_message(name),
                    None => r matches Ok(c) && {
                        let ladder = help_ladder(hints@);
                        &&& c.stage_id@ == pack.manifest.stages@[k].id@
                        &&& c.title@ == pack.manifest.stages@[k].title@
                        &&& Some(c.mission@) == goal_summary(instructions@[k]@)
                        &&& c.capability_statement@ == statement_of(instructions@[k]@, pack.manifest.stages@[k].title@)
                        &&& roadmap_matches(c.roadmap@, pack.manifest.stages@, current_stage@, completed@, instructions@)
                        &&& crate::content::panels_match(c.sections@, sections_of(instructions@[k]@))
                        &&& overview_matches(c.project_overview, pack.manifest, readme@)
                        &&& c.help_levels == ladder.len()
                        &&& c.available_help_levels == crate::help::available_levels(ladder.len(), completed@[k])
                        &&& help_views(c.revealed_help@) == ladder.take(revealed_count(revealed_level as nat, ladder.len()) as int)
                        &&& crate::help::ladder_wf(c.revealed_help@)
                        &&& match c.next {
                            Some(n) => k + 1 < pack.manifest.stages@.len() && n.id@ == pack.manifest.stages@[k + 1].id@
                                && Some(n.summary@) == goal_summary(instructions@[k + 1]@),
                            None => k + 1 >= pack.manifest.stages@.len(),
                        }
                    },
                }
            },
        },
{
    let stages = &pack.manifest.stages;
    let k = match pack.manifest.stage_index(current_stage) {
        Some(k) => k,
        None => {
            let mut m: Vec<char> = Vec::new();
            push_str(&mut m, "pack does not contain current stage ");
            push_str(&mut m, current_stage);
            return Err(string_of(m.as_slice()));
        },
    };
    proof {
        crate::pack::lemma_stage_position(stages@, current_stage@);
    }
    let mut help = parse_help(hints);
    let total = help.len();
    let n = stages.len();
    assert(k < n);
    let next: Option<CapabilityPreview> = if n - k > 1 {
        let summary = match goal_of(instructions[k + 1].as_str()) {
            Ok(s) => s,
            Err(e) => {
                proof {
                    lemma_goal_missing_at(instructions@, k + 1);
                }
                return Err(e);
            },
        };
        Some(
            CapabilityPreview {
                id: crate::text::copy_string(&stages[k + 1].id),
                title: crate::text::copy_string(&stages[k + 1].title),
                summary,
            },
        )
    } else {
        None
    };
    let overview = project_overview(&pack.manifest, readme);
    let road = roadmap(stages, current_stage, completed, instructions)?;
    let mission = match goal_of(instructions[k].as_str()) {
        Ok(s) => s,
        Err(e) => {
            proof {
                lemma_goal_missing_at(instructions@, k as int);
            }
            return Err(e);
        },
    };
    let sections = markdown_sections(instructions[k].as_str());
    let panels = capability_sections(&sections)?;
    let statement = match section_get(&sections, "Capability acquired") {
        Some(body) => first_paragraph(body.as_str()),
        None => {
            let lower = to_lowercase(stages[k].title.as_str());
            let mut m: Vec<char> = Vec::new();
            push_str(&mut m, "Your program can now ");
            push_str(&mut m, lower.as_str());
            push_str(&mut m, ".");
            string_of(m.as_slice())
        },
    };
    let available = available_help_levels(total, completed[k]);
    let keep: usize = if revealed_level < total {
        revealed_level
    } else {
        total
    };
    let ghost full = help_views(help@);
    let ghost whole = help@;
    help.truncate(keep);
    assert(help_views(help@) =~= full.take(keep as int));
    assert(help@ =~= whole.take(keep as int));
    Ok(
        CapabilityContent {
            project_overview: overview,
            roadmap: road,
            stage_id: crate::text::copy_string(&stages[k].id),
            title: crate::text::copy_string(&stages[k].title),
            mission,
            sections: panels,
            capability_statement: statement,
            next,
            help_levels: total,
            available_help_levels: available,
            revealed_help: help,
        },
    )
}

proof fn lemma_goal_missing_at(sources: Seq<String>, k: int)
    requires
        0 <= k < sources.len(),
        goal_summary(sources[k]@) is None,
    ensures
        first_without_goal(sources) is Some,
{
    let t = sources.take(k + 1);
    assert(t.last() == sources[k]);
    if first_without_goal(t.drop_last()) is None {
        assert(first_without_goal(t) is Some);
    } else {
        assert(t.drop_last() =~= sources.take(k));
        assert(first_without_goal(t) is Some);
    }
    lemma_first_without_goal_prefix(sources, k + 1);
}

/// The help ladder of the current step, from its hints file.
pub fn load_help(manifest: &ProjectPack, current_stage: &str, hints: &str) -> (r: Result<Vec<HelpLevel>, String>)
    ensures
        match stage_position(manifest.stages@, current_stage@) {
            None => r matches Err(e) && e@ == "pack does not contain current stage "@ + current_stage@,
            Some(_) => r matches Ok(levels) && help_views(levels@) == help_ladder(hints@)
                && crate::help::ladder_wf(levels@),
        },
{
    match manifest.stage_index(current_stage) {
        Some(_) => Ok(parse_help(hints)),
        None => {
            let mut m: Vec<char> = Vec::new();
            push_str(&mut m, "pack does not contain current stage ");
            push_str(&mut m, current_stage);
            Err(string_of(m.as_slice()))
        },
    }
}

/// Exactly what a learner can see of step `stage_id` in `language_id`: its
/// guide's panels, its help (none where the hints file could not be read),
/// and the titles of the steps before it.
pub fn load_published_content(
    pack: &LoadedPack,
    stage_id: &str,
    language_id: &str,
    instructions: &str,
    hints: Option<&str>,
) -> (r: Result<PublishedStageContent, String>)
    ensures
        match stage_position(pack.manifest.stages@, stage_id@) {
            None => r matches Err(e) && e@ == "pack "@ + pack.manifest.id@ + " does not contain stage "@ + stage_id@,
            Some(k) => match crate::pack::language_position(pack.manifest.languages@, language_id@) {
                None => r matches Err(e) && e@ == "pack "@ + pack.manifest.id@ + " does not support language "@
                    + language_id@,
                Some(l) => match goal_summary(instructions@) {
                    None => r matches Err(e) && e@ == missing_section_message("Goal"@),
                    Some(mission) => match crate::content::first_absent(
                        crate::content::panel_sections(),
                        sections_of(instructions@),
                    ) {
                        Some(name) => r matches Err(e) && e@ == missing_section_message(name),
                        None => r matches Ok(c) && {
                            &&& c.pack@ == pack.manifest.name@
                            &&& c.pack_description@ == pack.manifest.description@
                            &&& c.stage_id@ == pack.manifest.stages@[k].id@
                            &&& c.position == k + 1
                            &&& c.total_stages == pack.manifest.stages@.len()
                            &&& c.title@ == pack.manifest.stages@[k].title@
                            &&& c.mission@ == mission
                            &&& crate::content::panels_match(c.sections@, sections_of(instructions@))
                            &&& help_views(c.help@) == match hints {
                                Some(h) => help_ladder(h@),
                                None => Seq::empty(),
                            }
                            &&& c.established@.len() == k
                            &&& forall|j: int| 0 <= j < k ==> #[trigger] c.established@[j]@ == pack.manifest.stages@[j].title@
                            &&& string_views(c.run_command@) == string_views(
                                pack.manifest.languages@[l].1.run.command@,
                            )
                        },
                    },
                },
            },
        },
{
    let stages = &pack.manifest.stages;
    let k = match pack.manifest.stage_index(stage_id) {
        Some(k) => k,
        None => {
            let mut m: Vec<char> = Vec::new();
            push_str(&mut m, "pack ");
            push_str(&mut m, pack.manifest.id.as_str());
            push_str(&mut m, " does not contain stage ");
            push_str(&mut m, stage_id);
            return Err(string_of(m.as_slice()));
        },
    };
    proof {
        crate::pack::lemma_stage_position(stages@, stage_id@);
        crate::pack::lemma_language_position(pack.manifest.languages@, language_id@);
    }
    let language = match pack.manifest.language(language_id) {
        Some(l) => l,
        None => {
            let mut m: Vec<char> = Vec::new();
            push_str(&mut m, "pack ");
            push_str(&mut m, pack.manifest.id.as_str());
            push_str(&mut m, " does not support language ");
            push_str(&mut m, language_id);
            return Err(string_of(m.as_slice()));
        },
    };
    let sections = markdown_sections(instructions);
    let help: Vec<HelpLevel> = match hints {
        Some(h) => parse_help(h),
        None => {
            let v: Vec<HelpLevel> = Vec::new();
            assert(help_views(v@) =~= Seq::<(Seq<char>, Seq<char>)>::empty());
            v
        },
    };
    let mission = goal_of(instructions)?;
    let panels = capability_sections(&sections)?;
    let total = stages.len();
    assert(k < total);
    let mut established: Vec<String> = Vec::new();
    let mut j: usize = 0;
    while j < k
        invariant
            j <= k < stages@.len(),
            established@.len() == j,
            forall|i: int| 0 <= i < j ==> #[trigger] established@[i]@ == stages@[i].title@,
        decreases k - j,
    {
        established.push(crate::text::copy_string(&stages[j].title));
        j = j + 1;
    }
    Ok(
        PublishedStageContent {
            pack: crate::text::copy_string(&pack.manifest.name),
            pack_description: crate::text::copy_string(&pack.manifest.description),
            stage_id: crate::text::copy_string(&stages[k].id),
            position: k + 1,
            total_stages: total,
            title: crate::text::copy_string(&stages[k].title),
            mission,
            sections: panels,
            help,
            established,
            run_command: copy_strings(&language.run.command),
        },
    )
}

} // verus!
