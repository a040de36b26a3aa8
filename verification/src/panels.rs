//! The chapters of the learning page: one per step and one for the
//! project overview, each a numbered run of sections with a rail that links
//! to them.
use vstd::prelude::*;

use crate::capability::{sections_of, string_pair_views};
use crate::page::{
    escape_html, find_section, html_escape, inline_html, inline_html_spec, markdown_html,
    markdown_to_html, section_body, slug, slugify, split_h2_sections,
};
use crate::text::{chars_of, decimal, lower_all, push_decimal, push_str, string_of};

verus! {

/// One numbered section of a chapter and its entry in the rail.
pub open spec fn anchor_of(panel: Seq<char>, title: Seq<char>) -> Seq<char> {
    html_escape(panel + seq!['-'] + slug(title))
}

pub open spec fn section_html(panel: Seq<char>, number: nat, title: Seq<char>, body: Seq<char>, boxed: bool) -> Seq<char> {
    "<section class=\"sec"@ + (if boxed {
        " sec-box"@
    } else {
        Seq::empty()
    }) + "\" id=\""@ + anchor_of(panel, title) + "\"><h2><span class=\"sec-num\" aria-hidden=\"true\">§"@
        + decimal(number) + "</span>"@ + inline_html_spec(title) + "</h2>"@ + body + "</section>"@
}

pub open spec fn rail_item(panel: Seq<char>, title: Seq<char>) -> Seq<char> {
    "<li><a href=\"#"@ + anchor_of(panel, title) + "\">"@ + inline_html_spec(title) + "</a></li>"@
}

/// Add a numbered section to a chapter and its link to the rail.
pub fn push_section(
    secs: &mut Vec<char>,
    rail: &mut Vec<char>,
    number: &mut u128,
    panel_id: &str,
    title: &str,
    body_html: &[char],
    boxed: bool,
)
    requires
        *old(number) < u128::MAX,
    ensures
        *final(number) == *old(number) + 1,
        final(secs)@ == old(secs)@ + section_html(panel_id@, *final(number) as nat, title@, body_html@, boxed),
        final(rail)@ == old(rail)@ + rail_item(panel_id@, title@),
{
    *number = *number + 1;
    let mut anchor_text: Vec<char> = chars_of(panel_id);
    anchor_text.push('-');
    push_str(&mut anchor_text, slugify(title).as_str());
    let anchor = escape_html(string_of(anchor_text.as_slice()).as_str());
    let heading = inline_html(title);
    push_str(secs, "<section class=\"sec");
    if boxed {
        push_str(secs, " sec-box");
    }
    push_str(secs, "\" id=\"");
    push_str(secs, anchor.as_str());
    push_str(secs, "\"><h2><span class=\"sec-num\" aria-hidden=\"true\">§");
    crate::text::push_decimal_wide(secs, *number);
    push_str(secs, "</span>");
    push_str(secs, heading.as_str());
    push_str(secs, "</h2>");
    crate::text::push_chars(secs, body_html);
    push_str(secs, "</section>");
    push_str(rail, "<li><a href=\"#");
    push_str(rail, anchor.as_str());
    push_str(rail, "\">");
    push_str(rail, heading.as_str());
    push_str(rail, "</a></li>");
    proof {
        assert(anchor_text@ =~= panel_id@ + seq!['-'] + slug(title@));
        if !boxed {
            assert(old(secs)@ + "<section class=\"sec"@ =~= old(secs)@ + "<section class=\"sec"@ + Seq::<char>::empty());
        }
    }
}

/// Sections written so far, their rail, and how many there are, for the
/// sections of a chapter: each but the one headed `skip` (in any ASCII
/// case), boxed where it is headed `boxed_title`.
/// A title among `skip`, ignoring ASCII case.
pub open spec fn skipped(title: Seq<char>, skip: Seq<Seq<char>>) -> bool {
    exists|j: int| 0 <= j < skip.len() && lower_all(#[trigger] skip[j]) == lower_all(title)
}

pub open spec fn chapter_fold(
    panel: Seq<char>,
    sections: Seq<(Seq<char>, Seq<char>)>,
    skip: Seq<Seq<char>>,
    boxed_title: Seq<char>,
    start: nat,
) -> (Seq<char>, Seq<char>, nat)
    decreases sections.len(),
{
    if sections.len() == 0 {
        (Seq::empty(), Seq::empty(), start)
    } else {
        let (secs, rail, n) = chapter_fold(panel, sections.drop_last(), skip, boxed_title, start);
        let (title, body) = sections.last();
        if skipped(title, skip) {
            (secs, rail, n)
        } else {
            (
                secs + section_html(panel, n + 1, title, markdown_html(body), lower_all(title) == lower_all(boxed_title)),
                rail + rail_item(panel, title),
                n + 1,
            )
        }
    }
}

proof fn lemma_chapter_count(
    panel: Seq<char>,
    sections: Seq<(Seq<char>, Seq<char>)>,
    skip: Seq<Seq<char>>,
    boxed_title: Seq<char>,
    start: nat,
)
    ensures
        chapter_fold(panel, sections, skip, boxed_title, start).2 <= start + sections.len(),
    decreases sections.len(),
{
    if sections.len() > 0 {
        lemma_chapter_count(panel, sections.drop_last(), skip, boxed_title, start);
    }
}

fn same_ignoring_case(a: &str, b: &str) -> (r: bool)
    ensures
        r == (lower_all(a@) == lower_all(b@)),
{
    let x = crate::text::lowercase_chars(chars_of(a).as_slice());
    let y = crate::text::lowercase_chars(chars_of(b).as_slice());
    crate::text::chars_eq(x.as_slice(), y.as_slice())
}

fn is_skipped(title: &str, skip: &Vec<&str>) -> (r: bool)
    ensures
        r == skipped(title@, skip@.map_values(|s: &str| s@)),
{
    let ghost sv = skip@.map_values(|s: &str| s@);
    let mut j: usize = 0;
    while j < skip.len()
        invariant
            j <= skip@.len(),
            sv == skip@.map_values(|s: &str| s@),
            forall|k: int| 0 <= k < j ==> lower_all(#[trigger] sv[k]) != lower_all(title@),
        decreases skip@.len() - j,
    {
        if same_ignoring_case(skip[j], title) {
            assert(lower_all(sv[j as int]) == lower_all(title@));
            return true;
        }
        j = j + 1;
    }
    false
}

fn write_chapter(
    secs: &mut Vec<char>,
    rail: &mut Vec<char>,
    number: &mut u128,
    panel_id: &str,
    sections: &Vec<(String, String)>,
    skip: &Vec<&str>,
    boxed_title: &str,
)
    requires
        *old(number) as nat + sections@.len() <= u128::MAX,
    ensures
        ({
            let (s, r, n) = chapter_fold(panel_id@, string_pair_views(sections@), skip@.map_values(|s: &str| s@), boxed_title@, *old(number) as nat);
            &&& final(secs)@ == old(secs)@ + s
            &&& final(rail)@ == old(rail)@ + r
            &&& *final(number) as nat == n
        }),
{
    let ghost sv = string_pair_views(sections@);
    let ghost s0 = secs@;
    let ghost r0 = rail@;
    let ghost n0 = *number as nat;
    let mut i: usize = 0;
    while i < sections.len()
        invariant
            i <= sections@.len(),
            sv == string_pair_views(sections@),
            n0 + sections@.len() <= u128::MAX,
            ({
                let (s, r, n) = chapter_fold(panel_id@, sv.take(i as int), skip@.map_values(|s: &str| s@), boxed_title@, n0);
                &&& secs@ == s0 + s
                &&& rail@ == r0 + r
                &&& *number as nat == n
            }),
        decreases sections@.len() - i,
    {
        proof {
            assert(sv.take(i + 1).drop_last() =~= sv.take(i as int));
            assert(sv.take(i + 1).last() == (sections@[i as int].0@, sections@[i as int].1@));
            lemma_chapter_count(panel_id@, sv.take(i as int), skip@.map_values(|s: &str| s@), boxed_title@, n0);
        }
        let ghost before_s = secs@;
        let ghost before_r = rail@;
        let title = sections[i].0.as_str();
        if !is_skipped(title, skip) {
            let boxed = same_ignoring_case(title, boxed_title);
            let body = markdown_to_html(sections[i].1.as_str());
            let bc = chars_of(body.as_str());
            push_section(secs, rail, number, panel_id, title, bc.as_slice(), boxed);
            proof {
                let (s, r, n) = chapter_fold(panel_id@, sv.take(i as int), skip@.map_values(|s: &str| s@), boxed_title@, n0);
                assert(secs@ =~= s0 + (s + section_html(panel_id@, n + 1, title@, markdown_html(sections@[i as int].1@), boxed)));
                assert(rail@ =~= r0 + (r + rail_item(panel_id@, title@)));
            }
        }
        i = i + 1;
    }
    assert(sv.take(i as int) =~= sv);
}

/// A step as the learning page shows it: its identifier, display title,
/// status (`complete`, `current` or other) and guide.
#[derive(Debug, Clone)]
pub struct StagePage {
    pub id: String,
    pub title: String,
    pub status: &'static str,
    pub source: String,
}

/// A number written with at least two digits.
pub open spec fn two_digits(n: nat) -> Seq<char> {
    if n < 10 {
        seq!['0'] + decimal(n)
    } else {
        decimal(n)
    }
}

fn push_two_digits(out: &mut Vec<char>, n: u64)
    ensures
        final(out)@ == old(out)@ + two_digits(n as nat),
{
    if n < 10 {
        out.push('0');
    }
    let ghost mid = out@;
    push_decimal(out, n);
}

/// Where the previous page button goes, and what it says.
pub open spec fn previous_of(stages: Seq<StagePage>, index: int) -> (Seq<char>, Seq<char>) {
    if index >= 1 && index - 1 < stages.len() {
        ("stage-"@ + stages[index - 1].id@, stages[index - 1].title@)
    } else {
        ("overview"@, "Project overview"@)
    }
}

pub open spec fn turn_next_html(stages: Seq<StagePage>, index: int) -> Seq<char> {
    if index + 1 < stages.len() {
        "<button class=\"turn next\" data-target=\""@ + html_escape("stage-"@ + stages[index + 1].id@)
            + "\"><span class=\"turn-label\">Next →</span><span class=\"turn-title\">"@ + html_escape(
            stages[index + 1].title@,
        ) + "</span></button>"@
    } else {
        "<p class=\"turn-end\">This is the final stage. Everything past it is yours to design.</p>"@
    }
}

pub open spec fn next_waypoint_of(stages: Seq<StagePage>, index: int) -> Seq<char> {
    if index + 1 < stages.len() {
        stages[index + 1].title@
    } else {
        "The finished project"@
    }
}

pub open spec fn panel_head(panel: Seq<char>, number: nat, total: nat, status: Seq<char>, title: Seq<char>, goal: Seq<char>) -> Seq<char> {
    "<section id=\""@ + html_escape(panel) + "\" class=\"chapter\" hidden>\n<div class=\"chapter-main\">\n<header class=\"chapter-head\">\n<p class=\"kicker\"><span>Stage "@
        + two_digits(number) + " of "@ + decimal(total) + "</span><span aria-hidden=\"true\">·</span><span class=\"st-"@
        + status + "\">"@ + crate::page::status_text(status, "Done"@, "In progress"@, "Ahead"@)
        + "</span></p>\n<h1 class=\"chapter-title\" tabindex=\"-1\">"@ + html_escape(title)
        + "</h1>\n<div class=\"lede\">"@ + goal + "</div>\n</header>\n"@
}

pub open spec fn panel_waypoints(previous_title: Seq<char>, next_waypoint: Seq<char>) -> Seq<char> {
    "<div class=\"waypoints\">\n<div class=\"waypoint\"><span class=\"waypoint-label\">Behind you</span><span class=\"waypoint-title\">"@
        + html_escape(previous_title)
        + "</span></div>\n<div class=\"waypoint ahead\"><span class=\"waypoint-label\">Ahead</span><span class=\"waypoint-title\">"@
        + html_escape(next_waypoint) + "</span></div>\n</div>\n"@
}

pub open spec fn panel_body(rail: Seq<char>, secs: Seq<char>) -> Seq<char> {
    "<aside class=\"rail\"><nav aria-label=\"Sections in this chapter\"><p class=\"rail-label\">In this chapter</p><ol>"@
        + rail + "</ol></nav></aside>\n<div class=\"prose\">"@ + secs + "</div>\n"@
}

pub open spec fn panel_turn(previous_target: Seq<char>, previous_title: Seq<char>, turn_next: Seq<char>) -> Seq<char> {
    "<nav class=\"page-turn\" aria-label=\"Chapter navigation\"><button class=\"turn prev\" data-target=\""@
        + html_escape(previous_target) + "\"><span class=\"turn-label\">← Previous</span><span class=\"turn-title\">"@
        + html_escape(previous_title) + "</span></button>"@ + turn_next + "</nav>\n</div>\n</section>"@
}

/// The chapter of step `index`: its kicker and title, its goal as the lede,
/// the steps behind and ahead, its other sections numbered with a rail,
/// and buttons to the neighbouring chapters.
pub open spec fn stage_panel_html(stages: Seq<StagePage>, index: int) -> Seq<char> {
    let stage = stages[index];
    let sections = sections_of(stage.source@);
    let panel = "stage-"@ + stage.id@;
    let goal = match find_section(sections, "Goal"@) {
        Some(body) => markdown_html(body),
        None => Seq::empty(),
    };
    let (secs, rail, _) = chapter_fold(panel, sections, seq!["Goal"@], "Non-goals"@, 0);
    let (previous_target, previous_title) = previous_of(stages, index);
    panel_head(panel, (index + 1) as nat, stages.len(), stage.status@, stage.title@, goal)
        + panel_waypoints(previous_title, next_waypoint_of(stages, index)) + panel_body(rail, secs)
        + panel_turn(previous_target, previous_title, turn_next_html(stages, index))
}

fn escaped(out: &mut Vec<char>, s: &str)
    ensures
        final(out)@ == old(out)@ + html_escape(s@),
{
    let e = escape_html(s);
    push_str(out, e.as_str());
}

fn prefixed(prefix: &str, s: &str) -> (r: String)
    ensures
        r@ == prefix@ + s@,
{
    let mut v: Vec<char> = Vec::new();
    push_str(&mut v, prefix);
    push_str(&mut v, s);
    string_of(v.as_slice())
}

fn push_panel_head(out: &mut Vec<char>, panel: &str, number: u64, total: u64, status: &str, title: &str, goal: &[char])
    ensures
        final(out)@ == old(out)@ + panel_head(panel@, number as nat, total as nat, status@, title@, goal@),
{
    let ghost start = out@;
    push_str(out, "<section id=\"");
    escaped(out, panel);
    push_str(out, "\" class=\"chapter\" hidden>\n<div class=\"chapter-main\">\n<header class=\"chapter-head\">\n<p class=\"kicker\"><span>Stage ");
    push_two_digits(out, number);
    push_str(out, " of ");
    push_decimal(out, total);
    push_str(out, "</span><span aria-hidden=\"true\">·</span><span class=\"st-");
    push_str(out, status);
    push_str(out, "\">");
    push_str(out, crate::page::status_label(status));
    push_str(out, "</span></p>\n<h1 class=\"chapter-title\" tabindex=\"-1\">");
    escaped(out, title);
    push_str(out, "</h1>\n<div class=\"lede\">");
    crate::text::push_chars(out, goal);
    push_str(out, "</div>\n</header>\n");
    assert(out@ =~= start + panel_head(panel@, number as nat, total as nat, status@, title@, goal@));
}

fn push_panel_waypoints(out: &mut Vec<char>, previous_title: &str, next_waypoint: &str)
    ensures
        final(out)@ == old(out)@ + panel_waypoints(previous_title@, next_waypoint@),
{
    let ghost start = out@;
    push_str(out, "<div class=\"waypoints\">\n<div class=\"waypoint\"><span class=\"waypoint-label\">Behind you</span><span class=\"waypoint-title\">");
    escaped(out, previous_title);
    push_str(out, "</span></div>\n<div class=\"waypoint ahead\"><span class=\"waypoint-label\">Ahead</span><span class=\"waypoint-title\">");
    escaped(out, next_waypoint);
    push_str(out, "</span></div>\n</div>\n");
    assert(out@ =~= start + panel_waypoints(previous_title@, next_waypoint@));
}

fn push_panel_body(out: &mut Vec<char>, rail: &[char], secs: &[char])
    ensures
        final(out)@ == old(out)@ + panel_body(rail@, secs@),
{
    let ghost start = out@;
    push_str(out, "<aside class=\"rail\"><nav aria-label=\"Sections in this chapter\"><p class=\"rail-label\">In this chapter</p><ol>");
    crate::text::push_chars(out, rail);
    push_str(out, "</ol></nav></aside>\n<div class=\"prose\">");
    crate::text::push_chars(out, secs);
    push_str(out, "</div>\n");
    assert(out@ =~= start + panel_body(rail@, secs@));
}

fn push_panel_turn(out: &mut Vec<char>, previous_target: &str, previous_title: &str, turn_next: &[char])
    ensures
        final(out)@ == old(out)@ + panel_turn(previous_target@, previous_title@, turn_next@),
{
    let ghost start = out@;
    push_str(out, "<nav class=\"page-turn\" aria-label=\"Chapter navigation\"><button class=\"turn prev\" data-target=\"");
    escaped(out, previous_target);
    push_str(out, "\"><span class=\"turn-label\">← Previous</span><span class=\"turn-title\">");
    escaped(out, previous_title);
    push_str(out, "</span></button>");
    crate::text::push_chars(out, turn_next);
    push_str(out, "</nav>\n</div>\n</section>");
    assert(out@ =~= start + panel_turn(previous_target@, previous_title@, turn_next@));
}

fn turn_next(stages: &Vec<StagePage>, index: usize) -> (out: Vec<char>)
    requires
        index < stages@.len(),
    ensures
        out@ == turn_next_html(stages@, index as int),
{
    let mut out: Vec<char> = Vec::new();
    if stages.len() - index > 1 {
        push_str(&mut out, "<button class=\"turn next\" data-target=\"");
        let target = prefixed("stage-", stages[index + 1].id.as_str());
        escaped(&mut out, target.as_str());
        push_str(&mut out, "\"><span class=\"turn-label\">Next →</span><span class=\"turn-title\">");
        escaped(&mut out, stages[index + 1].title.as_str());
        push_str(&mut out, "</span></button>");
    } else {
        push_str(&mut out, "<p class=\"turn-end\">This is the final stage. Everything past it is yours to design.</p>");
    }
    out
}

pub fn render_stage_panel(stage: &StagePage, index: usize, stages: &Vec<StagePage>) -> (html: String)
    requires
        index < stages@.len(),
        *stage == stages@[index as int],
    ensures
        html@ == stage_panel_html(stages@, index as int),
{
    let sections = split_h2_sections(stage.source.as_str());
    let panel_id = prefixed("stage-", stage.id.as_str());
    let goal: Vec<char> = match section_body(&sections, "Goal") {
        Some(body) => chars_of(markdown_to_html(body.as_str()).as_str()),
        None => Vec::new(),
    };
    let mut secs: Vec<char> = Vec::new();
    let mut rail: Vec<char> = Vec::new();
    let mut number: u128 = 0;
    let count = sections.len();
    assert(count as nat <= u64::MAX);
    let skip: Vec<&str> = vec!["Goal"];
    assert(skip@.map_values(|s: &str| s@) =~= seq!["Goal"@]);
    write_chapter(&mut secs, &mut rail, &mut number, panel_id.as_str(), &sections, &skip, "Non-goals");
    let (previous_target, previous_title): (String, String) = if index >= 1 {
        (prefixed("stage-", stages[index - 1].id.as_str()), crate::text::copy_string(&stages[index - 1].title))
    } else {
        (String::from_str("overview"), String::from_str("Project overview"))
    };
    let n = stages.len();
    let next_waypoint: String = if n - index > 1 {
        crate::text::copy_string(&stages[index + 1].title)
    } else {
        String::from_str("The finished project")
    };
    let turn = turn_next(stages, index);
    let mut out: Vec<char> = Vec::new();
    push_panel_head(&mut out, panel_id.as_str(), (index as u64) + 1, n as u64, stage.status, stage.title.as_str(), goal.as_slice());
    push_panel_waypoints(&mut out, previous_title.as_str(), next_waypoint.as_str());
    push_panel_body(&mut out, rail.as_slice(), secs.as_slice());
    push_panel_turn(&mut out, previous_target.as_str(), previous_title.as_str(), turn.as_slice());
    string_of(out.as_slice())
}

/// One row of the roadmap: number, title, where it stands, and its
/// summary.
pub open spec fn roadmap_row(stage: StagePage, number: nat) -> Seq<char> {
    "<li><button class=\"roadmap-row "@ + stage.status@ + "\" data-target=\"stage-"@ + html_escape(stage.id@)
        + "\"><span class=\"roadmap-head\"><span class=\"roadmap-num\" aria-hidden=\"true\">"@ + two_digits(number)
        + "</span><span class=\"roadmap-title\">"@ + html_escape(stage.title@)
        + "</span><span class=\"roadmap-leader\" aria-hidden=\"true\"></span><span class=\"roadmap-state\">"@
        + crate::page::status_text(stage.status@, "done"@, "you are here"@, "ahead"@)
        + "</span></span><span class=\"roadmap-summary\">"@ + html_escape(crate::page::summary_of(stage.source@))
        + "</span></button></li>"@
}

pub open spec fn roadmap_rows(stages: Seq<StagePage>) -> Seq<char>
    decreases stages.len(),
{
    if stages.len() == 0 {
        Seq::empty()
    } else {
        roadmap_rows(stages.drop_last()) + roadmap_row(stages.last(), stages.len())
    }
}

fn push_roadmap_row(out: &mut Vec<char>, stage: &StagePage, number: u64)
    ensures
        final(out)@ == old(out)@ + roadmap_row(*stage, number as nat),
{
    let ghost before = out@;
    push_str(out, "<li><button class=\"roadmap-row ");
    push_str(out, stage.status);
    push_str(out, "\" data-target=\"stage-");
    escaped(out, stage.id.as_str());
    push_str(out, "\"><span class=\"roadmap-head\"><span class=\"roadmap-num\" aria-hidden=\"true\">");
    push_two_digits(out, number);
    push_str(out, "</span><span class=\"roadmap-title\">");
    escaped(out, stage.title.as_str());
    push_str(out, "</span><span class=\"roadmap-leader\" aria-hidden=\"true\"></span><span class=\"roadmap-state\">");
    push_str(out, crate::page::roadmap_state(stage.status));
    push_str(out, "</span></span><span class=\"roadmap-summary\">");
    let summary = crate::page::stage_summary(stage.source.as_str());
    escaped(out, summary.as_str());
    push_str(out, "</span></button></li>");
    assert(out@ =~= before + roadmap_row(*stage, number as nat));
}

fn push_roadmap_rows(out: &mut Vec<char>, stages: &Vec<StagePage>)
    ensures
        final(out)@ == old(out)@ + roadmap_rows(stages@),
{
    let ghost start = out@;
    let mut i: usize = 0;
    while i < stages.len()
        invariant
            i <= stages@.len(),
            out@ == start + roadmap_rows(stages@.take(i as int)),
        decreases stages@.len() - i,
    {
        assert(stages@.take(i + 1).drop_last() =~= stages@.take(i as int));
        assert(stages@.take(i + 1).last() == stages@[i as int]);
        let ghost before = out@;
        push_roadmap_row(out, &stages[i], (i as u64) + 1);
        assert(out@ =~= start + (roadmap_rows(stages@.take(i as int)) + roadmap_row(stages@[i as int], (i + 1) as nat)));
        i = i + 1;
    }
    assert(stages@.take(i as int) =~= stages@);
}

/// The first two sections of the overview chapter: "Why this is useful"
/// where the README has it, then the road ahead; their rail; and how many
/// there are.
pub open spec fn overview_lead(sections: Seq<(Seq<char>, Seq<char>)>, stages: Seq<StagePage>) -> (Seq<char>, Seq<char>, nat) {
    let panel = "overview"@;
    let (s1, r1, n1): (Seq<char>, Seq<char>, nat) = match find_section(sections, "Why this is useful"@) {
        Some(body) => (
            section_html(panel, 1, "Why this is useful"@, markdown_html(body), false),
            rail_item(panel, "Why this is useful"@),
            1,
        ),
        None => (Seq::empty(), Seq::empty(), 0),
    };
    let road = "<ol class=\"roadmap\">"@ + roadmap_rows(stages) + "</ol>"@;
    (
        s1 + section_html(panel, n1 + 1, "The road ahead"@, road, false),
        r1 + rail_item(panel, "The road ahead"@),
        n1 + 1,
    )
}

/// The sections of the overview chapter and their rail: the lead
/// sections, then every other section but the lede's, "What good looks
/// like" boxed; a README without sections becomes one section of its own.
pub open spec fn overview_sections(overview: Seq<char>, stages: Seq<StagePage>) -> (Seq<char>, Seq<char>) {
    let sections = sections_of(overview);
    let panel = "overview"@;
    let (s2, r2, n2) = overview_lead(sections, stages);
    let (s3, r3, n3) = chapter_fold(
        panel,
        sections,
        seq!["What you are building"@, "Why this is useful"@],
        "What good looks like"@,
        n2,
    );
    if sections.len() == 0 && crate::text::trim(overview).len() > 0 {
        (
            s2 + s3 + section_html(panel, n3 + 1, "About this project"@, markdown_html(overview), false),
            r2 + r3 + rail_item(panel, "About this project"@),
        )
    } else {
        (s2 + s3, r2 + r3)
    }
}

/// The overview chapter: the pack's name, the README's "What you are
/// building" as the lede, and the overview's sections with their rail.
pub open spec fn overview_panel_html(pack_name: Seq<char>, overview: Seq<char>, stages: Seq<StagePage>) -> Seq<char> {
    let lede = match find_section(sections_of(overview), "What you are building"@) {
        Some(body) => markdown_html(body),
        None => Seq::empty(),
    };
    let lede_block = if lede.len() == 0 {
        Seq::empty()
    } else {
        "<div class=\"lede\">"@ + lede + "</div>"@
    };
    let (secs, rail) = overview_sections(overview, stages);
    "<section id=\"overview\" class=\"chapter\" hidden>\n<div class=\"chapter-main\">\n<header class=\"chapter-head\">\n<p class=\"kicker\"><span>Project overview</span></p>\n<h1 class=\"chapter-title\" tabindex=\"-1\">"@
        + html_escape(pack_name) + "</h1>\n"@ + lede_block
        + "\n</header>\n<aside class=\"rail\"><nav aria-label=\"Sections on this page\"><p class=\"rail-label\">On this page</p><ol>"@
        + rail + "</ol></nav></aside>\n<div class=\"prose\">"@ + secs + "</div>\n</div>\n</section>"@
}

fn write_overview_lead(
    secs: &mut Vec<char>,
    rail: &mut Vec<char>,
    number: &mut u128,
    sections: &Vec<(String, String)>,
    stages: &Vec<StagePage>,
)
    requires
        *old(number) == 0,
    ensures
        ({
            let (s, r, n) = overview_lead(string_pair_views(sections@), stages@);
            &&& final(secs)@ == old(secs)@ + s
            &&& final(rail)@ == old(rail)@ + r
            &&& *final(number) as nat == n
        }),
{
    let ghost s0 = secs@;
    let ghost r0 = rail@;
    match section_body(sections, "Why this is useful") {
        Some(body) => {
            let html = markdown_to_html(body.as_str());
            let hc = chars_of(html.as_str());
            push_section(secs, rail, number, "overview", "Why this is useful", hc.as_slice(), false);
        },
        None => {},
    }
    let mut road: Vec<char> = Vec::new();
    push_str(&mut road, "<ol class=\"roadmap\">");
    push_roadmap_rows(&mut road, stages);
    push_str(&mut road, "</ol>");
    push_section(secs, rail, number, "overview", "The road ahead", road.as_slice(), false);
    proof {
        let (s, r, n) = overview_lead(string_pair_views(sections@), stages@);
        assert(secs@ =~= s0 + s);
        assert(rail@ =~= r0 + r);
    }
}

fn write_overview_sections(secs: &mut Vec<char>, rail: &mut Vec<char>, overview: &str, stages: &Vec<StagePage>)
    ensures
        ({
            let (s, r) = overview_sections(overview@, stages@);
            &&& final(secs)@ == old(secs)@ + s
            &&& final(rail)@ == old(rail)@ + r
        }),
{
    let ghost s0 = secs@;
    let ghost r0 = rail@;
    let sections = split_h2_sections(overview);
    let count = sections.len();
    assert(count as nat <= u64::MAX);
    let mut number: u128 = 0;
    write_overview_lead(secs, rail, &mut number, &sections, stages);
    let ghost s2 = secs@;
    let ghost r2 = rail@;
    let skip: Vec<&str> = vec!["What you are building", "Why this is useful"];
    assert(skip@.map_values(|s: &str| s@) =~= seq!["What you are building"@, "Why this is useful"@]);
    write_chapter(secs, rail, &mut number, "overview", &sections, &skip, "What good looks like");
    let oc = chars_of(overview);
    if count == 0 && crate::text::trim_chars(oc.as_slice()).len() > 0 {
        let html = markdown_to_html(overview);
        let hc = chars_of(html.as_str());
        push_section(secs, rail, &mut number, "overview", "About this project", hc.as_slice(), false);
    }
    proof {
        let (s, r) = overview_sections(overview@, stages@);
        assert(secs@ =~= s0 + s);
        assert(rail@ =~= r0 + r);
    }
}

pub fn render_overview_panel(pack_name: &str, overview: &str, stages: &Vec<StagePage>) -> (html: String)
    ensures
        html@ == overview_panel_html(pack_name@, overview@, stages@),
{
    let sections = split_h2_sections(overview);
    let lede: Vec<char> = match section_body(&sections, "What you are building") {
        Some(body) => chars_of(markdown_to_html(body.as_str()).as_str()),
        None => Vec::new(),
    };
    let mut secs: Vec<char> = Vec::new();
    let mut rail: Vec<char> = Vec::new();
    write_overview_sections(&mut secs, &mut rail, overview, stages);
    let mut out: Vec<char> = Vec::new();
    let ghost start = out@;
    push_str(&mut out, "<section id=\"overview\" class=\"chapter\" hidden>\n<div class=\"chapter-main\">\n<header class=\"chapter-head\">\n<p class=\"kicker\"><span>Project overview</span></p>\n<h1 class=\"chapter-title\" tabindex=\"-1\">");
    escaped(&mut out, pack_name);
    push_str(&mut out, "</h1>\n");
    if lede.len() > 0 {
        push_str(&mut out, "<div class=\"lede\">");
        crate::text::push_chars(&mut out, lede.as_slice());
        push_str(&mut out, "</div>");
    }
    push_str(&mut out, "\n</header>\n<aside class=\"rail\"><nav aria-label=\"Sections on this page\"><p class=\"rail-label\">On this page</p><ol>");
    crate::text::push_chars(&mut out, rail.as_slice());
    push_str(&mut out, "</ol></nav></aside>\n<div class=\"prose\">");
    crate::text::push_chars(&mut out, secs.as_slice());
    push_str(&mut out, "</div>\n</div>\n</section>");
    assert(out@ =~= overview_panel_html(pack_name@, overview@, stages@));
    string_of(out.as_slice())
}

} // verus!
