//! What the workbench shows of a stage guide and of a project's README: the
//! mission line, narrative paragraphs, the required sections and the panels.
use vstd::prelude::*;

use crate::capability::{
    OverviewBlock, RichText, blocks_of, blocks_view, lookup_last, parse_block_lines,
    parse_source_blocks, plain_line, plain_line_spec, section_get, sections_of, string_pair_views,
};
use crate::text::{
    chars_of, has_prefix, join, join_chars, lines, lines_of, slice_chars, split_on,
    split_on_exec, starts_with, string_of, trim, trim_bounds, trim_chars, trim_start, views,
};

verus! {

/// The lines of a paragraph, each trimmed, joined by single spaces.
pub open spec fn joined_lines(ls: Seq<Seq<char>>) -> Seq<char> {
    join(ls.map_values(|l: Seq<char>| trim(l)), seq![' '])
}

fn join_trimmed(ls: &Vec<Vec<char>>) -> (out: Vec<char>)
    ensures
        out@ == joined_lines(views(ls@)),
{
    let mut parts: Vec<Vec<char>> = Vec::new();
    let mut i: usize = 0;
    while i < ls.len()
        invariant
            i <= ls@.len(),
            parts@.len() == i,
            forall|j: int| 0 <= j < i ==> #[trigger] parts@[j]@ == trim(ls@[j]@),
        decreases ls@.len() - i,
    {
        parts.push(trim_chars(ls[i].as_slice()));
        i = i + 1;
    }
    assert(views(parts@) =~= views(ls@).map_values(|l: Seq<char>| trim(l)));
    let sp = vec![' '];
    assert(sp@ =~= seq![' ']);
    join_chars(&parts, sp.as_slice())
}

/// A paragraph that has words and is not a code fence.
pub open spec fn is_narrative(p: Seq<char>) -> bool {
    trim(p).len() > 0 && !has_prefix(trim(p), "```"@)
}

pub open spec fn first_narrative(ps: Seq<Seq<char>>) -> Option<Seq<char>>
    decreases ps.len(),
{
    if ps.len() == 0 {
        None
    } else if is_narrative(ps[0]) {
        Some(ps[0])
    } else {
        first_narrative(ps.drop_first())
    }
}

/// The first paragraph of a section with words in it, outside a code fence,
/// reduced to plain words on one line; empty where there is none.
pub open spec fn first_paragraph_spec(section: Seq<char>) -> Seq<char> {
    match first_narrative(split_on(section, "\n\n"@)) {
        Some(p) => plain_line_spec(joined_lines(lines(p))),
        None => Seq::empty(),
    }
}

pub fn first_paragraph(section: &str) -> (out: String)
    ensures
        out@ == first_paragraph_spec(section@),
{
    let chars = chars_of(section);
    let sep = vec!['\n', '\n'];
    assert(sep@ =~= "\n\n"@) by {
        reveal_strlit("\n\n");
    }
    let fence = vec!['`', '`', '`'];
    assert(fence@ =~= "```"@) by {
        reveal_strlit("```");
    }
    let ps = split_on_exec(chars.as_slice(), sep.as_slice());
    let mut i: usize = 0;
    assert(views(ps@).skip(0) =~= views(ps@));
    while i < ps.len()
        invariant
            i <= ps@.len(),
            views(ps@) == split_on(section@, "\n\n"@),
            fence@ == "```"@,
            first_narrative(views(ps@)) == first_narrative(views(ps@).skip(i as int)),
        decreases ps@.len() - i,
    {
        assert(views(ps@).skip(i as int).drop_first() =~= views(ps@).skip(i + 1));
        assert(views(ps@).skip(i as int)[0] == ps@[i as int]@);
        let t = trim_chars(ps[i].as_slice());
        if t.len() > 0 && !starts_with(t.as_slice(), fence.as_slice()) {
            let ls = lines_of(ps[i].as_slice());
            let joined = join_trimmed(&ls);
            let s = string_of(joined.as_slice());
            return plain_line(s.as_str());
        }
        i = i + 1;
    }
    assert(views(ps@).skip(i as int).len() == 0);
    String::new()
}

// ------------------------------------------------------------ narrative

/// Paragraphs found, lines of the paragraph being read, whether a code
/// fence is open, and whether the limit has been reached.
pub struct NarrativeState {
    pub paragraphs: Seq<Seq<char>>,
    pub paragraph: Seq<Seq<char>>,
    pub in_code: bool,
    pub stopped: bool,
}

/// Close the paragraph being read: its words, if it has any, become a
/// paragraph.
pub open spec fn flush_narrative(paragraphs: Seq<Seq<char>>, paragraph: Seq<Seq<char>>) -> Seq<Seq<char>> {
    if paragraph.len() == 0 {
        paragraphs
    } else {
        let text = plain_line_spec(joined_lines(paragraph));
        if text.len() > 0 {
            paragraphs.push(text)
        } else {
            paragraphs
        }
    }
}

pub open spec fn narrative_step(st: NarrativeState, line: Seq<char>, limit: nat) -> NarrativeState {
    if st.stopped {
        st
    } else {
        let next = if has_prefix(trim_start(line), "```"@) {
            NarrativeState {
                paragraphs: flush_narrative(st.paragraphs, st.paragraph),
                paragraph: Seq::empty(),
                in_code: !st.in_code,
                stopped: false,
            }
        } else if st.in_code {
            st
        } else if trim(line).len() == 0 {
            NarrativeState {
                paragraphs: flush_narrative(st.paragraphs, st.paragraph),
                paragraph: Seq::empty(),
                in_code: st.in_code,
                stopped: false,
            }
        } else {
            NarrativeState { paragraph: st.paragraph.push(line), ..st }
        };
        NarrativeState { stopped: next.paragraphs.len() >= limit, ..next }
    }
}

pub open spec fn narrative_fold(ls: Seq<Seq<char>>, limit: nat) -> NarrativeState
    decreases ls.len(),
{
    if ls.len() == 0 {
        NarrativeState {
            paragraphs: Seq::empty(),
            paragraph: Seq::empty(),
            in_code: false,
            stopped: false,
        }
    } else {
        narrative_step(narrative_fold(ls.drop_last(), limit), ls.last(), limit)
    }
}

/// Up to `limit` paragraphs of prose, each on one line as plain words;
/// fenced code is skipped, and reading stops once `limit` are found.
pub open spec fn narrative(section: Seq<char>, limit: nat) -> Seq<Seq<char>> {
    let st = narrative_fold(lines(section), limit);
    let ps = if st.paragraphs.len() < limit {
        flush_narrative(st.paragraphs, st.paragraph)
    } else {
        st.paragraphs
    };
    if ps.len() > limit {
        ps.take(limit as int)
    } else {
        ps
    }
}

fn flush_narrative_exec(paragraphs: &mut Vec<Vec<char>>, paragraph: &Vec<Vec<char>>)
    ensures
        views(final(paragraphs)@) == flush_narrative(views(old(paragraphs)@), views(paragraph@)),
{
    if paragraph.len() == 0 {
        return;
    }
    let joined = join_trimmed(paragraph);
    let s = string_of(joined.as_slice());
    let text = plain_line(s.as_str());
    let tc = chars_of(text.as_str());
    if tc.len() > 0 {
        let ghost before = views(paragraphs@);
        paragraphs.push(tc);
        assert(views(paragraphs@) =~= before.push(text@));
    }
}

pub fn narrative_paragraphs(section: &str, limit: usize) -> (out: Vec<String>)
    ensures
        out@.map_values(|s: String| s@) == narrative(section@, limit as nat),
{
    let chars = chars_of(section);
    let ls = lines_of(chars.as_slice());
    let fence = vec!['`', '`', '`'];
    assert(fence@ =~= "```"@) by {
        reveal_strlit("```");
    }
    let mut paragraphs: Vec<Vec<char>> = Vec::new();
    let mut paragraph: Vec<Vec<char>> = Vec::new();
    let mut in_code = false;
    let mut stopped = false;
    let mut i: usize = 0;
    assert(views(paragraphs@) =~= Seq::<Seq<char>>::empty());
    assert(views(paragraph@) =~= Seq::<Seq<char>>::empty());
    while i < ls.len()
        invariant
            i <= ls@.len(),
            views(ls@) == lines(section@),
            fence@ == "```"@,
            narrative_fold(views(ls@).take(i as int), limit as nat) == (NarrativeState {
                paragraphs: views(paragraphs@),
                paragraph: views(paragraph@),
                in_code,
                stopped,
            }),
        decreases ls@.len() - i,
    {
        assert(views(ls@).take(i + 1).drop_last() =~= views(ls@).take(i as int));
        if !stopped {
            let line = &ls[i];
            let (a, _) = trim_bounds(line.as_slice());
            let rest = slice_chars(line.as_slice(), a, line.len());
            let t = trim_chars(line.as_slice());
            if starts_with(rest.as_slice(), fence.as_slice()) {
                flush_narrative_exec(&mut paragraphs, &paragraph);
                paragraph = Vec::new();
                assert(views(paragraph@) =~= Seq::<Seq<char>>::empty());
                in_code = !in_code;
            } else if in_code {
            } else if t.len() == 0 {
                flush_narrative_exec(&mut paragraphs, &paragraph);
                paragraph = Vec::new();
                assert(views(paragraph@) =~= Seq::<Seq<char>>::empty());
            } else {
                let ghost p = views(paragraph@);
                paragraph.push(crate::text::copy_chars(line));
                assert(views(paragraph@) =~= p.push(line@));
            }
            stopped = paragraphs.len() >= limit;
        }
        i = i + 1;
    }
    assert(views(ls@).take(i as int) =~= views(ls@));
    if paragraphs.len() < limit {
        flush_narrative_exec(&mut paragraphs, &paragraph);
    }
    let ghost ps = views(paragraphs@);
    paragraphs.truncate(limit);
    assert(views(paragraphs@) =~= (if ps.len() > limit {
        ps.take(limit as int)
    } else {
        ps
    }));
    let mut out: Vec<String> = Vec::new();
    let mut k: usize = 0;
    while k < paragraphs.len()
        invariant
            k <= paragraphs@.len(),
            out@.len() == k,
            forall|j: int| 0 <= j < k ==> #[trigger] out@[j]@ == paragraphs@[j]@,
        decreases paragraphs@.len() - k,
    {
        out.push(string_of(paragraphs[k].as_slice()));
        k = k + 1;
    }
    assert(out@.map_values(|s: String| s@) =~= views(paragraphs@));
    out
}

// ------------------------------------------------------------- sections

/// Every `##` heading a stage guide must carry to render, in reading order.
pub const REQUIRED_STAGE_SECTIONS: [&'static str; 7] = [
    "Goal",
    "Background",
    "Requirements",
    "Example",
    "Success criteria",
    "Edge cases",
    "Non-goals",
];

/// The required headings, as text.
pub open spec fn required_sections() -> Seq<Seq<char>> {
    seq![
        "Goal"@,
        "Background"@,
        "Requirements"@,
        "Example"@,
        "Success criteria"@,
        "Edge cases"@,
        "Non-goals"@,
    ]
}

/// A section that is absent, or present with nothing that renders.
pub open spec fn section_missing(sections: Seq<(Seq<char>, Seq<char>)>, name: Seq<char>) -> bool {
    match lookup_last(sections, name) {
        None => true,
        Some(body) => blocks_of(lines(body)).len() == 0,
    }
}

pub open spec fn missing_among(names: Seq<Seq<char>>, sections: Seq<(Seq<char>, Seq<char>)>) -> Seq<Seq<char>>
    decreases names.len(),
{
    if names.len() == 0 {
        Seq::empty()
    } else {
        missing_among(names.drop_last(), sections) + if section_missing(sections, names.last()) {
            seq![names.last()]
        } else {
            Seq::empty()
        }
    }
}

/// The required headings this stage guide is missing or leaves empty, in
/// the order they are required.
pub fn missing_stage_sections(source: &str) -> (out: Vec<&'static str>)
    ensures
        out@.map_values(|s: &str| s@) == missing_among(required_sections(), sections_of(source@)),
{
    let names: [&'static str; 7] = REQUIRED_STAGE_SECTIONS;
    assert(names@.map_values(|s: &str| s@) =~= required_sections());
    let sections = crate::capability::markdown_sections(source);
    let mut out: Vec<&'static str> = Vec::new();
    let mut i: usize = 0;
    while i < names.len()
        invariant
            i <= names@.len(),
            names@.map_values(|s: &str| s@) == required_sections(),
            string_pair_views(sections@) == sections_of(source@),
            out@.map_values(|s: &str| s@) == missing_among(required_sections().take(i as int), sections_of(source@)),
        decreases names@.len() - i,
    {
        let name = names[i];
        proof {
            let t = required_sections().take(i + 1);
            assert(t.drop_last() =~= required_sections().take(i as int));
            assert(t.last() == name@);
        }
        let ghost before = out@;
        let missing = match section_get(&sections, name) {
            None => true,
            Some(body) => {
                let chars = chars_of(body.as_str());
                let blocks = parse_source_blocks(chars.as_slice());
                blocks.len() == 0
            },
        };
        if missing {
            out.push(name);
            assert(out@.map_values(|s: &str| s@) =~= before.map_values(|s: &str| s@).push(name@));
        } else {
            assert(out@.map_values(|s: &str| s@) =~= before.map_values(|s: &str| s@) + Seq::<Seq<char>>::empty());
        }
        i = i + 1;
    }
    assert(required_sections().take(7) =~= required_sections());
    out
}

/// The six panels the workbench shows for a stage, in reading order, each
/// with the `##` heading it is authored under.
pub const PANEL_SECTIONS: [(&'static str, &'static str); 6] = [
    ("background", "Background"),
    ("requirements", "Requirements"),
    ("example", "Example"),
    ("expected", "Success criteria"),
    ("edge_cases", "Edge cases"),
    ("non_goals", "Non-goals"),
];

pub open spec fn panel_sections() -> Seq<(Seq<char>, Seq<char>)> {
    seq![
        ("background"@, "Background"@),
        ("requirements"@, "Requirements"@),
        ("example"@, "Example"@),
        ("expected"@, "Success criteria"@),
        ("edge_cases"@, "Edge cases"@),
        ("non_goals"@, "Non-goals"@),
    ]
}

/// One authored section of a stage guide, under the panel key the
/// workbench places it in.
#[derive(Debug)]
pub struct CapabilitySection {
    pub key: &'static str,
    pub title: String,
    pub blocks: Vec<OverviewBlock>,
}

/// The first of `panels` whose heading the document lacks.
pub open spec fn first_absent(
    panels: Seq<(Seq<char>, Seq<char>)>,
    sections: Seq<(Seq<char>, Seq<char>)>,
) -> Option<Seq<char>>
    decreases panels.len(),
{
    if panels.len() == 0 {
        None
    } else if lookup_last(sections, panels[0].1) is None {
        Some(panels[0].1)
    } else {
        first_absent(panels.drop_first(), sections)
    }
}

/// The error for a stage guide without heading `name`.
pub open spec fn missing_section_message(name: Seq<char>) -> Seq<char> {
    "capability instructions are missing the "@ + name + " section"@
}

fn missing_section_error(name: &str) -> (e: String)
    ensures
        e@ == missing_section_message(name@),
{
    let mut m: Vec<char> = Vec::new();
    crate::text::push_str(&mut m, "capability instructions are missing the ");
    crate::text::push_str(&mut m, name);
    crate::text::push_str(&mut m, " section");
    string_of(m.as_slice())
}

/// The body filed under `name`, which the document has.
pub open spec fn body_of(sections: Seq<(Seq<char>, Seq<char>)>, name: Seq<char>) -> Seq<char> {
    match lookup_last(sections, name) {
        Some(b) => b,
        None => Seq::empty(),
    }
}

/// The panels are the six sections of `sections` in panel order, each
/// under its key and parsed into blocks.
pub open spec fn panels_match(out: Seq<CapabilitySection>, sections: Seq<(Seq<char>, Seq<char>)>) -> bool {
    out.len() == 6 && forall|j: int|
        0 <= j < 6 ==> {
            let p = #[trigger] panel_sections()[j];
            &&& out[j].key@ == p.0
            &&& out[j].title@ == p.1
            &&& blocks_view(out[j].blocks@) == blocks_of(lines(body_of(sections, p.1)))
        }
}

/// The six panels of a stage, in reading order, each parsed into blocks; an
/// error names the first panel heading the guide lacks.
pub fn capability_sections(sections: &Vec<(String, String)>) -> (r: Result<Vec<CapabilitySection>, String>)
    ensures
        match first_absent(panel_sections(), string_pair_views(sections@)) {
            Some(name) => r matches Err(e) && e@ == missing_section_message(name),
            None => r matches Ok(out) && panels_match(out@, string_pair_views(sections@)),
        },
{
    let panels: [(&'static str, &'static str); 6] = PANEL_SECTIONS;
    assert(panels@.map_values(|p: (&str, &str)| (p.0@, p.1@)) =~= panel_sections());
    let ghost secs = string_pair_views(sections@);
    let mut out: Vec<CapabilitySection> = Vec::new();
    let mut i: usize = 0;
    assert(panel_sections().skip(0) =~= panel_sections());
    while i < 6
        invariant
            i <= 6,
            panels@.map_values(|p: (&str, &str)| (p.0@, p.1@)) == panel_sections(),
            secs == string_pair_views(sections@),
            first_absent(panel_sections(), secs) == first_absent(panel_sections().skip(i as int), secs),
            out@.len() == i,
            forall|j: int|
                0 <= j < i ==> {
                    let p = #[trigger] panel_sections()[j];
                    &&& out@[j].key@ == p.0
                    &&& out@[j].title@ == p.1
                    &&& blocks_view(out@[j].blocks@) == blocks_of(lines(body_of(secs, p.1)))
                },
        decreases 6 - i,
    {
        let (key, heading) = panels[i];
        proof {
            let rest = panel_sections().skip(i as int);
            assert(rest.drop_first() =~= panel_sections().skip(i + 1));
            assert(rest[0] == panel_sections()[i as int]);
            assert(panel_sections()[i as int] == (key@, heading@));
        }
        match section_get(sections, heading) {
            None => {
                return Err(missing_section_error(heading));
            },
            Some(body) => {
                let chars = chars_of(body.as_str());
                let blocks = parse_source_blocks(chars.as_slice());
                out.push(CapabilitySection { key, title: String::from_str(heading), blocks });
            },
        }
        i = i + 1;
    }
    proof {
        assert(panel_sections().skip(6).len() == 0);
    }
    Ok(out)
}

/// One `##` section of a project README, parsed into blocks.
#[derive(Debug)]
pub struct OverviewSection {
    pub title: String,
    pub blocks: Vec<OverviewBlock>,
}

/// Sections closed so far, the title being read, and its lines.
pub struct OverviewState {
    pub sections: Seq<(Seq<char>, Seq<crate::capability::Block>)>,
    pub title: Option<Seq<char>>,
    pub body: Seq<Seq<char>>,
}

/// Close the section being read; one with nothing that renders is dropped.
pub open spec fn close_overview(st: OverviewState) -> Seq<(Seq<char>, Seq<crate::capability::Block>)> {
    match st.title {
        Some(t) => if blocks_of(st.body).len() > 0 {
            st.sections.push((t, blocks_of(st.body)))
        } else {
            st.sections
        },
        None => st.sections,
    }
}

pub open spec fn overview_fold(ls: Seq<Seq<char>>) -> OverviewState
    decreases ls.len(),
{
    if ls.len() == 0 {
        OverviewState { sections: Seq::empty(), title: None, body: Seq::empty() }
    } else {
        let st = overview_fold(ls.drop_last());
        let line = ls.last();
        if has_prefix(line, seq!['#', '#', ' ']) {
            OverviewState {
                sections: close_overview(st),
                title: Some(trim(line.skip(3))),
                body: Seq::empty(),
            }
        } else if st.title is Some {
            OverviewState { body: st.body.push(line), ..st }
        } else {
            st
        }
    }
}

/// The `##` sections of a README with something to render, in order.
pub open spec fn overview_of(source: Seq<char>) -> Seq<(Seq<char>, Seq<crate::capability::Block>)> {
    close_overview(overview_fold(lines(source)))
}

pub open spec fn overview_views(v: Seq<OverviewSection>) -> Seq<(Seq<char>, Seq<crate::capability::Block>)> {
    v.map_values(|s: OverviewSection| (s.title@, blocks_view(s.blocks@)))
}

fn close_overview_exec(out: &mut Vec<OverviewSection>, title: Option<Vec<char>>, body: &Vec<Vec<char>>)
    ensures
        overview_views(final(out)@) == close_overview(
            OverviewState {
                sections: overview_views(old(out)@),
                title: crate::help::opt_view(title),
                body: views(body@),
            },
        ),
{
    if let Some(t) = title {
        let blocks = parse_block_lines(body);
        if blocks.len() > 0 {
            let ghost before = overview_views(out@);
            let ghost b = blocks_view(blocks@);
            out.push(OverviewSection { title: string_of(t.as_slice()), blocks });
            assert(overview_views(out@) =~= before.push((t@, b)));
        }
    }
}

/// The README's `##` sections, each parsed into blocks; sections with
/// nothing to render are left out.
pub fn parse_overview_sections(source: &str) -> (out: Vec<OverviewSection>)
    ensures
        overview_views(out@) == overview_of(source@),
{
    let chars = chars_of(source);
    let ls = lines_of(chars.as_slice());
    let h2 = vec!['#', '#', ' '];
    assert(h2@ =~= seq!['#', '#', ' ']);
    let mut out: Vec<OverviewSection> = Vec::new();
    let mut title: Option<Vec<char>> = None;
    let mut body: Vec<Vec<char>> = Vec::new();
    let mut i: usize = 0;
    assert(overview_views(out@) =~= Seq::<(Seq<char>, Seq<crate::capability::Block>)>::empty());
    assert(views(body@) =~= Seq::<Seq<char>>::empty());
    while i < ls.len()
        invariant
            i <= ls@.len(),
            views(ls@) == lines(source@),
            h2@ == seq!['#', '#', ' '],
            overview_fold(views(ls@).take(i as int)) == (OverviewState {
                sections: overview_views(out@),
                title: crate::help::opt_view(title),
                body: views(body@),
            }),
        decreases ls@.len() - i,
    {
        assert(views(ls@).take(i + 1).drop_last() =~= views(ls@).take(i as int));
        let line = &ls[i];
        if starts_with(line.as_slice(), h2.as_slice()) {
            assert(h2@.len() == 3);
            let rest = slice_chars(line.as_slice(), 3, line.len());
            assert(rest@ =~= line@.skip(3));
            let t = title;
            close_overview_exec(&mut out, t, &body);
            title = Some(trim_chars(rest.as_slice()));
            body = Vec::new();
            assert(views(body@) =~= Seq::<Seq<char>>::empty());
        } else if title.is_some() {
            let ghost b = views(body@);
            body.push(crate::text::copy_chars(line));
            assert(views(body@) =~= b.push(line@));
        }
        i = i + 1;
    }
    assert(views(ls@).take(i as int) =~= views(ls@));
    close_overview_exec(&mut out, title, &body);
    out
}

/// Leading lines that are headings or blank.
pub open spec fn skip_heading(ls: Seq<Seq<char>>) -> Seq<Seq<char>>
    decreases ls.len(),
{
    if ls.len() > 0 && (has_prefix(trim_start(ls[0]), seq!['#']) || trim(ls[0]).len() == 0) {
        skip_heading(ls.drop_first())
    } else {
        ls
    }
}

/// A prediction prompt without its leading heading: `None` where nothing
/// else is left.
pub open spec fn prediction_body(source: Seq<char>) -> Seq<char> {
    trim(join(skip_heading(lines(source)), seq!['\n']))
}

/// The stage's prediction prompt, with its leading `#` heading removed;
/// `None` where the prompt has nothing else.
pub fn prediction_prompt(source: &str) -> (r: Option<RichText>)
    ensures
        match r {
            Some(t) => prediction_body(source@).len() > 0 && t.source@ == prediction_body(source@) && t.wf(),
            None => prediction_body(source@).len() == 0,
        },
{
    let chars = chars_of(source);
    let ls = lines_of(chars.as_slice());
    let hash = vec!['#'];
    let mut i: usize = 0;
    assert(views(ls@).skip(0) =~= views(ls@));
    while i < ls.len()
        invariant
            i <= ls@.len(),
            hash@ == seq!['#'],
            skip_heading(views(ls@)) == skip_heading(views(ls@).skip(i as int)),
        ensures
            skip_heading(views(ls@)) == views(ls@).skip(i as int),
        decreases ls@.len() - i,
    {
        let line = &ls[i];
        let (a, _) = trim_bounds(line.as_slice());
        let rest = slice_chars(line.as_slice(), a, line.len());
        let t = trim_chars(line.as_slice());
        assert(views(ls@).skip(i as int)[0] == line@);
        if !(starts_with(rest.as_slice(), hash.as_slice()) || t.len() == 0) {
            assert(trim_start(line@) == rest@);
            break;
        }
        assert(views(ls@).skip(i as int).drop_first() =~= views(ls@).skip(i + 1));
        i = i + 1;
    }
    let mut kept: Vec<Vec<char>> = Vec::new();
    let mut k: usize = i;
    while k < ls.len()
        invariant
            i <= k <= ls@.len(),
            kept@.len() == k - i,
            forall|j: int| 0 <= j < k - i ==> #[trigger] kept@[j]@ == ls@[i + j]@,
        decreases ls@.len() - k,
    {
        kept.push(crate::text::copy_chars(&ls[k]));
        k = k + 1;
    }
    assert(views(kept@) =~= views(ls@).skip(i as int));
    let nl = vec!['\n'];
    assert(nl@ =~= seq!['\n']);
    let joined = join_chars(&kept, nl.as_slice());
    let body = trim_chars(joined.as_slice());
    if body.len() == 0 {
        None
    } else {
        Some(RichText::parse(string_of(body.as_slice())))
    }
}

} // verus!
