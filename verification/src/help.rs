//! A stage's help ladder: `# Hint N — Label` headings, each over its hint,
//! and the rule for how many rungs may be revealed.
use vstd::prelude::*;

use crate::capability::RichText;
use crate::text::{
    chars_of, join, join_chars, lines, lines_of, parse_usize, parse_usize_spec, string_of,
    strip_prefix_exec, trim, trim_chars, views,
};

verus! {

/// One rung of the ladder. `level` counts rungs in reading order from one.
#[derive(Debug)]
pub struct HelpLevel {
    pub level: usize,
    pub label: String,
    pub content: RichText,
}

/// A dash that ends a heading's number: an em dash or a hyphen.
pub open spec fn is_dash(c: char) -> bool {
    c == '—' || c == '-'
}

/// The first dash in `h`, or its length.
pub open spec fn dash_pos(h: Seq<char>) -> int
    decreases h.len(),
{
    if h.len() == 0 {
        0
    } else if is_dash(h[0]) {
        0
    } else {
        1 + dash_pos(h.drop_first())
    }
}

proof fn lemma_dash_pos(h: Seq<char>)
    ensures
        0 <= dash_pos(h) <= h.len(),
        dash_pos(h) < h.len() ==> is_dash(h[dash_pos(h)]),
        forall|j: int| 0 <= j < dash_pos(h) ==> !is_dash(#[trigger] h[j]),
    decreases h.len(),
{
    if h.len() > 0 && !is_dash(h[0]) {
        lemma_dash_pos(h.drop_first());
        assert forall|j: int| 0 <= j < dash_pos(h) implies !is_dash(#[trigger] h[j]) by {
            if j > 0 {
                assert(h[j] == h.drop_first()[j - 1]);
            }
        }
    }
}

/// `1 — Observation` split into its number and its label; a heading with no
/// dash is labelled `Hint`. `None` where the number does not parse.
pub open spec fn heading_parts(h: Seq<char>) -> Option<(nat, Seq<char>)> {
    let k = dash_pos(h);
    let (number, label) = if k < h.len() {
        (trim(h.take(k)), trim(h.skip(k + 1)))
    } else {
        (h, "Hint"@)
    };
    match parse_usize_spec(number) {
        Some(n) => Some((n, label)),
        None => None,
    }
}

fn help_heading_parts(h: &[char]) -> (r: Option<(usize, Vec<char>)>)
    ensures
        match heading_parts(h@) {
            Some((n, label)) => r matches Some((m, l)) && m == n && l@ == label,
            None => r is None,
        },
{
    let mut k: usize = 0;
    while k < h.len() && !(h[k] == '—' || h[k] == '-')
        invariant
            k <= h@.len(),
            forall|j: int| 0 <= j < k ==> !is_dash(#[trigger] h@[j]),
        decreases h@.len() - k,
    {
        k = k + 1;
    }
    proof {
        lemma_dash_pos(h@);
        if dash_pos(h@) < k {
            assert(!is_dash(h@[dash_pos(h@)]));
        }
        if k < dash_pos(h@) {
            assert(!is_dash(h@[k as int]));
        }
    }
    let number: Vec<char>;
    let label: Vec<char>;
    if k < h.len() {
        let a = crate::text::slice_chars(h, 0, k);
        let b = crate::text::slice_chars(h, k + 1, h.len());
        assert(a@ =~= h@.take(k as int));
        assert(b@ =~= h@.skip(k + 1));
        number = trim_chars(a.as_slice());
        label = trim_chars(b.as_slice());
    } else {
        number = crate::text::slice_chars(h, 0, h.len());
        assert(number@ =~= h@);
        label = chars_of("Hint");
    }
    match parse_usize(number.as_slice()) {
        Some(n) => Some((n, label)),
        None => None,
    }
}

/// What the ladder holds of each rung: its label and its hint as authored.
pub open spec fn help_views(v: Seq<HelpLevel>) -> Seq<(Seq<char>, Seq<char>)> {
    v.map_values(|h: HelpLevel| (h.label@, h.content.source@))
}

/// Rungs are numbered by position from one, and each hint's blocks are those
/// its source parses into.
pub open spec fn ladder_wf(v: Seq<HelpLevel>) -> bool {
    forall|j: int| 0 <= j < v.len() ==> #[trigger] v[j].level == j + 1 && v[j].content.wf()
}

pub open spec fn opt_view(o: Option<Vec<char>>) -> Option<Seq<char>> {
    match o {
        Some(v) => Some(v@),
        None => None,
    }
}

/// The rungs read so far, the heading of the rung being read, and its lines.
pub struct HelpState {
    pub levels: Seq<(Seq<char>, Seq<char>)>,
    pub heading: Option<Seq<char>>,
    pub body: Seq<Seq<char>>,
}

/// Close the rung under `heading`: one whose heading has no number, or whose
/// hint is blank, is no rung.
pub open spec fn close_help(
    levels: Seq<(Seq<char>, Seq<char>)>,
    heading: Option<Seq<char>>,
    body: Seq<Seq<char>>,
) -> Seq<(Seq<char>, Seq<char>)> {
    match heading {
        None => levels,
        Some(h) => match heading_parts(h) {
            None => levels,
            Some((_, label)) => {
                let content = trim(join(body, seq!['\n']));
                if content.len() > 0 {
                    levels.push((label, content))
                } else {
                    levels
                }
            },
        },
    }
}

pub open spec fn help_fold(ls: Seq<Seq<char>>) -> HelpState
    decreases ls.len(),
{
    if ls.len() == 0 {
        HelpState { levels: Seq::empty(), heading: None, body: Seq::empty() }
    } else {
        let st = help_fold(ls.drop_last());
        let line = ls.last();
        if crate::text::has_prefix(line, "# Hint "@) {
            HelpState {
                levels: close_help(st.levels, st.heading, st.body),
                heading: Some(trim(line.skip("# Hint "@.len() as int))),
                body: Seq::empty(),
            }
        } else if st.heading is Some {
            HelpState { levels: st.levels, heading: st.heading, body: st.body.push(line) }
        } else {
            st
        }
    }
}

/// The ladder of a hints file: each `# Hint ` heading that carries a number
/// opens a rung, which holds the trimmed text up to the next such heading;
/// prose before the first heading is no rung.
pub open spec fn help_ladder(source: Seq<char>) -> Seq<(Seq<char>, Seq<char>)> {
    let st = help_fold(lines(source));
    close_help(st.levels, st.heading, st.body)
}

fn push_help(levels: &mut Vec<HelpLevel>, heading: Option<Vec<char>>, body: &Vec<Vec<char>>)
    requires
        heading is Some ==> old(levels)@.len() < usize::MAX,
        ladder_wf(old(levels)@),
    ensures
        heading is None ==> final(levels)@ == old(levels)@,
        help_views(final(levels)@) == close_help(help_views(old(levels)@), opt_view(heading), views(body@)),
        ladder_wf(final(levels)@),
        final(levels)@.len() <= old(levels)@.len() + 1,
{
    let h = match heading {
        Some(h) => h,
        None => return,
    };
    let parts = help_heading_parts(h.as_slice());
    let nl = vec!['\n'];
    assert(nl@ =~= seq!['\n']);
    let joined = join_chars(body, nl.as_slice());
    let content = trim_chars(joined.as_slice());
    let label = match parts {
        Some((_, label)) => label,
        None => return,
    };
    if content.len() > 0 {
        let ghost before = levels@;
        let level = HelpLevel {
            level: levels.len() + 1,
            label: string_of(label.as_slice()),
            content: RichText::parse(string_of(content.as_slice())),
        };
        levels.push(level);
        assert(help_views(levels@) =~= help_views(before).push((label@, content@)));
    }
}

/// Parse a stage's hints file into its help ladder. A rung is numbered by
/// its position in reading order, not by the digits in its heading.
pub fn parse_help(source: &str) -> (out: Vec<HelpLevel>)
    ensures
        help_views(out@) == help_ladder(source@),
        ladder_wf(out@),
{
    let chars = chars_of(source);
    let ls = lines_of(chars.as_slice());
    let mut levels: Vec<HelpLevel> = Vec::new();
    let mut heading: Option<Vec<char>> = None;
    let mut body: Vec<Vec<char>> = Vec::new();
    let mut i: usize = 0;
    assert(help_views(levels@) =~= Seq::<(Seq<char>, Seq<char>)>::empty());
    assert(views(body@) =~= Seq::<Seq<char>>::empty());
    while i < ls.len()
        invariant
            i <= ls@.len(),
            views(ls@) == lines(source@),
            ladder_wf(levels@),
            levels@.len() <= i,
            heading is Some ==> levels@.len() < i,
            help_fold(views(ls@).take(i as int)) == (HelpState {
                levels: help_views(levels@),
                heading: opt_view(heading),
                body: views(body@),
            }),
        decreases ls@.len() - i,
    {
        assert(views(ls@).take(i + 1).drop_last() =~= views(ls@).take(i as int));
        let line = &ls[i];
        match strip_prefix_exec(line.as_slice(), "# Hint ") {
            Some(rest) => {
                let h = heading;
                push_help(&mut levels, h, &body);
                heading = Some(trim_chars(rest.as_slice()));
                body = Vec::new();
                assert(views(body@) =~= Seq::<Seq<char>>::empty());
            },
            None => {
                if heading.is_some() {
                    let ghost b = views(body@);
                    body.push(crate::text::copy_chars(line));
                    assert(views(body@) =~= b.push(line@));
                }
            },
        }
        i = i + 1;
    }
    assert(views(ls@).take(i as int) =~= views(ls@));
    push_help(&mut levels, heading, &body);
    levels
}

/// The number a `# Hint ` line authored, if it carries one.
pub open spec fn authored_number(line: Seq<char>) -> Option<nat> {
    if crate::text::has_prefix(line, "# Hint "@) {
        match heading_parts(trim(line.skip("# Hint "@.len() as int))) {
            Some((n, _)) => Some(n),
            None => None,
        }
    } else {
        None
    }
}

pub open spec fn authored_numbers(ls: Seq<Seq<char>>) -> Seq<nat>
    decreases ls.len(),
{
    if ls.len() == 0 {
        Seq::empty()
    } else {
        authored_numbers(ls.drop_last()) + match authored_number(ls.last()) {
            Some(n) => seq![n],
            None => Seq::empty(),
        }
    }
}

/// The numbers a pack authored on its `# Hint N` headings, in reading order.
pub fn authored_help_numbers(source: &str) -> (out: Vec<usize>)
    ensures
        out@.map_values(|n: usize| n as nat) == authored_numbers(lines(source@)),
{
    let chars = chars_of(source);
    let ls = lines_of(chars.as_slice());
    let mut out: Vec<usize> = Vec::new();
    let mut i: usize = 0;
    while i < ls.len()
        invariant
            i <= ls@.len(),
            views(ls@) == lines(source@),
            out@.map_values(|n: usize| n as nat) == authored_numbers(views(ls@).take(i as int)),
        decreases ls@.len() - i,
    {
        assert(views(ls@).take(i + 1).drop_last() =~= views(ls@).take(i as int));
        let ghost before = out@;
        match strip_prefix_exec(ls[i].as_slice(), "# Hint ") {
            Some(rest) => {
                let t = trim_chars(rest.as_slice());
                match help_heading_parts(t.as_slice()) {
                    Some((n, _)) => {
                        out.push(n);
                        assert(out@.map_values(|n: usize| n as nat) =~= before.map_values(
                            |n: usize| n as nat,
                        ).push(n as nat));
                    },
                    None => {
                        assert(out@.map_values(|n: usize| n as nat) =~= before.map_values(
                            |n: usize| n as nat,
                        ) + Seq::<nat>::empty());
                    },
                }
            },
            None => {
                assert(out@.map_values(|n: usize| n as nat) =~= before.map_values(
                    |n: usize| n as nat,
                ) + Seq::<nat>::empty());
            },
        }
        i = i + 1;
    }
    assert(views(ls@).take(i as int) =~= views(ls@));
    out
}

/// How many help levels may be revealed right now: the last level is the
/// retrospective and stays gated until the stage is complete, except in a
/// ladder of one level, which has no separate retrospective to withhold.
pub open spec fn available_levels(total: nat, completed: bool) -> nat {
    if completed || total <= 1 {
        total
    } else {
        (total - 1) as nat
    }
}

pub fn available_help_levels(total: usize, completed: bool) -> (n: usize)
    ensures
        n == available_levels(total as nat, completed),
{
    if completed {
        total
    } else {
        let less = if total > 0 {
            total - 1
        } else {
            0
        };
        let floor = if total < 1 {
            total
        } else {
            1
        };
        if less > floor {
            less
        } else {
            floor
        }
    }
}

/// A rung heading's number may end in a hyphen or an em dash alike:
/// `N - Label` and `N — Label` give the same number and the same label,
/// the number as written and the label trimmed.
pub proof fn law_hyphen_and_em_dash_headings_agree(number: Seq<char>, label: Seq<char>)
    requires
        number.len() > 0,
        crate::text::only_digits(number),
    ensures
        heading_parts(number + seq![' ', '-', ' '] + label) == heading_parts(number + seq![' ', '—', ' '] + label),
        heading_parts(number + seq![' ', '-', ' '] + label) == match parse_usize_spec(number) {
            Some(n) => Some((n, trim(label))),
            None => None::<(nat, Seq<char>)>,
        },
{
    lemma_heading_with_dash(number, label, '-');
    lemma_heading_with_dash(number, label, '—');
}

proof fn lemma_heading_with_dash(number: Seq<char>, label: Seq<char>, dash: char)
    requires
        number.len() > 0,
        crate::text::only_digits(number),
        dash == '-' || dash == '—',
    ensures
        heading_parts(number + seq![' ', dash, ' '] + label) == match parse_usize_spec(number) {
            Some(n) => Some((n, trim(label))),
            None => None::<(nat, Seq<char>)>,
        },
{
    let h = number + seq![' ', dash, ' '] + label;
    let k: int = number.len() as int + 1;
    lemma_dash_pos(h);
    assert forall|j: int| 0 <= j < k implies !is_dash(#[trigger] h[j]) by {
        if j < number.len() {
            assert(h[j] == number[j]);
            assert(crate::text::is_ascii_digit(number[j]));
        } else {
            assert(h[j] == ' ');
        }
    }
    assert(h[k] == dash);
    if dash_pos(h) < k {
        assert(is_dash(h[dash_pos(h)]));
    }
    if dash_pos(h) > k {
        assert(!is_dash(h[k]));
    }
    assert(dash_pos(h) == k);
    assert(h.take(k) =~= number + seq![' ']);
    assert(h.skip(k + 1) =~= seq![' '] + label);
    lemma_trim_number(number);
    lemma_trim_label(label);
}

proof fn lemma_trim_number(number: Seq<char>)
    requires
        number.len() > 0,
        crate::text::only_digits(number),
    ensures
        trim(number + seq![' ']) == number,
{
    let s = number + seq![' '];
    assert(crate::text::is_ascii_digit(number[0]));
    assert(s[0] == number[0]);
    assert(crate::text::trim_start(s) == s);
    assert(s.drop_last() =~= number);
    assert(crate::text::is_ascii_digit(number.last()));
    assert(crate::text::trim_end(s) == crate::text::trim_end(number));
    assert(crate::text::trim_end(number) == number);
}

proof fn lemma_trim_label(label: Seq<char>)
    ensures
        trim(seq![' '] + label) == trim(label),
{
    let s = seq![' '] + label;
    assert(s.drop_first() =~= label);
    assert(crate::text::trim_start(s) == crate::text::trim_start(label));
}

} // verus!
