//! What the workbench renderer cannot show: the round trip from markdown to
//! blocks and back, and the block constructs it has no block for.
use vstd::prelude::*;

use crate::capability::{
    blocks_of, blocks_to_markdown, char_pos, find_char, lemma_char_pos, list_item_of,
    markdown_list_item, md_blocks, parse_source_blocks,
};
use crate::text::{
    chars_eq, chars_of, contains, contains_str, decimal, has_prefix, is_whitespace, is_ws, join,
    join_chars, lines, lines_of, push_chars, push_decimal, push_str, starts_with, string_of,
    trim, trim_chars, views,
};

verus! {

// ---------------------------------------------------------------- words

/// Words found so far, and the word being read.
pub open spec fn word_fold(s: Seq<char>) -> (Seq<Seq<char>>, Seq<char>)
    decreases s.len(),
{
    if s.len() == 0 {
        (Seq::empty(), Seq::empty())
    } else {
        let (done, cur) = word_fold(s.drop_last());
        let c = s.last();
        if is_ws(c) {
            if cur.len() > 0 {
                (done.push(cur), Seq::empty())
            } else {
                (done, cur)
            }
        } else {
            (done, cur.push(c))
        }
    }
}

/// The maximal runs of non-whitespace characters of `s`, in order: what
/// `split_whitespace` yields.
pub open spec fn words(s: Seq<char>) -> Seq<Seq<char>> {
    let (done, cur) = word_fold(s);
    if cur.len() > 0 {
        done.push(cur)
    } else {
        done
    }
}

/// A text reduced to the words it carries, layout removed; a text with no
/// word at all reduces to one empty word.
pub open spec fn fidelity(s: Seq<char>) -> Seq<Seq<char>> {
    if words(s).len() == 0 {
        seq![Seq::empty()]
    } else {
        words(s)
    }
}

pub(crate) fn split_words(s: &[char]) -> (out: Vec<Vec<char>>)
    ensures
        views(out@) == words(s@),
{
    let mut done: Vec<Vec<char>> = Vec::new();
    let mut cur: Vec<char> = Vec::new();
    let mut i: usize = 0;
    while i < s.len()
        invariant
            i <= s@.len(),
            (views(done@), cur@) == word_fold(s@.take(i as int)),
        decreases s@.len() - i,
    {
        assert(s@.take(i + 1).drop_last() =~= s@.take(i as int));
        let c = s[i];
        if is_whitespace(c) {
            if cur.len() > 0 {
                let w = cur;
                cur = Vec::new();
                done.push(w);
                assert(views(done@) =~= word_fold(s@.take(i as int)).0.push(w@));
                assert(cur@ =~= Seq::<char>::empty());
            }
        } else {
            cur.push(c);
        }
        i = i + 1;
    }
    assert(s@.take(i as int) =~= s@);
    if cur.len() > 0 {
        let ghost d = views(done@);
        done.push(cur);
        assert(views(done@) =~= d.push(word_fold(s@).1));
    }
    done
}

fn fidelity_form(s: &[char]) -> (out: Vec<Vec<char>>)
    ensures
        views(out@) == fidelity(s@),
{
    let w = split_words(s);
    if w.len() == 0 {
        let mut one: Vec<Vec<char>> = Vec::new();
        one.push(Vec::new());
        assert(views(one@) =~= seq![Seq::<char>::empty()]);
        one
    } else {
        w
    }
}

fn words_eq(a: &Vec<Vec<char>>, b: &Vec<Vec<char>>) -> (r: bool)
    ensures
        r == (views(a@) == views(b@)),
{
    if a.len() != b.len() {
        assert(views(a@).len() != views(b@).len());
        return false;
    }
    let mut i: usize = 0;
    while i < a.len()
        invariant
            i <= a@.len(),
            a@.len() == b@.len(),
            forall|j: int| 0 <= j < i ==> a@[j]@ == b@[j]@,
        decreases a@.len() - i,
    {
        if !chars_eq(a[i].as_slice(), b[i].as_slice()) {
            assert(views(a@)[i as int] != views(b@)[i as int]);
            return false;
        }
        i = i + 1;
    }
    assert(views(a@) =~= views(b@));
    true
}

// ---------------------------------------------------------- divergence

/// The first index from `i` at which `a` and `b` differ, or the shorter
/// length where one is a prefix of the other.
pub open spec fn first_diff(a: Seq<Seq<char>>, b: Seq<Seq<char>>, i: int) -> int
    decreases a.len() - i,
{
    if i < 0 || i >= a.len() || i >= b.len() {
        if a.len() < b.len() {
            a.len() as int
        } else {
            b.len() as int
        }
    } else if a[i] != b[i] {
        i
    } else {
        first_diff(a, b, i + 1)
    }
}

pub open spec fn min_int(x: int, y: int) -> int {
    if x < y {
        x
    } else {
        y
    }
}

/// The words of `w` from six before `at` to six after it.
pub open spec fn window(w: Seq<Seq<char>>, at: int) -> Seq<char> {
    let from = if at >= 6 {
        at - 6
    } else {
        0
    };
    trim(join(w.subrange(min_int(from, w.len() as int), min_int(at + 7, w.len() as int)), seq![' ']))
}

/// The report of where two word sequences part company.
pub open spec fn divergence(authored: Seq<Seq<char>>, rendered: Seq<Seq<char>>) -> Seq<char> {
    let at = first_diff(authored, rendered, 0);
    "the pack says \"…"@ + window(authored, at) + "…\" but the workbench renders \"…"@ + window(
        rendered,
        at,
    ) + "…\""@
}

fn diverge_at(a: &Vec<Vec<char>>, b: &Vec<Vec<char>>) -> (at: usize)
    ensures
        at == first_diff(views(a@), views(b@), 0),
        at <= a@.len(),
        at <= b@.len(),
{
    let mut i: usize = 0;
    while i < a.len() && i < b.len() && chars_eq(a[i].as_slice(), b[i].as_slice())
        invariant
            i <= a@.len(),
            i <= b@.len(),
            first_diff(views(a@), views(b@), 0) == first_diff(views(a@), views(b@), i as int),
        decreases a@.len() - i,
    {
        assert(views(a@)[i as int] == views(b@)[i as int]);
        i = i + 1;
    }
    if i < a.len() && i < b.len() {
        assert(views(a@)[i as int] != views(b@)[i as int]);
        i
    } else if a.len() < b.len() {
        a.len()
    } else {
        b.len()
    }
}

fn window_of(w: &Vec<Vec<char>>, at: usize) -> (out: Vec<char>)
    requires
        at <= w@.len(),
    ensures
        out@ == window(views(w@), at as int),
{
    let len = w.len();
    let from: usize = if at >= 6 {
        at - 6
    } else {
        0
    };
    let lo: usize = if from < len {
        from
    } else {
        len
    };
    let hi: usize = if len - at < 7 {
        len
    } else {
        at + 7
    };
    let mut part: Vec<Vec<char>> = Vec::new();
    let mut i: usize = lo;
    while i < hi
        invariant
            lo <= i <= hi,
            hi <= w@.len(),
            part@.len() == i - lo,
            forall|j: int| 0 <= j < i - lo ==> #[trigger] part@[j]@ == w@[lo + j]@,
        decreases hi - i,
    {
        part.push(crate::text::copy_chars(&w[i]));
        i = i + 1;
    }
    assert(views(part@) =~= views(w@).subrange(lo as int, hi as int));
    let sep = vec![' '];
    assert(sep@ =~= seq![' ']);
    let joined = join_chars(&part, sep.as_slice());
    trim_chars(joined.as_slice())
}

fn first_divergence(authored: &Vec<Vec<char>>, rendered: &Vec<Vec<char>>) -> (out: Vec<char>)
    ensures
        out@ == divergence(views(authored@), views(rendered@)),
{
    let at = diverge_at(authored, rendered);
    let mut out: Vec<char> = Vec::new();
    push_str(&mut out, "the pack says \"…");
    let a = window_of(authored, at);
    push_chars(&mut out, a.as_slice());
    push_str(&mut out, "…\" but the workbench renders \"…");
    let r = window_of(rendered, at);
    push_chars(&mut out, r.as_slice());
    push_str(&mut out, "…\"");
    out
}

// ------------------------------------------------------------ constructs

/// What is left of a line once its code spans are taken out, and whether a
/// code span is still open at its end.
pub open spec fn bare_fold(s: Seq<char>) -> (bool, Seq<char>)
    decreases s.len(),
{
    if s.len() == 0 {
        (false, Seq::empty())
    } else {
        let (in_code, out) = bare_fold(s.drop_last());
        let c = s.last();
        if c == '`' {
            (!in_code, out)
        } else if !in_code {
            (in_code, out.push(c))
        } else {
            (in_code, out)
        }
    }
}

/// A `[` whose next `]` is directly followed by `(`.
pub open spec fn link_at(b: Seq<char>, i: int) -> bool {
    b[i] == '[' && match char_pos(b, i, ']') {
        Some(k) => k + 1 < b.len() && b[k + 1] == '(',
        None => false,
    }
}

/// `[text](target)` or `![alt](target)`, outside a code span.
pub open spec fn link_like(line: Seq<char>) -> bool {
    let b = bare_fold(line).1;
    exists|i: int| 0 <= i < b.len() && #[trigger] link_at(b, i)
}

fn bare_text(s: &[char]) -> (out: Vec<char>)
    ensures
        out@ == bare_fold(s@).1,
{
    let mut out: Vec<char> = Vec::new();
    let mut in_code = false;
    let mut i: usize = 0;
    while i < s.len()
        invariant
            i <= s@.len(),
            (in_code, out@) == bare_fold(s@.take(i as int)),
        decreases s@.len() - i,
    {
        assert(s@.take(i + 1).drop_last() =~= s@.take(i as int));
        let c = s[i];
        if c == '`' {
            in_code = !in_code;
        } else if !in_code {
            out.push(c);
        }
        i = i + 1;
    }
    assert(s@.take(i as int) =~= s@);
    out
}

fn is_link_like(line: &[char]) -> (r: bool)
    ensures
        r == link_like(line@),
{
    let b = bare_text(line);
    let mut i: usize = 0;
    while i < b.len()
        invariant
            i <= b@.len(),
            b@ == bare_fold(line@).1,
            forall|j: int| 0 <= j < i ==> !#[trigger] link_at(b@, j),
        decreases b@.len() - i,
    {
        if b[i] == '[' {
            proof {
                lemma_char_pos(b@, i as int, ']');
            }
            match find_char(b.as_slice(), i, ']') {
                Some(k) => {
                    if k + 1 < b.len() && b[k + 1] == '(' {
                        assert(link_at(b@, i as int));
                        return true;
                    }
                },
                None => {},
            }
        }
        i = i + 1;
    }
    false
}

/// Only rule characters, at least three of them.
pub open spec fn is_rule(line: Seq<char>) -> bool {
    &&& forall|j: int| 0 <= j < line.len() ==> {
        let c = #[trigger] line[j];
        c == '-' || c == '=' || c == '*' || c == '_'
    }
    &&& line.len() >= 3
}

fn rule_line(line: &[char]) -> (r: bool)
    ensures
        r == is_rule(line@),
{
    let mut i: usize = 0;
    while i < line.len()
        invariant
            i <= line@.len(),
            forall|j: int| 0 <= j < i ==> {
                let c = #[trigger] line@[j];
                c == '-' || c == '=' || c == '*' || c == '_'
            },
        decreases line@.len() - i,
    {
        let c = line[i];
        if !(c == '-' || c == '=' || c == '*' || c == '_') {
            return false;
        }
        i = i + 1;
    }
    line.len() >= 3
}

/// One finding: `line {n}: {what}: {line}`.
pub open spec fn say(n: nat, what: Seq<char>, line: Seq<char>) -> Seq<char> {
    "line "@ + decimal(n) + ": "@ + what + ": "@ + line
}

pub open spec fn if_then(c: bool, x: Seq<char>) -> Seq<Seq<char>> {
    if c {
        seq![x]
    } else {
        Seq::empty()
    }
}

/// The findings on one non-empty line outside a code block, `raw` as written
/// and `line` trimmed, numbered `n` from one.
pub open spec fn line_findings(n: nat, raw: Seq<char>, line: Seq<char>) -> Seq<Seq<char>> {
    if_then(line[0] == '>', say(n, "a block quotation has no block in the workbench renderer"@, line))
        + if_then(link_like(line), say(n, "a link renders as its own brackets and URL"@, line))
        + if_then(is_rule(line), say(n, "a rule or underlined heading renders as punctuation"@, line))
        + if_then(
        has_prefix(raw, "  "@) && list_item_of(line) is Some,
        say(n, "a nested list renders flattened into its parent"@, line),
    ) + if_then(line[0] == '<' && contains(line, ">"@), say(n, "raw HTML renders as text"@, line))
}

/// Findings so far over the lines, and whether a code fence is open.
pub open spec fn ignored_fold(ls: Seq<Seq<char>>) -> (bool, Seq<Seq<char>>)
    decreases ls.len(),
{
    if ls.len() == 0 {
        (false, Seq::empty())
    } else {
        let (in_code, found) = ignored_fold(ls.drop_last());
        let raw = ls.last();
        let line = trim(raw);
        if has_prefix(line, "```"@) {
            (!in_code, found)
        } else if in_code || line.len() == 0 {
            (in_code, found)
        } else {
            (in_code, found + line_findings(ls.len(), raw, line))
        }
    }
}

/// Block constructs that CommonMark defines and the renderer has no block
/// for: quotations, links, rules, nested lists and raw HTML.
pub open spec fn ignored(source: Seq<char>) -> Seq<Seq<char>> {
    ignored_fold(lines(source)).1
}

fn note(found: &mut Vec<Vec<char>>, c: bool, n: u64, what: &str, line: &[char])
    ensures
        views(final(found)@) == views(old(found)@) + if_then(c, say(n as nat, what@, line@)),
{
    if c {
        let mut m: Vec<char> = Vec::new();
        push_str(&mut m, "line ");
        push_decimal(&mut m, n);
        push_str(&mut m, ": ");
        push_str(&mut m, what);
        push_str(&mut m, ": ");
        push_chars(&mut m, line);
        let ghost before = views(found@);
        found.push(m);
        assert(views(found@) =~= before.push(m@));
    } else {
        assert(views(found@) =~= views(found@) + Seq::<Seq<char>>::empty());
    }
}

fn findings_on_line(found: &mut Vec<Vec<char>>, n: u64, raw: &[char], line: &[char])
    requires
        line@.len() > 0,
    ensures
        views(final(found)@) == views(old(found)@) + line_findings(n as nat, raw@, line@),
{
    let ghost start = views(found@);
    note(found, line[0] == '>', n, "a block quotation has no block in the workbench renderer", line);
    note(found, is_link_like(line), n, "a link renders as its own brackets and URL", line);
    note(found, rule_line(line), n, "a rule or underlined heading renders as punctuation", line);
    let two = vec![' ', ' '];
    assert(two@ =~= "  "@) by {
        reveal_strlit("  ");
    }
    let nested = starts_with(raw, two.as_slice()) && markdown_list_item(line).is_some();
    note(found, nested, n, "a nested list renders flattened into its parent", line);
    let html = line[0] == '<' && contains_str(line, ">");
    note(found, html, n, "raw HTML renders as text", line);
    proof {
        let a = start;
        assert(views(found@) =~= a + line_findings(n as nat, raw@, line@));
    }
}

fn ignored_constructs(source: &[char]) -> (out: Vec<Vec<char>>)
    ensures
        views(out@) == ignored(source@),
{
    let ls = lines_of(source);
    let fence = vec!['`', '`', '`'];
    assert(fence@ =~= "```"@) by {
        reveal_strlit("```");
    }
    let mut found: Vec<Vec<char>> = Vec::new();
    let mut in_code = false;
    let mut i: usize = 0;
    while i < ls.len()
        invariant
            i <= ls@.len(),
            views(ls@) == lines(source@),
            fence@ == "```"@,
            (in_code, views(found@)) == ignored_fold(views(ls@).take(i as int)),
        decreases ls@.len() - i,
    {
        assert(views(ls@).take(i + 1).drop_last() =~= views(ls@).take(i as int));
        let raw = &ls[i];
        let line = trim_chars(raw.as_slice());
        if starts_with(line.as_slice(), fence.as_slice()) {
            in_code = !in_code;
        } else if in_code || line.len() == 0 {
        } else {
            findings_on_line(&mut found, (i + 1) as u64, raw.as_slice(), line.as_slice());
        }
        i = i + 1;
    }
    assert(views(ls@).take(i as int) =~= views(ls@));
    found
}

// ---------------------------------------------------------------- check

/// Everything in `source` that the renderer cannot represent: the constructs
/// it has no block for, then, where parsing and rendering back does not give
/// the same words, the place where they part company.
pub open spec fn unrepresentable(source: Seq<char>) -> Seq<Seq<char>> {
    let authored = fidelity(source);
    let rendered = fidelity(md_blocks(blocks_of(lines(source))));
    ignored(source) + if_then(authored != rendered, divergence(authored, rendered))
}

/// Everything in `source` the workbench renderer cannot represent.
pub fn unrepresentable_markdown(source: &str) -> (out: Vec<String>)
    ensures
        out@.len() == unrepresentable(source@).len(),
        forall|i: int| 0 <= i < out@.len() ==> #[trigger] out@[i]@ == unrepresentable(source@)[i],
{
    let chars = chars_of(source);
    let mut problems = ignored_constructs(chars.as_slice());
    let blocks = parse_source_blocks(chars.as_slice());
    let md = blocks_to_markdown(&blocks);
    let md_chars = chars_of(md.as_str());
    let authored = fidelity_form(chars.as_slice());
    let rendered = fidelity_form(md_chars.as_slice());
    let same = words_eq(&authored, &rendered);
    let ghost before = views(problems@);
    if !same {
        problems.push(first_divergence(&authored, &rendered));
        assert(views(problems@) =~= before.push(divergence(views(authored@), views(rendered@))));
    } else {
        assert(views(problems@) =~= before + Seq::<Seq<char>>::empty());
    }
    let mut out: Vec<String> = Vec::new();
    let mut i: usize = 0;
    while i < problems.len()
        invariant
            i <= problems@.len(),
            out@.len() == i,
            forall|j: int| 0 <= j < i ==> #[trigger] out@[j]@ == problems@[j]@,
        decreases problems@.len() - i,
    {
        out.push(string_of(problems[i].as_slice()));
        i = i + 1;
    }
    assert(views(problems@) =~= unrepresentable(source@));
    assert forall|i: int| 0 <= i < out@.len() implies #[trigger] out@[i]@ == unrepresentable(source@)[i] by {
        assert(views(problems@)[i] == problems@[i]@);
    }
    out
}

} // verus!
