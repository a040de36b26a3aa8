//! The static learning page: anchors, HTML escaping, the inline and block
//! markdown it renders, and the stage summaries its rail shows.
use vstd::prelude::*;

use crate::text::{
    chars_of, has_prefix, is_ascii_alnum, join, lines, lines_of, lower, push_chars, push_str,
    split_once, string_of, trim, views,
};

verus! {

// ---------------------------------------------------------------- anchors

/// Slug state: the slug so far and whether a dash is owed before the next
/// letter or digit.
pub open spec fn slug_fold(s: Seq<char>) -> (Seq<char>, bool)
    decreases s.len(),
{
    if s.len() == 0 {
        (Seq::empty(), false)
    } else {
        let (slug, pending) = slug_fold(s.drop_last());
        let c = s.last();
        if is_ascii_alnum(c) {
            let dashed = if pending && slug.len() > 0 {
                slug.push('-')
            } else {
                slug
            };
            (dashed.push(lower(c)), false)
        } else {
            (slug, true)
        }
    }
}

/// An anchor name: the ASCII letters and digits of `value`, lowercased,
/// with one `-` for each run of anything else between them; `section` where
/// nothing is left.
pub open spec fn slug(value: Seq<char>) -> Seq<char> {
    let s = slug_fold(value).0;
    if s.len() == 0 {
        "section"@
    } else {
        s
    }
}

pub fn slugify(value: &str) -> (out: String)
    ensures
        out@ == slug(value@),
{
    let s = chars_of(value);
    let mut slug_chars: Vec<char> = Vec::new();
    let mut pending = false;
    let mut i: usize = 0;
    while i < s.len()
        invariant
            i <= s@.len(),
            (slug_chars@, pending) == slug_fold(s@.take(i as int)),
        decreases s@.len() - i,
    {
        assert(s@.take(i + 1).drop_last() =~= s@.take(i as int));
        let c = s[i];
        if crate::text::is_ascii_alphanumeric(c) {
            if pending && slug_chars.len() > 0 {
                slug_chars.push('-');
            }
            pending = false;
            slug_chars.push(crate::text::to_ascii_lowercase(c));
        } else {
            pending = true;
        }
        i = i + 1;
    }
    assert(s@.take(i as int) =~= s@);
    if slug_chars.len() == 0 {
        return String::from_str("section");
    }
    string_of(slug_chars.as_slice())
}

/// A character an anchor name may hold: a lowercase ASCII letter, a digit,
/// or `-`.
pub open spec fn anchor_char(c: char) -> bool {
    ('a' <= c && c <= 'z') || ('0' <= c && c <= '9') || c == '-'
}

/// A name that can stand in a URL fragment as it is: not empty, only
/// anchor characters, no dash at either end and never two in a row.
pub open spec fn anchor_safe(s: Seq<char>) -> bool {
    &&& s.len() > 0
    &&& forall|i: int| 0 <= i < s.len() ==> anchor_char(#[trigger] s[i])
    &&& s[0] != '-'
    &&& s.last() != '-'
    &&& forall|i: int| 0 <= i < s.len() - 1 ==> !(#[trigger] s[i] == '-' && s[i + 1] == '-')
}

proof fn lemma_slug_fold_shape(s: Seq<char>)
    ensures
        ({
            let r = slug_fold(s).0;
            &&& forall|i: int| 0 <= i < r.len() ==> anchor_char(#[trigger] r[i])
            &&& r.len() > 0 ==> r[0] != '-' && r.last() != '-'
            &&& forall|i: int| 0 <= i < r.len() - 1 ==> !(#[trigger] r[i] == '-' && r[i + 1] == '-')
        }),
    decreases s.len(),
{
    if s.len() > 0 {
        lemma_slug_fold_shape(s.drop_last());
        let (slug, pending) = slug_fold(s.drop_last());
        let c = s.last();
        if is_ascii_alnum(c) {
            let dashed = if pending && slug.len() > 0 {
                slug.push('-')
            } else {
                slug
            };
            let r = dashed.push(lower(c));
            assert(anchor_char(lower(c)) && lower(c) != '-');
            assert forall|i: int| 0 <= i < r.len() implies anchor_char(#[trigger] r[i]) by {
                if i < slug.len() {
                    assert(r[i] == slug[i]);
                }
            }
            assert forall|i: int| 0 <= i < r.len() - 1 implies !(#[trigger] r[i] == '-' && r[i + 1] == '-') by {
                if i + 1 < slug.len() {
                    assert(r[i] == slug[i] && r[i + 1] == slug[i + 1]);
                } else if i + 1 == slug.len() {
                    assert(r[i] == slug.last());
                }
            }
            if slug.len() > 0 {
                assert(r[0] == slug[0]);
            }
        }
    }
}

/// Every slug is a safe anchor name.
pub proof fn law_slugs_are_anchor_safe(value: Seq<char>)
    ensures
        anchor_safe(slug(value)),
{
    lemma_slug_fold_shape(value);
    reveal_strlit("section");
}

// ---------------------------------------------------------------- escaping

/// The HTML for one character of text.
pub open spec fn html_char(c: char) -> Seq<char> {
    if c == '&' {
        "&amp;"@
    } else if c == '<' {
        "&lt;"@
    } else if c == '>' {
        "&gt;"@
    } else if c == '"' {
        "&quot;"@
    } else if c == '\'' {
        "&#39;"@
    } else {
        seq![c]
    }
}

/// Text made safe to place in HTML, character by character.
pub open spec fn html_escape(s: Seq<char>) -> Seq<char>
    decreases s.len(),
{
    if s.len() == 0 {
        Seq::empty()
    } else {
        html_escape(s.drop_last()) + html_char(s.last())
    }
}

/// A character that means something to an HTML parser.
pub open spec fn is_markup(c: char) -> bool {
    c == '<' || c == '>' || c == '"' || c == '\''
}

proof fn lemma_html_char_clean(c: char)
    ensures
        forall|k: int| 0 <= k < html_char(c).len() ==> !is_markup(#[trigger] html_char(c)[k]),
{
    reveal_strlit("&amp;");
    reveal_strlit("&lt;");
    reveal_strlit("&gt;");
    reveal_strlit("&quot;");
    reveal_strlit("&#39;");
}

/// Escaped text holds no character that could open a tag or end an
/// attribute.
pub proof fn law_escaped_html_has_no_markup(s: Seq<char>)
    ensures
        forall|k: int| 0 <= k < html_escape(s).len() ==> !is_markup(#[trigger] html_escape(s)[k]),
    decreases s.len(),
{
    if s.len() > 0 {
        law_escaped_html_has_no_markup(s.drop_last());
        lemma_html_char_clean(s.last());
        let a = html_escape(s.drop_last());
        let b = html_char(s.last());
        assert forall|k: int| 0 <= k < html_escape(s).len() implies !is_markup(#[trigger] html_escape(s)[k]) by {
            if k < a.len() {
                assert(html_escape(s)[k] == a[k]);
            } else {
                assert(html_escape(s)[k] == b[k - a.len()]);
            }
        }
    }
}

fn push_html_char(out: &mut Vec<char>, c: char)
    ensures
        final(out)@ == old(out)@ + html_char(c),
{
    if c == '&' {
        push_str(out, "&amp;");
    } else if c == '<' {
        push_str(out, "&lt;");
    } else if c == '>' {
        push_str(out, "&gt;");
    } else if c == '"' {
        push_str(out, "&quot;");
    } else if c == '\'' {
        push_str(out, "&#39;");
    } else {
        out.push(c);
    }
}

fn push_escaped(out: &mut Vec<char>, s: &[char])
    ensures
        final(out)@ == old(out)@ + html_escape(s@),
{
    let ghost start = out@;
    let mut i: usize = 0;
    while i < s.len()
        invariant
            i <= s@.len(),
            out@ == start + html_escape(s@.take(i as int)),
        decreases s@.len() - i,
    {
        assert(s@.take(i + 1).drop_last() =~= s@.take(i as int));
        push_html_char(out, s[i]);
        i = i + 1;
    }
    assert(s@.take(i as int) =~= s@);
}

/// Text made safe to place in HTML: `& < > " '` become entities.
pub fn escape_html(source: &str) -> (out: String)
    ensures
        out@ == html_escape(source@),
        forall|k: int| 0 <= k < out@.len() ==> !is_markup(#[trigger] out@[k]),
{
    let s = chars_of(source);
    let mut out: Vec<char> = Vec::new();
    push_escaped(&mut out, s.as_slice());
    proof {
        law_escaped_html_has_no_markup(source@);
    }
    string_of(out.as_slice())
}

// ---------------------------------------------------------------- inline

/// Inline markup from position `i`, with a code span and strong emphasis
/// open or not: a backtick toggles code, `**` toggles strong, anything else
/// is escaped text; whatever is still open at the end is closed.
pub open spec fn inline_from(s: Seq<char>, i: int, code: bool, strong: bool) -> Seq<char>
    decreases s.len() - i,
{
    if i < 0 || i >= s.len() {
        (if code {
            "</code>"@
        } else {
            Seq::empty()
        }) + (if strong {
            "</strong>"@
        } else {
            Seq::empty()
        })
    } else if s[i] == '`' {
        (if code {
            "</code>"@
        } else {
            "<code>"@
        }) + inline_from(s, i + 1, !code, strong)
    } else if s[i] == '*' && i + 1 < s.len() && s[i + 1] == '*' {
        (if strong {
            "</strong>"@
        } else {
            "<strong>"@
        }) + inline_from(s, i + 2, code, !strong)
    } else {
        html_char(s[i]) + inline_from(s, i + 1, code, strong)
    }
}

pub open spec fn inline_html_spec(s: Seq<char>) -> Seq<char> {
    inline_from(s, 0, false, false)
}

fn push_inline(out: &mut Vec<char>, s: &[char])
    ensures
        final(out)@ == old(out)@ + inline_html_spec(s@),
{
    let ghost start = out@;
    let mut code = false;
    let mut strong = false;
    let mut i: usize = 0;
    while i < s.len()
        invariant
            i <= s@.len(),
            start + inline_html_spec(s@) == out@ + inline_from(s@, i as int, code, strong),
        decreases s@.len() - i,
    {
        let ghost before = out@;
        let ghost i0 = i as int;
        let ghost code0 = code;
        let ghost strong0 = strong;
        let c = s[i];
        if c == '`' {
            if code {
                push_str(out, "</code>");
            } else {
                push_str(out, "<code>");
            }
            code = !code;
            i = i + 1;
        } else if c == '*' && i + 1 < s.len() && s[i + 1] == '*' {
            if strong {
                push_str(out, "</strong>");
            } else {
                push_str(out, "<strong>");
            }
            strong = !strong;
            i = i + 2;
        } else {
            push_html_char(out, c);
            i = i + 1;
        }
        assert(before + inline_from(s@, i0, code0, strong0) =~= out@ + inline_from(s@, i as int, code, strong));
    }
    if code {
        push_str(out, "</code>");
    }
    if strong {
        push_str(out, "</strong>");
    }
}

pub fn inline_html(source: &str) -> (out: String)
    ensures
        out@ == inline_html_spec(source@),
{
    let s = chars_of(source);
    let mut out: Vec<char> = Vec::new();
    push_inline(&mut out, s.as_slice());
    string_of(out.as_slice())
}

// ---------------------------------------------------------------- blocks

/// The renderer's state between lines: the paragraph being gathered, the
/// open list (`ul` or `ol`), and an open code fence with its text.
pub struct HtmlState {
    pub paragraph: Seq<Seq<char>>,
    pub list: Option<Seq<char>>,
    pub in_code: bool,
    pub code: Seq<char>,
}

pub open spec fn flush_html(p: Seq<Seq<char>>) -> Seq<char> {
    if p.len() == 0 {
        Seq::empty()
    } else {
        "<p>"@ + inline_html_spec(join(p, seq![' '])) + "</p>"@
    }
}

pub open spec fn close_html(list: Option<Seq<char>>) -> Seq<char> {
    match list {
        Some(kind) => "</"@ + kind + ">"@,
        None => Seq::empty(),
    }
}

pub open spec fn open_list(list: Option<Seq<char>>, kind: Seq<char>) -> Seq<char> {
    if list == Some(kind) {
        Seq::empty()
    } else {
        close_html(list) + "<"@ + kind + ">"@
    }
}

pub open spec fn code_block(code: Seq<char>) -> Seq<char> {
    "<div class=\"code-block\"><button class=\"copy-button\" type=\"button\">Copy</button><pre><code>"@
        + html_escape(crate::text::trim_end(code)) + "</code></pre></div>"@
}

/// A trimmed line that starts and ends with a pipe.
pub open spec fn pipe_row(t: Seq<char>) -> bool {
    t.len() > 0 && t[0] == '|' && t.last() == '|'
}

/// The first line from `i` that is not a table row.
pub open spec fn table_end(ls: Seq<Seq<char>>, i: int) -> int
    decreases ls.len() - i,
{
    if 0 <= i < ls.len() && pipe_row(trim(ls[i])) {
        table_end(ls, i + 1)
    } else {
        i
    }
}

pub open spec fn cells_html(cells: Seq<Seq<char>>, open: Seq<char>, close: Seq<char>) -> Seq<char>
    decreases cells.len(),
{
    if cells.len() == 0 {
        Seq::empty()
    } else {
        cells_html(cells.drop_last(), open, close) + open + inline_html_spec(cells.last()) + close
    }
}

pub open spec fn body_rows(rows: Seq<Seq<Seq<char>>>) -> Seq<char>
    decreases rows.len(),
{
    if rows.len() == 0 {
        Seq::empty()
    } else {
        body_rows(rows.drop_last()) + "<tr>"@ + cells_html(rows.last(), "<td>"@, "</td>"@) + "</tr>"@
    }
}

/// A table: the first row is the header, the second the delimiter row,
/// which is not shown; a table of fewer than two rows renders as nothing.
pub open spec fn table_html(rows: Seq<Seq<Seq<char>>>) -> Seq<char> {
    if rows.len() < 2 {
        Seq::empty()
    } else {
        "<div class=\"table-wrap\"><table><thead><tr>"@ + cells_html(rows[0], "<th>"@, "</th>"@)
            + "</tr></thead><tbody>"@ + body_rows(rows.skip(2)) + "</tbody></table></div>"@
    }
}

/// `1. item`: the item of a numbered line.
pub open spec fn numbered(t: Seq<char>) -> Option<Seq<char>> {
    match split_once(t, seq!['.', ' ']) {
        Some((number, item)) => if number.len() > 0 && crate::capability::all_digits(number) {
            Some(item)
        } else {
            None
        },
        None => None,
    }
}

pub open spec fn cleared(st: HtmlState) -> HtmlState {
    HtmlState { paragraph: Seq::empty(), list: None, ..st }
}

pub open spec fn heading_html(level: Seq<char>, title: Seq<char>) -> Seq<char> {
    "<h"@ + level + ">"@ + inline_html_spec(title) + "</h"@ + level + ">"@
}

/// What line `i` renders to, the state after it, and the next line to read.
pub open spec fn html_step(ls: Seq<Seq<char>>, i: int, st: HtmlState) -> (Seq<char>, HtmlState, int) {
    let raw = ls[i];
    let t = trim(raw);
    let closing = flush_html(st.paragraph) + close_html(st.list);
    if has_prefix(t, seq!['`', '`', '`']) {
        (
            closing + if st.in_code {
                code_block(st.code)
            } else {
                Seq::empty()
            },
            HtmlState {
                paragraph: Seq::empty(),
                list: None,
                in_code: !st.in_code,
                code: if st.in_code {
                    Seq::empty()
                } else {
                    st.code
                },
            },
            i + 1,
        )
    } else if st.in_code {
        (Seq::empty(), HtmlState { code: st.code + raw + seq!['\n'], ..st }, i + 1)
    } else if pipe_row(t) {
        let j = table_end(ls, i);
        (
            closing + table_html(ls.subrange(i, j).map_values(|l: Seq<char>| crate::capability::table_cells_of(l))),
            cleared(st),
            j,
        )
    } else if t.len() == 0 {
        (closing, cleared(st), i + 1)
    } else if has_prefix(t, seq!['#', '#', '#', ' ']) {
        (closing + heading_html(seq!['3'], t.skip(4)), cleared(st), i + 1)
    } else if has_prefix(t, seq!['#', '#', ' ']) {
        (closing + heading_html(seq!['2'], t.skip(3)), cleared(st), i + 1)
    } else if has_prefix(t, seq!['#', ' ']) {
        (closing + heading_html(seq!['1'], t.skip(2)), cleared(st), i + 1)
    } else if has_prefix(t, seq!['-', ' ']) {
        (
            flush_html(st.paragraph) + open_list(st.list, "ul"@) + "<li>"@ + inline_html_spec(t.skip(2)) + "</li>"@,
            HtmlState { paragraph: Seq::empty(), list: Some("ul"@), ..st },
            i + 1,
        )
    } else {
        match numbered(t) {
            Some(item) => (
                flush_html(st.paragraph) + open_list(st.list, "ol"@) + "<li>"@ + inline_html_spec(item) + "</li>"@,
                HtmlState { paragraph: Seq::empty(), list: Some("ol"@), ..st },
                i + 1,
            ),
            None => (close_html(st.list), HtmlState { paragraph: st.paragraph.push(t), list: None, ..st }, i + 1),
        }
    }
}

/// The HTML for the lines from `i` on.
pub open spec fn html_from(ls: Seq<Seq<char>>, i: int, st: HtmlState) -> Seq<char>
    decreases ls.len() - i,
{
    if i < 0 || i >= ls.len() {
        flush_html(st.paragraph) + close_html(st.list)
    } else {
        let (piece, next, j) = html_step(ls, i, st);
        if i < j <= ls.len() {
            piece + html_from(ls, j, next)
        } else {
            piece
        }
    }
}

/// Markdown rendered to HTML: headings, paragraphs, lists, fenced code and
/// tables, with every piece of text escaped.
pub open spec fn markdown_html(source: Seq<char>) -> Seq<char> {
    html_from(
        lines(source),
        0,
        HtmlState { paragraph: Seq::empty(), list: None, in_code: false, code: Seq::empty() },
    )
}

pub open spec fn list_view(list: Option<bool>) -> Option<Seq<char>> {
    match list {
        Some(true) => Some("ol"@),
        Some(false) => Some("ul"@),
        None => None,
    }
}

fn flush_paragraph_html(out: &mut Vec<char>, paragraph: &mut Vec<Vec<char>>)
    ensures
        final(out)@ == old(out)@ + flush_html(views(old(paragraph)@)),
        final(paragraph)@ == Seq::<Vec<char>>::empty(),
{
    if paragraph.len() == 0 {
        assert(paragraph@ =~= Seq::<Vec<char>>::empty());
        return;
    }
    let sp = vec![' '];
    assert(sp@ =~= seq![' ']);
    let joined = crate::text::join_chars(paragraph, sp.as_slice());
    push_str(out, "<p>");
    push_inline(out, joined.as_slice());
    push_str(out, "</p>");
    *paragraph = Vec::new();
    assert(paragraph@ =~= Seq::<Vec<char>>::empty());
}

fn close_list(out: &mut Vec<char>, list: &mut Option<bool>)
    ensures
        final(out)@ == old(out)@ + close_html(list_view(*old(list))),
        *final(list) == None::<bool>,
{
    match *list {
        Some(true) => push_str(out, "</ol>"),
        Some(false) => push_str(out, "</ul>"),
        None => {},
    }
    proof {
        reveal_strlit("</ol>");
        reveal_strlit("</ul>");
        reveal_strlit("</");
        reveal_strlit(">");
        reveal_strlit("ol");
        reveal_strlit("ul");
    }
    assert(out@ =~= old(out)@ + close_html(list_view(*old(list))));
    *list = None;
}

fn ensure_list(out: &mut Vec<char>, list: &mut Option<bool>, ordered: bool)
    ensures
        final(out)@ == old(out)@ + open_list(list_view(*old(list)), list_view(Some(ordered))->0),
        *final(list) == Some(ordered),
{
    proof {
        reveal_strlit("ol");
        reveal_strlit("ul");
        reveal_strlit("<ol>");
        reveal_strlit("<ul>");
        reveal_strlit("<");
        reveal_strlit(">");
    }
    if *list == Some(ordered) {
        assert(out@ =~= old(out)@ + open_list(list_view(*old(list)), list_view(Some(ordered))->0));
        return;
    }
    let ghost was = *list;
    assert(was != Some(ordered));
    assert("ol"@[0] != "ul"@[0]);
    assert(list_view(was) != list_view(Some(ordered)));
    close_list(out, list);
    let ghost mid = out@;
    if ordered {
        push_str(out, "<ol>");
        assert("<ol>"@ =~= "<"@ + "ol"@ + ">"@);
    } else {
        push_str(out, "<ul>");
        assert("<ul>"@ =~= "<"@ + "ul"@ + ">"@);
    }
    assert(out@ =~= old(out)@ + open_list(list_view(*old(list)), list_view(Some(ordered))->0));
    *list = Some(ordered);
}

fn push_cells(out: &mut Vec<char>, cells: &Vec<Vec<char>>, header: bool)
    ensures
        final(out)@ == old(out)@ + (if header {
            cells_html(views(cells@), "<th>"@, "</th>"@)
        } else {
            cells_html(views(cells@), "<td>"@, "</td>"@)
        }),
{
    let ghost start = out@;
    let ghost open = if header {
        "<th>"@
    } else {
        "<td>"@
    };
    let ghost close = if header {
        "</th>"@
    } else {
        "</td>"@
    };
    let mut i: usize = 0;
    while i < cells.len()
        invariant
            i <= cells@.len(),
            open == (if header {
                "<th>"@
            } else {
                "<td>"@
            }),
            close == (if header {
                "</th>"@
            } else {
                "</td>"@
            }),
            out@ == start + cells_html(views(cells@).take(i as int), open, close),
        decreases cells@.len() - i,
    {
        assert(views(cells@).take(i + 1).drop_last() =~= views(cells@).take(i as int));
        if header {
            push_str(out, "<th>");
        } else {
            push_str(out, "<td>");
        }
        push_inline(out, cells[i].as_slice());
        if header {
            push_str(out, "</th>");
        } else {
            push_str(out, "</td>");
        }
        i = i + 1;
    }
    assert(views(cells@).take(i as int) =~= views(cells@));
}

pub open spec fn rows_views(rows: Seq<Vec<Vec<char>>>) -> Seq<Seq<Seq<char>>> {
    rows.map_values(|r: Vec<Vec<char>>| views(r@))
}

fn render_table(out: &mut Vec<char>, rows: &Vec<Vec<Vec<char>>>)
    ensures
        final(out)@ == old(out)@ + table_html(rows_views(rows@)),
{
    if rows.len() < 2 {
        return;
    }
    let ghost start = out@;
    push_str(out, "<div class=\"table-wrap\"><table><thead><tr>");
    push_cells(out, &rows[0], true);
    push_str(out, "</tr></thead><tbody>");
    let ghost mid = out@;
    let ghost body = rows_views(rows@).skip(2);
    let mut i: usize = 2;
    while i < rows.len()
        invariant
            2 <= i <= rows@.len(),
            body == rows_views(rows@).skip(2),
            out@ == mid + body_rows(body.take(i - 2)),
        decreases rows@.len() - i,
    {
        assert(body.take(i - 1).drop_last() =~= body.take(i - 2));
        assert(body.take(i - 1).last() == views(rows@[i as int]@));
        push_str(out, "<tr>");
        push_cells(out, &rows[i], false);
        push_str(out, "</tr>");
        i = i + 1;
    }
    assert(body.take(i - 2) =~= body);
    push_str(out, "</tbody></table></div>");
    assert(rows_views(rows@)[0] == views(rows@[0]@));
}

fn numbered_item(t: &[char]) -> (r: Option<Vec<char>>)
    ensures
        match numbered(t@) {
            Some(item) => r matches Some(x) && x@ == item,
            None => r is None,
        },
{
    let dot = vec!['.', ' '];
    assert(dot@ =~= seq!['.', ' ']);
    match crate::text::split_once_exec(t, dot.as_slice()) {
        Some((number, item)) => {
            let mut k: usize = 0;
            while k < number.len() && 48 <= (number[k] as u32) && (number[k] as u32) <= 57
                invariant
                    k <= number@.len(),
                    forall|j: int| 0 <= j < k ==> crate::text::is_ascii_digit(#[trigger] number@[j]),
                decreases number@.len() - k,
            {
                k = k + 1;
            }
            if number.len() > 0 && k == number.len() {
                Some(item)
            } else {
                assert(number@.len() > 0 ==> !crate::text::is_ascii_digit(number@[k as int]));
                None
            }
        },
        None => None,
    }
}

pub open spec fn state_view(paragraph: Seq<Vec<char>>, list: Option<bool>, in_code: bool, code: Seq<char>) -> HtmlState {
    HtmlState { paragraph: views(paragraph), list: list_view(list), in_code, code }
}

proof fn lemma_table_end(ls: Seq<Seq<char>>, i: int)
    requires
        0 <= i <= ls.len(),
    ensures
        i <= table_end(ls, i) <= ls.len(),
    decreases ls.len() - i,
{
    if i < ls.len() && pipe_row(trim(ls[i])) {
        lemma_table_end(ls, i + 1);
    }
}

fn is_pipe_row(t: &Vec<char>) -> (b: bool)
    ensures
        b == pipe_row(t@),
{
    t.len() > 0 && t[0] == '|' && t[t.len() - 1] == '|'
}

fn push_heading(out: &mut Vec<char>, level: char, title: &[char])
    ensures
        final(out)@ == old(out)@ + heading_html(seq![level], title@),
{
    push_str(out, "<h");
    out.push(level);
    push_str(out, ">");
    push_inline(out, title);
    push_str(out, "</h");
    out.push(level);
    push_str(out, ">");
}

/// The renderer's mutable state, as the spec sees it.
pub open spec fn step_post(
    ls: Seq<Seq<char>>,
    i: int,
    st: HtmlState,
    before: Seq<char>,
    html: Seq<char>,
    after: HtmlState,
    next: int,
) -> bool {
    let (piece, st2, j) = html_step(ls, i, st);
    &&& html == before + piece
    &&& after == st2
    &&& next == j
}

/// One fence line, code line or table.
fn step_block(
    ls: &Vec<Vec<char>>,
    index: usize,
    t: &Vec<char>,
    html: &mut Vec<char>,
    paragraph: &mut Vec<Vec<char>>,
    list: &mut Option<bool>,
    in_code: &mut bool,
    code: &mut Vec<char>,
) -> (next: usize)
    requires
        index < ls@.len(),
        t@ == trim(ls@[index as int]@),
        has_prefix(t@, seq!['`', '`', '`']) || *old(in_code) || pipe_row(t@),
    ensures
        step_post(
            views(ls@),
            index as int,
            state_view(old(paragraph)@, *old(list), *old(in_code), old(code)@),
            old(html)@,
            final(html)@,
            state_view(final(paragraph)@, *final(list), *final(in_code), final(code)@),
            next as int,
        ),
        index < next <= ls@.len(),
{
    let ghost lv = views(ls@);
    let ghost i0 = index as int;
    assert(lv[i0] == ls@[i0]@);
    assert(views(Seq::<Vec<char>>::empty()) =~= Seq::<Seq<char>>::empty());
    let n = ls.len();
    let ghost st = state_view(paragraph@, *list, *in_code, code@);
    let ghost before = html@;
    let raw = &ls[index];
    let fence = vec!['`', '`', '`'];
    assert(fence@ =~= seq!['`', '`', '`']);
    let next: usize = if crate::text::starts_with(t.as_slice(), fence.as_slice()) {
        flush_paragraph_html(html, paragraph);
        close_list(html, list);
        if *in_code {
            push_str(html, "<div class=\"code-block\"><button class=\"copy-button\" type=\"button\">Copy</button><pre><code>");
            let body = crate::text::trim_end_chars(code.as_slice());
            push_escaped(html, body.as_slice());
            push_str(html, "</code></pre></div>");
            *code = Vec::new();
        }
        *in_code = !*in_code;
        index + 1
    } else if *in_code {
        let ghost c0 = code@;
        push_chars(code, raw.as_slice());
        code.push('\n');
        assert(code@ =~= c0 + raw@ + seq!['\n']);
        index + 1
    } else {
        flush_paragraph_html(html, paragraph);
        close_list(html, list);
        proof {
            lemma_table_end(lv, i0 + 1);
        }
        let mut rows: Vec<Vec<Vec<char>>> = Vec::new();
        let mut j: usize = index;
        while j < ls.len()
            invariant
                0 <= i0 <= j <= ls@.len(),
                lv == views(ls@),
                lv.len() == ls@.len(),
                table_end(lv, i0) == table_end(lv, j as int),
                rows_views(rows@) == lv.subrange(i0, j as int).map_values(
                    |l: Seq<char>| crate::capability::table_cells_of(l),
                ),
            ensures
                table_end(lv, i0) == j as int,
                i0 <= j <= ls@.len(),
                rows_views(rows@) == lv.subrange(i0, j as int).map_values(
                    |l: Seq<char>| crate::capability::table_cells_of(l),
                ),
            decreases ls@.len() - j,
        {
            let line = crate::text::trim_chars(ls[j].as_slice());
            assert(lv[j as int] == ls@[j as int]@);
            if !is_pipe_row(&line) {
                break;
            }
            let ghost rv = rows_views(rows@);
            rows.push(crate::capability::table_cells(ls[j].as_slice()));
            assert(rows_views(rows@) =~= rv.push(crate::capability::table_cells_of(lv[j as int])));
            assert(lv.subrange(i0, j + 1) =~= lv.subrange(i0, j as int).push(lv[j as int]));
            j = j + 1;
        }
        render_table(html, &rows);
        j
    };
    proof {
        assert(views(Seq::<Vec<char>>::empty()) =~= Seq::<Seq<char>>::empty());
        let (piece, st2, j) = html_step(lv, i0, st);
        assert(html@ =~= before + piece);
    }
    next
}

/// One blank, heading, list or prose line outside a code fence.
fn step_line(
    ls: &Vec<Vec<char>>,
    index: usize,
    t: Vec<char>,
    html: &mut Vec<char>,
    paragraph: &mut Vec<Vec<char>>,
    list: &mut Option<bool>,
    in_code: &bool,
    code: &Vec<char>,
)
    requires
        index < ls@.len(),
        t@ == trim(ls@[index as int]@),
        !has_prefix(t@, seq!['`', '`', '`']),
        !*in_code,
        !pipe_row(t@),
    ensures
        step_post(
            views(ls@),
            index as int,
            state_view(old(paragraph)@, *old(list), *in_code, code@),
            old(html)@,
            final(html)@,
            state_view(final(paragraph)@, *final(list), *in_code, code@),
            index + 1,
        ),
{
    let ghost lv = views(ls@);
    let ghost i0 = index as int;
    assert(lv[i0] == ls@[i0]@);
    assert(views(Seq::<Vec<char>>::empty()) =~= Seq::<Seq<char>>::empty());
    let hash3 = vec!['#', '#', '#', ' '];
    assert(hash3@ =~= seq!['#', '#', '#', ' ']);
    let hash2 = vec!['#', '#', ' '];
    assert(hash2@ =~= seq!['#', '#', ' ']);
    let hash1 = vec!['#', ' '];
    assert(hash1@ =~= seq!['#', ' ']);
    let dash = vec!['-', ' '];
    assert(dash@ =~= seq!['-', ' ']);
    let ghost st = state_view(paragraph@, *list, *in_code, code@);
    let ghost before = html@;
    if t.len() == 0 {
        flush_paragraph_html(html, paragraph);
        close_list(html, list);
    } else if crate::text::starts_with(t.as_slice(), hash3.as_slice()) {
        flush_paragraph_html(html, paragraph);
        close_list(html, list);
        let title = crate::text::slice_chars(t.as_slice(), 4, t.len());
        assert(title@ =~= t@.skip(4));
        push_heading(html, '3', title.as_slice());
    } else if crate::text::starts_with(t.as_slice(), hash2.as_slice()) {
        flush_paragraph_html(html, paragraph);
        close_list(html, list);
        let title = crate::text::slice_chars(t.as_slice(), 3, t.len());
        assert(title@ =~= t@.skip(3));
        push_heading(html, '2', title.as_slice());
    } else if crate::text::starts_with(t.as_slice(), hash1.as_slice()) {
        flush_paragraph_html(html, paragraph);
        close_list(html, list);
        let title = crate::text::slice_chars(t.as_slice(), 2, t.len());
        assert(title@ =~= t@.skip(2));
        push_heading(html, '1', title.as_slice());
    } else if crate::text::starts_with(t.as_slice(), dash.as_slice()) {
        flush_paragraph_html(html, paragraph);
        ensure_list(html, list, false);
        let item = crate::text::slice_chars(t.as_slice(), 2, t.len());
        assert(item@ =~= t@.skip(2));
        push_str(html, "<li>");
        push_inline(html, item.as_slice());
        push_str(html, "</li>");
    } else {
        match numbered_item(t.as_slice()) {
            Some(item) => {
                flush_paragraph_html(html, paragraph);
                ensure_list(html, list, true);
                push_str(html, "<li>");
                push_inline(html, item.as_slice());
                push_str(html, "</li>");
            },
            None => {
                close_list(html, list);
                let ghost p = views(paragraph@);
                paragraph.push(t);
                assert(views(paragraph@) =~= p.push(trim(lv[i0])));
            },
        }
    }
    proof {
        assert(views(Seq::<Vec<char>>::empty()) =~= Seq::<Seq<char>>::empty());
        let (piece, st2, j) = html_step(lv, i0, st);
        assert(html@ =~= before + piece);
    }
}

proof fn lemma_html_from_step(ls: Seq<Seq<char>>, i: int, st: HtmlState, before: Seq<char>, html: Seq<char>, after: HtmlState, next: int)
    requires
        0 <= i < next <= ls.len(),
        step_post(ls, i, st, before, html, after, next),
    ensures
        before + html_from(ls, i, st) == html + html_from(ls, next, after),
{
    let (piece, st2, j) = html_step(ls, i, st);
    assert(html_from(ls, i, st) == piece + html_from(ls, j, st2));
}

/// Markdown rendered to HTML for the learning page.
pub fn markdown_to_html(source: &str) -> (out: String)
    ensures
        out@ == markdown_html(source@),
{
    let chars = chars_of(source);
    let ls = lines_of(chars.as_slice());
    let ghost lv = views(ls@);
    let mut html: Vec<char> = Vec::new();
    let mut paragraph: Vec<Vec<char>> = Vec::new();
    let mut list: Option<bool> = None;
    let mut in_code = false;
    let mut code: Vec<char> = Vec::new();
    let mut index: usize = 0;
    assert(views(paragraph@) =~= Seq::<Seq<char>>::empty());
    while index < ls.len()
        invariant
            index <= ls@.len(),
            lv == views(ls@),
            lv == lines(source@),
            markdown_html(source@) == html@ + html_from(lv, index as int, state_view(paragraph@, list, in_code, code@)),
        decreases ls@.len() - index,
    {
        let t = crate::text::trim_chars(ls[index].as_slice());
        let fence = vec!['`', '`', '`'];
        assert(fence@ =~= seq!['`', '`', '`']);
        let ghost before = html@;
        let ghost st = state_view(paragraph@, list, in_code, code@);
        let ghost i0 = index as int;
        if crate::text::starts_with(t.as_slice(), fence.as_slice()) || in_code || is_pipe_row(&t) {
            index = step_block(&ls, index, &t, &mut html, &mut paragraph, &mut list, &mut in_code, &mut code);
        } else {
            step_line(&ls, index, t, &mut html, &mut paragraph, &mut list, &in_code, &code);
            index = index + 1;
        }
        proof {
            lemma_html_from_step(lv, i0, st, before, html@, state_view(paragraph@, list, in_code, code@), index as int);
        }
    }
    flush_paragraph_html(&mut html, &mut paragraph);
    close_list(&mut html, &mut list);
    string_of(html.as_slice())
}

// ------------------------------------------------------------ summaries

/// Which view the learning page opens on.
#[derive(Debug, Clone, Copy, PartialEq, Eq)]
pub enum InitialView<'a> {
    Overview,
    Stage(&'a str),
}

/// A stage guide's `##` sections, heading and trimmed body, in order.
pub fn split_h2_sections(source: &str) -> (out: Vec<(String, String)>)
    ensures
        crate::capability::string_pair_views(out@) == crate::capability::sections_of(source@),
{
    crate::capability::markdown_sections(source)
}

/// The first section whose heading matches `name`, ignoring ASCII case.
pub open spec fn find_section(sections: Seq<(Seq<char>, Seq<char>)>, name: Seq<char>) -> Option<Seq<char>>
    decreases sections.len(),
{
    if sections.len() == 0 {
        None
    } else if crate::text::lower_all(sections[0].0) == crate::text::lower_all(name) {
        Some(sections[0].1)
    } else {
        find_section(sections.drop_first(), name)
    }
}

pub fn section_body(sections: &Vec<(String, String)>, name: &str) -> (r: Option<String>)
    ensures
        match find_section(crate::capability::string_pair_views(sections@), name@) {
            Some(b) => r matches Some(x) && x@ == b,
            None => r is None,
        },
{
    let ghost sv = crate::capability::string_pair_views(sections@);
    let key = crate::text::lowercase_chars(chars_of(name).as_slice());
    let mut i: usize = 0;
    assert(sv.skip(0) =~= sv);
    while i < sections.len()
        invariant
            i <= sections@.len(),
            sv == crate::capability::string_pair_views(sections@),
            key@ == crate::text::lower_all(name@),
            find_section(sv, name@) == find_section(sv.skip(i as int), name@),
        decreases sections@.len() - i,
    {
        assert(sv.skip(i as int).drop_first() =~= sv.skip(i + 1));
        assert(sv.skip(i as int)[0] == (sections@[i as int].0@, sections@[i as int].1@));
        let title = crate::text::lowercase_chars(chars_of(sections[i].0.as_str()).as_slice());
        if crate::text::chars_eq(title.as_slice(), key.as_slice()) {
            return Some(crate::text::copy_string(&sections[i].1));
        }
        i = i + 1;
    }
    None
}

/// `str::trim_start_matches("- ")`: every leading `- ` removed.
pub open spec fn strip_dashes(s: Seq<char>) -> Seq<char>
    decreases s.len(),
{
    if s.len() >= 2 && s[0] == '-' && s[1] == ' ' {
        strip_dashes(s.skip(2))
    } else {
        s
    }
}

/// A character that marks code or emphasis.
pub open spec fn is_marker(c: char) -> bool {
    c == '`' || c == '*'
}

pub open spec fn unmarked(s: Seq<char>) -> Seq<char> {
    s.filter(|c: char| !is_marker(c))
}

/// One line of a summary: trimmed, list dashes and markers removed.
pub open spec fn summary_line(line: Seq<char>) -> Seq<char> {
    unmarked(strip_dashes(trim(line)))
}

pub open spec fn summary_lines(ls: Seq<Seq<char>>) -> Seq<Seq<char>>
    decreases ls.len(),
{
    if ls.len() == 0 {
        Seq::empty()
    } else if has_prefix(crate::text::trim_start(ls.last()), seq!['#']) {
        summary_lines(ls.drop_last())
    } else {
        summary_lines(ls.drop_last()).push(summary_line(ls.last()))
    }
}

/// Markdown flattened to one line of words: heading lines dropped, list
/// dashes and code and emphasis markers removed, whitespace collapsed.
pub open spec fn flat_text(source: Seq<char>) -> Seq<char> {
    join(crate::fidelity::words(join(summary_lines(lines(source)), seq![' '])), seq![' '])
}

fn strip_dashes_exec(s: &[char]) -> (out: Vec<char>)
    ensures
        out@ == strip_dashes(s@),
{
    let mut i: usize = 0;
    assert(s@.skip(0) =~= s@);
    while i < s.len() && s.len() - i >= 2 && s[i] == '-' && s[i + 1] == ' '
        invariant
            i <= s@.len(),
            strip_dashes(s@) == strip_dashes(s@.skip(i as int)),
        decreases s@.len() - i,
    {
        assert(s@.skip(i as int).skip(2) =~= s@.skip(i + 2));
        i = i + 2;
    }
    let out = crate::text::slice_chars(s, i, s.len());
    assert(out@ =~= s@.skip(i as int));
    out
}

fn unmarked_exec(s: &[char]) -> (out: Vec<char>)
    ensures
        out@ == unmarked(s@),
{
    let mut out: Vec<char> = Vec::new();
    let mut i: usize = 0;
    while i < s.len()
        invariant
            i <= s@.len(),
            out@ == unmarked(s@.take(i as int)),
        decreases s@.len() - i,
    {
        let c = s[i];
        proof {
            assert(s@.take(i + 1).drop_last() =~= s@.take(i as int));
            reveal(Seq::filter);
        }
        if !(c == '`' || c == '*') {
            out.push(c);
        }
        i = i + 1;
    }
    assert(s@.take(i as int) =~= s@);
    out
}

pub fn plain_text(source: &str) -> (out: String)
    ensures
        out@ == flat_text(source@),
{
    let chars = chars_of(source);
    let ls = lines_of(chars.as_slice());
    let mut kept: Vec<Vec<char>> = Vec::new();
    let mut i: usize = 0;
    let hash = vec!['#'];
    assert(hash@ =~= seq!['#']);
    while i < ls.len()
        invariant
            i <= ls@.len(),
            hash@ == seq!['#'],
            views(ls@) == lines(source@),
            views(kept@) == summary_lines(views(ls@).take(i as int)),
        decreases ls@.len() - i,
    {
        assert(views(ls@).take(i + 1).drop_last() =~= views(ls@).take(i as int));
        let line = &ls[i];
        let (a, _) = crate::text::trim_bounds(line.as_slice());
        let rest = crate::text::slice_chars(line.as_slice(), a, line.len());
        if !crate::text::starts_with(rest.as_slice(), hash.as_slice()) {
            let t = crate::text::trim_chars(line.as_slice());
            let d = strip_dashes_exec(t.as_slice());
            let u = unmarked_exec(d.as_slice());
            let ghost k = views(kept@);
            kept.push(u);
            assert(views(kept@) =~= k.push(summary_line(line@)));
        }
        i = i + 1;
    }
    assert(views(ls@).take(i as int) =~= views(ls@));
    let sp = vec![' '];
    assert(sp@ =~= seq![' ']);
    let joined = crate::text::join_chars(&kept, sp.as_slice());
    let ws = crate::fidelity::split_words(joined.as_slice());
    let flat = crate::text::join_chars(&ws, sp.as_slice());
    string_of(flat.as_slice())
}

/// The first paragraph with words in it, flattened to one line.
pub open spec fn first_flat_paragraph(source: Seq<char>) -> Seq<char> {
    match first_nonblank(crate::text::split_on(source, "\n\n"@)) {
        Some(p) => flat_text(p),
        None => Seq::empty(),
    }
}

pub open spec fn first_nonblank(ps: Seq<Seq<char>>) -> Option<Seq<char>>
    decreases ps.len(),
{
    if ps.len() == 0 {
        None
    } else if trim(ps[0]).len() > 0 {
        Some(ps[0])
    } else {
        first_nonblank(ps.drop_first())
    }
}

pub fn first_paragraph(source: &str) -> (out: String)
    ensures
        out@ == first_flat_paragraph(source@),
{
    let chars = chars_of(source);
    let sep = vec!['\n', '\n'];
    assert(sep@ =~= "\n\n"@) by {
        reveal_strlit("\n\n");
    }
    let ps = crate::text::split_on_exec(chars.as_slice(), sep.as_slice());
    let mut i: usize = 0;
    assert(views(ps@).skip(0) =~= views(ps@));
    while i < ps.len()
        invariant
            i <= ps@.len(),
            views(ps@) == crate::text::split_on(source@, "\n\n"@),
            first_nonblank(views(ps@)) == first_nonblank(views(ps@).skip(i as int)),
        decreases ps@.len() - i,
    {
        assert(views(ps@).skip(i as int).drop_first() =~= views(ps@).skip(i + 1));
        assert(views(ps@).skip(i as int)[0] == ps@[i as int]@);
        let t = crate::text::trim_chars(ps[i].as_slice());
        if t.len() > 0 {
            let p = string_of(ps[i].as_slice());
            return plain_text(p.as_str());
        }
        i = i + 1;
    }
    String::new()
}

/// A stage's one-line summary: the first paragraph of its `Goal` section,
/// or a stock line where it has none.
pub open spec fn summary_of(source: Seq<char>) -> Seq<char> {
    match find_section(crate::capability::sections_of(source), "Goal"@) {
        Some(goal) => first_flat_paragraph(goal),
        None => first_flat_paragraph("Learn the next project behavior."@),
    }
}

pub fn stage_summary(source: &str) -> (out: String)
    ensures
        out@ == summary_of(source@),
{
    let sections = split_h2_sections(source);
    match section_body(&sections, "Goal") {
        Some(goal) => first_paragraph(goal.as_str()),
        None => first_paragraph("Learn the next project behavior."),
    }
}

/// The first `# ` heading of a guide, trimmed.
pub open spec fn first_title(ls: Seq<Seq<char>>) -> Option<Seq<char>>
    decreases ls.len(),
{
    if ls.len() == 0 {
        None
    } else if has_prefix(ls[0], seq!['#', ' ']) {
        Some(trim(ls[0].skip(2)))
    } else {
        first_title(ls.drop_first())
    }
}

/// A stage's display title: what follows the em dash of its first `# `
/// heading, or the whole heading, or `fallback` where there is none.
pub open spec fn display_title(source: Seq<char>, fallback: Seq<char>) -> Seq<char> {
    match first_title(lines(source)) {
        None => fallback,
        Some(heading) => match split_once(heading, seq!['—']) {
            Some((_, title)) => if trim(title).len() > 0 {
                trim(title)
            } else {
                heading
            },
            None => heading,
        },
    }
}

pub fn stage_display_title(source: &str, fallback: &str) -> (out: String)
    ensures
        out@ == display_title(source@, fallback@),
{
    let chars = chars_of(source);
    let ls = lines_of(chars.as_slice());
    let h1 = vec!['#', ' '];
    assert(h1@ =~= seq!['#', ' ']);
    let mut i: usize = 0;
    let ghost lv = views(ls@);
    assert(lv.skip(0) =~= lv);
    while i < ls.len()
        invariant
            i <= ls@.len(),
            lv == views(ls@),
            lv == lines(source@),
            h1@ == seq!['#', ' '],
            first_title(lv) == first_title(lv.skip(i as int)),
        decreases ls@.len() - i,
    {
        assert(lv.skip(i as int).drop_first() =~= lv.skip(i + 1));
        assert(lv.skip(i as int)[0] == ls@[i as int]@);
        if crate::text::starts_with(ls[i].as_slice(), h1.as_slice()) {
            let rest = crate::text::slice_chars(ls[i].as_slice(), 2, ls[i].len());
            assert(rest@ =~= ls@[i as int]@.skip(2));
            let heading = crate::text::trim_chars(rest.as_slice());
            let dash = vec!['—'];
            assert(dash@ =~= seq!['—']);
            match crate::text::split_once_exec(heading.as_slice(), dash.as_slice()) {
                Some((_, title)) => {
                    let t = crate::text::trim_chars(title.as_slice());
                    if t.len() > 0 {
                        return string_of(t.as_slice());
                    }
                    return string_of(heading.as_slice());
                },
                None => {
                    return string_of(heading.as_slice());
                },
            }
        }
        i = i + 1;
    }
    String::from_str(fallback)
}

/// How the page names a stage's status.
pub open spec fn status_text(status: Seq<char>, complete: Seq<char>, current: Seq<char>, ahead: Seq<char>) -> Seq<char> {
    if status == "complete"@ {
        complete
    } else if status == "current"@ {
        current
    } else {
        ahead
    }
}

pub fn status_label(status: &str) -> (out: &'static str)
    ensures
        out@ == status_text(status@, "Done"@, "In progress"@, "Ahead"@),
{
    let s = chars_of(status);
    if crate::text::chars_eq_str(s.as_slice(), "complete") {
        "Done"
    } else if crate::text::chars_eq_str(s.as_slice(), "current") {
        "In progress"
    } else {
        "Ahead"
    }
}

pub fn status_glyph(status: &str) -> (out: &'static str)
    ensures
        out@ == status_text(status@, "▪"@, "◆"@, "▫"@),
{
    let s = chars_of(status);
    if crate::text::chars_eq_str(s.as_slice(), "complete") {
        "▪"
    } else if crate::text::chars_eq_str(s.as_slice(), "current") {
        "◆"
    } else {
        "▫"
    }
}

pub fn roadmap_state(status: &str) -> (out: &'static str)
    ensures
        out@ == status_text(status@, "done"@, "you are here"@, "ahead"@),
{
    let s = chars_of(status);
    if crate::text::chars_eq_str(s.as_slice(), "complete") {
        "done"
    } else if crate::text::chars_eq_str(s.as_slice(), "current") {
        "you are here"
    } else {
        "ahead"
    }
}

} // verus!
