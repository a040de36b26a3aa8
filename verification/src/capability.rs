//! Stage content as the workbench shows it: inline markdown parsed into spans,
//! markdown blocks, and the help ladder.
use vstd::prelude::*;

use crate::text::{
    chars_of, has_prefix, index_of, join, join_chars, lemma_index_of, lemma_index_of_is, split,
    split_exec, split_once, split_once_exec, slice_chars, starts_with, string_of, strip_leading,
    strip_leading_exec, strip_trailing, strip_trailing_exec, trim, trim_bounds, trim_chars, views,
};

verus! {

/// One inline run inside a block.
#[derive(Debug, PartialEq, Eq)]
pub enum InlineSpan {
    /// Ordinary prose.
    Text { text: String },
    /// A code span; its content is verbatim.
    Code { text: String },
    /// `**like this**`.
    Strong { spans: Vec<InlineSpan> },
    /// `*like this*`.
    Emphasis { spans: Vec<InlineSpan> },
}

/// What an inline span means: its text, or the spans it wraps.
pub enum Span {
    Text(Seq<char>),
    Code(Seq<char>),
    Strong(Seq<Span>),
    Emphasis(Seq<Span>),
}

pub open spec fn span_view(s: InlineSpan) -> Span
    decreases s, 1nat,
{
    match s {
        InlineSpan::Text { text } => Span::Text(text@),
        InlineSpan::Code { text } => Span::Code(text@),
        InlineSpan::Strong { spans } => Span::Strong(spans_view(spans@)),
        InlineSpan::Emphasis { spans } => Span::Emphasis(spans_view(spans@)),
    }
}

pub open spec fn spans_view(s: Seq<InlineSpan>) -> Seq<Span>
    decreases s, 0nat,
{
    if s.len() == 0 {
        Seq::empty()
    } else {
        spans_view(s.drop_last()).push(span_view(s.last()))
    }
}

pub proof fn lemma_spans_view(s: Seq<InlineSpan>)
    ensures
        spans_view(s).len() == s.len(),
        forall|i: int| 0 <= i < s.len() ==> #[trigger] spans_view(s)[i] == span_view(s[i]),
    decreases s.len(),
{
    if s.len() > 0 {
        lemma_spans_view(s.drop_last());
    }
}

pub proof fn lemma_spans_view_push(s: Seq<InlineSpan>, x: InlineSpan)
    ensures
        spans_view(s.push(x)) == spans_view(s).push(span_view(x)),
{
    assert(s.push(x).drop_last() =~= s);
}

pub proof fn lemma_spans_view_empty()
    ensures
        spans_view(Seq::<InlineSpan>::empty()) == Seq::<Span>::empty(),
{
}

/// The characters a backslash may escape.
pub open spec fn is_punct(c: char) -> bool {
    c == '\\' || c == '`' || c == '*' || c == '_' || c == '[' || c == ']' || c == '(' || c
        == ')' || c == '#' || c == '+' || c == '-' || c == '.' || c == '!' || c == '|'
}

pub fn is_markdown_punctuation(c: char) -> (b: bool)
    ensures
        b == is_punct(c),
{
    c == '\\' || c == '`' || c == '*' || c == '_' || c == '[' || c == ']' || c == '(' || c
        == ')' || c == '#' || c == '+' || c == '-' || c == '.' || c == '!' || c == '|'
}

/// The first `c` at or after `from`.
pub open spec fn char_pos(s: Seq<char>, from: int, c: char) -> Option<int> {
    let k = index_of(s.skip(from), c);
    if 0 <= from && from + k < s.len() {
        Some(from + k)
    } else {
        None
    }
}

pub proof fn lemma_char_pos(s: Seq<char>, from: int, c: char)
    requires
        0 <= from <= s.len(),
    ensures
        match char_pos(s, from, c) {
            Some(k) => from <= k < s.len() && s[k] == c && forall|j: int|
                from <= j < k ==> s[j] != c,
            None => forall|j: int| from <= j < s.len() ==> s[j] != c,
        },
{
    lemma_index_of(s.skip(from), c);
    let k = index_of(s.skip(from), c);
    assert forall|j: int| from <= j < from + k implies s[j] != c by {
        assert(s[j] == s.skip(from)[j - from]);
    }
    if from + k < s.len() {
        assert(s[from + k] == s.skip(from)[k]);
    }
}

/// `find_from`: the first `wanted` at or after `start`.
pub fn find_char(s: &[char], start: usize, wanted: char) -> (r: Option<usize>)
    requires
        start <= s@.len(),
    ensures
        r == (match char_pos(s@, start as int, wanted) {
            Some(k) => Some(k as usize),
            None => None::<usize>,
        }),
{
    let mut k = start;
    while k < s.len() && s[k] != wanted
        invariant
            start <= k <= s@.len(),
            forall|j: int| start <= j < k ==> s@[j] != wanted,
        decreases s@.len() - k,
    {
        k = k + 1;
    }
    proof {
        let rest = s@.skip(start as int);
        assert forall|j: int| 0 <= j < k - start implies rest[j] != wanted by {
            assert(rest[j] == s@[start + j]);
        }
        if k < s@.len() {
            assert(rest[k - start] == s@[k as int]);
        }
        lemma_index_of_is(rest, wanted, k - start);
    }
    if k < s.len() {
        Some(k)
    } else {
        None
    }
}

/// A closing emphasis marker at `k`: `**` for strong; for emphasis a `*` that
/// is not the first star of a `**`.
pub open spec fn marker_at(s: Seq<char>, k: int, two: bool) -> bool {
    if two {
        0 <= k && k + 2 <= s.len() && s[k] == '*' && s[k + 1] == '*'
    } else {
        0 <= k && k + 1 <= s.len() && s[k] == '*' && (k + 1 >= s.len() || s[k + 1] != '*')
    }
}

pub open spec fn marker_len(two: bool) -> int {
    if two {
        2
    } else {
        1
    }
}

/// `find_marker`: the first closing marker at or after `k`.
pub open spec fn marker_pos(s: Seq<char>, k: int, two: bool) -> Option<int>
    decreases s.len() - k,
{
    if k < 0 || k + marker_len(two) > s.len() {
        None
    } else if marker_at(s, k, two) {
        Some(k)
    } else {
        marker_pos(s, k + 1, two)
    }
}

pub proof fn lemma_marker_pos(s: Seq<char>, k: int, two: bool)
    requires
        0 <= k,
    ensures
        marker_pos(s, k, two) matches Some(e) ==> k <= e && e + marker_len(two) <= s.len() && marker_at(s, e, two),
    decreases s.len() - k,
{
    if k + marker_len(two) <= s.len() && !marker_at(s, k, two) {
        lemma_marker_pos(s, k + 1, two);
    }
}

pub fn find_marker(s: &[char], start: usize, two: bool) -> (r: Option<usize>)
    ensures
        r == (match marker_pos(s@, start as int, two) {
            Some(k) => Some(k as usize),
            None => None::<usize>,
        }),
{
    let m: usize = if two {
        2
    } else {
        1
    };
    let mut k = start;
    while k <= s.len() && m <= s.len() - k
        invariant
            start <= k,
            m == marker_len(two),
            marker_pos(s@, start as int, two) == marker_pos(s@, k as int, two),
        decreases s@.len() - k,
    {
        let hit = if two {
            s[k] == '*' && s[k + 1] == '*'
        } else {
            s[k] == '*' && (k + 1 >= s.len() || s[k + 1] != '*')
        };
        if hit {
            return Some(k);
        }
        k = k + 1;
    }
    None
}

/// Prose collected so far, as a span when there is any.
pub open spec fn flush(literal: Seq<char>) -> Seq<Span> {
    if literal.len() > 0 {
        seq![Span::Text(literal)]
    } else {
        Seq::empty()
    }
}

/// A wrapped run: strong for `**`, emphasis for `*`.
pub open spec fn wrap(two: bool, spans: Seq<Span>) -> Span {
    if two {
        Span::Strong(spans)
    } else {
        Span::Emphasis(spans)
    }
}

/// `s[i..]` parsed as inline markdown, with `literal` the prose already read.
///
/// A backslash before punctuation makes it literal. A backtick opens a code
/// span when another backtick closes it, and its content is verbatim. A `*`
/// or `**` opens emphasis when a matching closer follows and the run between
/// is not blank; the run is parsed again. Any other character is prose.
pub open spec fn inline(s: Seq<char>, i: int, literal: Seq<char>) -> Seq<Span>
    decreases s.len() - i,
{
    if i < 0 || i >= s.len() {
        flush(literal)
    } else if s[i] == '\\' && i + 1 < s.len() && is_punct(s[i + 1]) {
        inline(s, i + 2, literal.push(s[i + 1]))
    } else if s[i] == '`' {
        let n = run_len(s, i);
        proof {
            lemma_leading(s.skip(i), '`');
            assert(s.skip(i)[0] == s[i]);
        }
        match closing_run(s, i + n, n) {
            Some(e) => {
                proof {
                    lemma_closing_run(s, i + n, n);
                }
                flush(literal) + seq![Span::Code(code_content(s.subrange(i + n, e)))] + inline(
                    s,
                    e + n,
                    Seq::empty(),
                )
            },
            None => inline(s, i + n, literal + s.subrange(i, i + n)),
        }
    } else if s[i] == '*' && ({
        let two = i + 1 < s.len() && s[i + 1] == '*';
        let m = marker_len(two);
        &&& marker_pos(s, i + m, two) is Some
        &&& trim(s.subrange(i + m, marker_pos(s, i + m, two)->0)).len() > 0
    }) {
        let two = i + 1 < s.len() && s[i + 1] == '*';
        let m = marker_len(two);
        let end = marker_pos(s, i + m, two)->0;
        proof {
            lemma_marker_pos(s, i + m, two);
        }
        let inner = s.subrange(i + m, end);
        flush(literal) + seq![wrap(two, inline(inner, 0, Seq::empty()))] + inline(
            s,
            end + m,
            Seq::empty(),
        )
    } else {
        inline(s, i + 1, literal.push(s[i]))
    }
}

/// The length of the run of backticks that starts at `i`.
pub open spec fn run_len(s: Seq<char>, i: int) -> int {
    leading(s.skip(i), '`')
}

/// A run of exactly `n` backticks starts at `e`: the character before it is
/// no backtick, and neither is the one after.
pub open spec fn run_of(s: Seq<char>, e: int, n: int) -> bool {
    1 <= e < s.len() && s[e - 1] != '`' && run_len(s, e) == n
}

/// The first run of exactly `n` backticks at or after `k`: what closes a
/// code span opened by `n` backticks.
pub open spec fn closing_run(s: Seq<char>, k: int, n: int) -> Option<int>
    decreases s.len() - k,
{
    if k < 0 || k >= s.len() {
        None
    } else if run_of(s, k, n) {
        Some(k)
    } else {
        closing_run(s, k + 1, n)
    }
}

pub proof fn lemma_closing_run(s: Seq<char>, k: int, n: int)
    requires
        n >= 1,
        k >= 0,
    ensures
        closing_run(s, k, n) matches Some(e) ==> k <= e && e + n <= s.len() && run_of(s, e, n)
            && forall|j: int| k <= j < e ==> !run_of(s, j, n),
        closing_run(s, k, n) is None ==> forall|j: int| k <= j < s.len() ==> !run_of(s, j, n),
    decreases s.len() - k,
{
    if 0 <= k < s.len() {
        if run_of(s, k, n) {
            lemma_leading(s.skip(k), '`');
        } else {
            lemma_closing_run(s, k + 1, n);
        }
    }
}

fn backtick_run(s: &[char], i: usize) -> (n: usize)
    requires
        i <= s@.len(),
    ensures
        n == run_len(s@, i as int),
        i + n <= s@.len(),
{
    let mut j: usize = i;
    while j < s.len() && s[j] == '`'
        invariant
            i <= j <= s@.len(),
            forall|k: int| i <= k < j ==> s@[k] == '`',
        decreases s@.len() - j,
    {
        j = j + 1;
    }
    proof {
        let t = s@.skip(i as int);
        assert forall|k: int| 0 <= k < j - i implies t[k] == '`' by {
            assert(t[k] == s@[i + k]);
        }
        if j < s@.len() {
            assert(t[j - i] == s@[j as int]);
        }
        lemma_leading_is(t, '`', j - i);
    }
    j - i
}

fn find_closing(s: &[char], k: usize, n: usize) -> (r: Option<usize>)
    requires
        1 <= k <= s@.len(),
        n >= 1,
    ensures
        match closing_run(s@, k as int, n as int) {
            Some(e) => r == Some(e as usize),
            None => r is None,
        },
{
    let mut j: usize = k;
    assert(closing_run(s@, k as int, n as int) == closing_run(s@, j as int, n as int));
    while j < s.len()
        invariant
            1 <= k <= j <= s@.len(),
            n >= 1,
            closing_run(s@, k as int, n as int) == closing_run(s@, j as int, n as int),
        decreases s@.len() - j,
    {
        if s[j] == '`' && s[j - 1] != '`' {
            let m = backtick_run(s, j);
            if m == n {
                assert(run_of(s@, j as int, n as int));
                return Some(j);
            }
        }
        assert(!run_of(s@, j as int, n as int)) by {
            if s@[j as int] != '`' {
                lemma_leading(s@.skip(j as int), '`');
                assert(s@.skip(j as int)[0] == s@[j as int]);
            }
        }
        j = j + 1;
    }
    None
}

fn content_of(c: &[char]) -> (out: Vec<char>)
    ensures
        out@ == code_content(c@),
{
    let n = c.len();
    if n >= 2 && c[0] == ' ' && c[n - 1] == ' ' {
        let mut j: usize = 0;
        while j < n && c[j] == ' '
            invariant
                j <= n == c@.len(),
                forall|k: int| 0 <= k < j ==> c@[k] == ' ',
            decreases n - j,
        {
            j = j + 1;
        }
        if j < n {
            assert(c@[j as int] != ' ');
            return slice_chars(c, 1, n - 1);
        }
        assert(!exists|k: int| 0 <= k < c@.len() && c@[k] != ' ');
    }
    slice_chars(c, 0, n)
}

/// A code span's content: one space comes off each end when both ends are
/// spaces and something other than a space lies between.
pub open spec fn code_content(c: Seq<char>) -> Seq<char> {
    if c.len() >= 2 && c[0] == ' ' && c.last() == ' ' && exists|j: int| 0 <= j < c.len() && c[j] != ' ' {
        c.subrange(1, c.len() - 1)
    } else {
        c
    }
}

/// `source` parsed as one line of inline markdown.
pub open spec fn parse_inline_spec(source: Seq<char>) -> Seq<Span> {
    inline(source, 0, Seq::empty())
}

fn flush_literal(literal: &mut Vec<char>, spans: &mut Vec<InlineSpan>)
    ensures
        final(literal)@ == Seq::<char>::empty(),
        spans_view(final(spans)@) == spans_view(old(spans)@) + flush(old(literal)@),
{
    if literal.len() > 0 {
        let text = string_of(literal.as_slice());
        let span = InlineSpan::Text { text };
        proof {
            lemma_spans_view_push(spans@, span);
        }
        spans.push(span);
        *literal = Vec::new();
    } else {
        assert(spans_view(spans@) + flush(literal@) =~= spans_view(spans@));
    }
}

/// Inline markdown parsed into spans.
pub fn parse_inline_chars(s: &[char]) -> (out: Vec<InlineSpan>)
    ensures
        spans_view(out@) == parse_inline_spec(s@),
    decreases s@.len(),
{
    let n = s.len();
    let mut spans: Vec<InlineSpan> = Vec::new();
    let mut literal: Vec<char> = Vec::new();
    let mut i: usize = 0;
    assert(spans_view(spans@) + inline(s@, 0, literal@) =~= inline(s@, 0, Seq::empty()));
    while i < n
        invariant
            i <= n == s@.len(),
            parse_inline_spec(s@) == spans_view(spans@) + inline(s@, i as int, literal@),
        decreases n - i,
    {
        let c = s[i];
        if c == '\\' && i + 1 < n && is_markdown_punctuation(s[i + 1]) {
            literal.push(s[i + 1]);
            i = i + 2;
            continue;
        }
        if c == '`' {
            let run = backtick_run(s, i);
            proof {
                lemma_leading(s@.skip(i as int), '`');
                assert(s@.skip(i as int)[0] == s@[i as int]);
            }
            match find_closing(s, i + run, run) {
                Some(end) => {
                    proof {
                        lemma_closing_run(s@, (i + run) as int, run as int);
                    }
                    let ghost before = spans_view(spans@);
                    let ghost lit = literal@;
                    flush_literal(&mut literal, &mut spans);
                    let raw = slice_chars(s, i + run, end);
                    let code = content_of(raw.as_slice());
                    let span = InlineSpan::Code { text: string_of(code.as_slice()) };
                    proof {
                        lemma_spans_view_push(spans@, span);
                    }
                    spans.push(span);
                    proof {
                        assert(spans_view(spans@) + inline(s@, end + run, literal@) =~= before + (
                        flush(lit) + seq![Span::Code(code_content(s@.subrange((i + run) as int, end as int)))]
                            + inline(s@, end + run, Seq::empty())));
                    }
                    i = end + run;
                    continue;
                },
                None => {
                    let ghost lit = literal@;
                    let mut k: usize = i;
                    while k < i + run
                        invariant
                            i <= k <= i + run <= n,
                            n == s@.len(),
                            literal@ == lit + s@.subrange(i as int, k as int),
                        decreases i + run - k,
                    {
                        literal.push(s[k]);
                        assert(s@.subrange(i as int, k + 1) =~= s@.subrange(i as int, k as int).push(s@[k as int]));
                        k = k + 1;
                    }
                    i = i + run;
                    continue;
                },
            }
        }
        if c == '*' {
            let two = i + 1 < n && s[i + 1] == '*';
            let m: usize = if two {
                2
            } else {
                1
            };
            if let Some(end) = find_marker(s, i + m, two) {
                proof {
                    lemma_marker_pos(s@, i + m, two);
                }
                let inner = slice_chars(s, i + m, end);
                let (a, b) = trim_bounds(inner.as_slice());
                if a < b {
                    let ghost before = spans_view(spans@);
                    let ghost lit = literal@;
                    flush_literal(&mut literal, &mut spans);
                    let nested = parse_inline_chars(inner.as_slice());
                    let span = if two {
                        InlineSpan::Strong { spans: nested }
                    } else {
                        InlineSpan::Emphasis { spans: nested }
                    };
                    proof {
                        lemma_spans_view_push(spans@, span);
                        assert(span_view(span) == wrap(two, inline(inner@, 0, Seq::empty())));
                    }
                    spans.push(span);
                    proof {
                        assert(spans_view(spans@) + inline(s@, end + m, literal@) =~= before + (
                        flush(lit) + seq![wrap(two, inline(inner@, 0, Seq::empty()))] + inline(
                            s@,
                            end + m,
                            Seq::empty(),
                        )));
                    }
                    i = end + m;
                    continue;
                }
            }
        }
        literal.push(c);
        i = i + 1;
    }
    let ghost before = spans_view(spans@);
    let ghost lit = literal@;
    flush_literal(&mut literal, &mut spans);
    assert(spans_view(spans@) =~= before + inline(s@, i as int, lit));
    spans
}

/// `source` parsed as one line of inline markdown.
pub fn parse_inline(source: &str) -> (out: Vec<InlineSpan>)
    ensures
        spans_view(out@) == parse_inline_spec(source@),
{
    let s = chars_of(source);
    parse_inline_chars(s.as_slice())
}

/// The words of a span: code keeps its content, emphasis its words, and no
/// marker survives.
pub open spec fn plain_span(s: Span) -> Seq<char>
    decreases s, 1nat,
{
    match s {
        Span::Text(t) => t,
        Span::Code(t) => t,
        Span::Strong(inner) => plain(inner),
        Span::Emphasis(inner) => plain(inner),
    }
}

/// The words of a run of spans, in order.
pub open spec fn plain(spans: Seq<Span>) -> Seq<char>
    decreases spans, 0nat,
{
    if spans.len() == 0 {
        Seq::empty()
    } else {
        plain(spans.drop_last()) + plain_span(spans.last())
    }
}

fn push_plain(out: &mut Vec<char>, spans: &Vec<InlineSpan>)
    ensures
        final(out)@ == old(out)@ + plain(spans_view(spans@)),
    decreases spans@,
{
    let ghost start = out@;
    proof {
        lemma_spans_view(spans@);
    }
    let mut i: usize = 0;
    while i < spans.len()
        invariant
            i <= spans@.len(),
            spans_view(spans@).len() == spans@.len(),
            forall|k: int| 0 <= k < spans@.len() ==> #[trigger] spans_view(spans@)[k] == span_view(spans@[k]),
            out@ == start + plain(spans_view(spans@).take(i as int)),
        decreases spans@.len() - i,
    {
        let ghost before = out@;
        match &spans[i] {
            InlineSpan::Text { text } => {
                let t = chars_of(text.as_str());
                push_chars_of(out, &t);
            },
            InlineSpan::Code { text } => {
                let t = chars_of(text.as_str());
                push_chars_of(out, &t);
            },
            InlineSpan::Strong { spans: inner } => {
                assert(decreases_to!(spans@ => spans@[i as int]));
                push_plain(out, inner);
            },
            InlineSpan::Emphasis { spans: inner } => {
                assert(decreases_to!(spans@ => spans@[i as int]));
                push_plain(out, inner);
            },
        }
        proof {
            let v = spans_view(spans@);
            assert(v.take(i + 1).drop_last() =~= v.take(i as int));
            assert(out@ == before + plain_span(v[i as int]));
        }
        i = i + 1;
    }
    assert(spans_view(spans@).take(i as int) =~= spans_view(spans@));
}

fn push_chars_of(out: &mut Vec<char>, t: &Vec<char>)
    ensures
        final(out)@ == old(out)@ + t@,
{
    crate::text::push_chars(out, t.as_slice());
}

/// Inline text with nothing but its words.
pub fn plain_text(spans: &Vec<InlineSpan>) -> (out: String)
    ensures
        out@ == plain(spans_view(spans@)),
{
    let mut chars: Vec<char> = Vec::new();
    push_plain(&mut chars, spans);
    assert(chars@ =~= plain(spans_view(spans@)));
    string_of(chars.as_slice())
}

/// A markdown line reduced to the words it contains.
pub open spec fn plain_line_spec(text: Seq<char>) -> Seq<char> {
    trim(plain(parse_inline_spec(text)))
}

pub fn plain_line(text: &str) -> (out: String)
    ensures
        out@ == plain_line_spec(text@),
{
    let spans = parse_inline(text);
    let mut chars: Vec<char> = Vec::new();
    push_plain(&mut chars, &spans);
    let trimmed = crate::text::trim_chars(chars.as_slice());
    string_of(trimmed.as_slice())
}

/// A character `parse_inline` would read as markup.
pub open spec fn needs_escape(c: char) -> bool {
    c == '\\' || c == '`' || c == '*'
}

pub open spec fn escape_char(c: char) -> Seq<char> {
    if needs_escape(c) {
        seq!['\\', c]
    } else {
        seq![c]
    }
}

/// Prose with a backslash before each of the three characters inline parsing
/// treats as markup, and nothing else changed.
pub open spec fn escape(t: Seq<char>) -> Seq<char>
    decreases t.len(),
{
    if t.len() == 0 {
        Seq::empty()
    } else {
        escape(t.drop_last()) + escape_char(t.last())
    }
}

pub proof fn lemma_escape_append(a: Seq<char>, b: Seq<char>)
    ensures
        escape(a + b) == escape(a) + escape(b),
    decreases b.len(),
{
    if b.len() == 0 {
        assert(a + b =~= a);
        assert(escape(a) + escape(b) =~= escape(a));
    } else {
        lemma_escape_append(a, b.drop_last());
        assert((a + b).drop_last() =~= a + b.drop_last());
        assert((a + b).last() == b.last());
    }
}

pub proof fn lemma_escape_front(t: Seq<char>)
    requires
        t.len() > 0,
    ensures
        escape(t) == escape_char(t[0]) + escape(t.drop_first()),
{
    assert(t =~= seq![t[0]] + t.drop_first());
    lemma_escape_append(seq![t[0]], t.drop_first());
    let one = seq![t[0]];
    assert(one.drop_last() =~= Seq::<char>::empty());
    assert(one.last() == t[0]);
    assert(escape(one.drop_last()) == Seq::<char>::empty());
    assert(escape(one) =~= escape_char(t[0]));
}

fn escape_markdown(text: &[char], out: &mut Vec<char>)
    ensures
        final(out)@ == old(out)@ + escape(text@),
{
    let ghost start = out@;
    let mut i: usize = 0;
    while i < text.len()
        invariant
            i <= text@.len(),
            out@ == start + escape(text@.take(i as int)),
        decreases text@.len() - i,
    {
        let c = text[i];
        if c == '\\' || c == '`' || c == '*' {
            out.push('\\');
        }
        out.push(c);
        proof {
            assert(text@.take(i + 1).drop_last() =~= text@.take(i as int));
        }
        i = i + 1;
    }
    assert(text@.take(i as int) =~= text@);
}

/// The longest run of backticks in `t`, with the length of the run that
/// ends it.
pub open spec fn backtick_runs(t: Seq<char>) -> (int, int)
    decreases t.len(),
{
    if t.len() == 0 {
        (0, 0)
    } else {
        let (longest, run) = backtick_runs(t.drop_last());
        if t.last() == '`' {
            (if run + 1 > longest {
                run + 1
            } else {
                longest
            }, run + 1)
        } else {
            (longest, 0)
        }
    }
}

pub proof fn lemma_backtick_runs_bounded(t: Seq<char>)
    ensures
        0 <= backtick_runs(t).1 <= backtick_runs(t).0 <= t.len(),
    decreases t.len(),
{
    if t.len() > 0 {
        lemma_backtick_runs_bounded(t.drop_last());
    }
}

pub fn longest_backtick_run(text: &[char]) -> (n: usize)
    ensures
        n == backtick_runs(text@).0,
{
    let mut longest: usize = 0;
    let mut run: usize = 0;
    let mut i: usize = 0;
    while i < text.len()
        invariant
            i <= text@.len(),
            (longest as int, run as int) == backtick_runs(text@.take(i as int)),
            run <= longest <= i,
        decreases text@.len() - i,
    {
        proof {
            assert(text@.take(i + 1).drop_last() =~= text@.take(i as int));
        }
        if text[i] == '`' {
            run = run + 1;
            if run > longest {
                longest = run;
            }
        } else {
            run = 0;
        }
        i = i + 1;
    }
    assert(text@.take(i as int) =~= text@);
    longest
}

/// `n` backticks.
pub open spec fn backticks(n: int) -> Seq<char> {
    Seq::new(n as nat, |i: int| '`')
}

/// The padding of a code span whose content starts or ends with a backtick.
pub open spec fn code_padding(t: Seq<char>) -> Seq<char> {
    if t.len() > 0 && (t[0] == '`' || t.last() == '`') {
        seq![' ']
    } else {
        Seq::empty()
    }
}

/// A span rendered back to the markdown it was parsed from.
pub open spec fn md_span(s: Span) -> Seq<char>
    decreases s, 1nat,
{
    match s {
        Span::Text(t) => escape(t),
        Span::Code(t) => {
            let fence = backticks(backtick_runs(t).0 + 1);
            fence + code_padding(t) + t + code_padding(t) + fence
        },
        Span::Strong(inner) => seq!['*', '*'] + md(inner) + seq!['*', '*'],
        Span::Emphasis(inner) => seq!['*'] + md(inner) + seq!['*'],
    }
}

/// A run of spans rendered back to markdown, in order.
pub open spec fn md(spans: Seq<Span>) -> Seq<char>
    decreases spans, 0nat,
{
    if spans.len() == 0 {
        Seq::empty()
    } else {
        md(spans.drop_last()) + md_span(spans.last())
    }
}

fn push_backticks(out: &mut Vec<char>, n: usize)
    ensures
        final(out)@ == old(out)@ + backticks(n as int),
{
    let ghost start = out@;
    let mut i: usize = 0;
    while i < n
        invariant
            i <= n,
            out@ == start + backticks(i as int),
        decreases n - i,
    {
        out.push('`');
        i = i + 1;
        assert(backticks(i as int) =~= backticks(i - 1).push('`'));
    }
}

#[verifier::rlimit(30)]
fn push_markdown(out: &mut Vec<char>, spans: &Vec<InlineSpan>)
    ensures
        final(out)@ == old(out)@ + md(spans_view(spans@)),
    decreases spans@,
{
    let ghost start = out@;
    proof {
        lemma_spans_view(spans@);
    }
    let mut i: usize = 0;
    while i < spans.len()
        invariant
            i <= spans@.len(),
            spans_view(spans@).len() == spans@.len(),
            forall|k: int| 0 <= k < spans@.len() ==> #[trigger] spans_view(spans@)[k] == span_view(spans@[k]),
            out@ == start + md(spans_view(spans@).take(i as int)),
        decreases spans@.len() - i,
    {
        let ghost before = out@;
        match &spans[i] {
            InlineSpan::Text { text } => {
                let t = chars_of(text.as_str());
                escape_markdown(t.as_slice(), out);
            },
            InlineSpan::Code { text } => {
                let t = chars_of(text.as_str());
                let longest = longest_backtick_run(t.as_slice());
                proof {
                    lemma_backtick_runs_bounded(t@);
                }
                let pad = t.len() > 0 && (t[0] == '`' || t[t.len() - 1] == '`');
                push_backticks(out, longest);
                out.push('`');
                if pad {
                    out.push(' ');
                }
                push_chars_of(out, &t);
                if pad {
                    out.push(' ');
                }
                push_backticks(out, longest);
                out.push('`');
                proof {
                    assert(backticks(longest + 1) =~= backticks(longest as int).push('`'));
                    let fence = backticks(longest + 1);
                    assert(out@ =~= before + (fence + code_padding(t@) + t@ + code_padding(t@)
                        + fence));
                }
            },
            InlineSpan::Strong { spans: inner } => {
                assert(decreases_to!(spans@ => spans@[i as int]));
                out.push('*');
                out.push('*');
                push_markdown(out, inner);
                out.push('*');
                out.push('*');
                assert(out@ =~= before + (seq!['*', '*'] + md(spans_view(inner@)) + seq![
                    '*',
                    '*',
                ]));
            },
            InlineSpan::Emphasis { spans: inner } => {
                assert(decreases_to!(spans@ => spans@[i as int]));
                out.push('*');
                push_markdown(out, inner);
                out.push('*');
                assert(out@ =~= before + (seq!['*'] + md(spans_view(inner@)) + seq!['*']));
            },
        }
        proof {
            let v = spans_view(spans@);
            assert(v.take(i + 1).drop_last() =~= v.take(i as int));
            assert(out@ == before + md_span(v[i as int]));
        }
        i = i + 1;
    }
    assert(spans_view(spans@).take(i as int) =~= spans_view(spans@));
}

/// Inline text rendered back to the markdown it was parsed from.
pub fn to_markdown(spans: &Vec<InlineSpan>) -> (out: String)
    ensures
        out@ == md(spans_view(spans@)),
{
    let mut chars: Vec<char> = Vec::new();
    push_markdown(&mut chars, spans);
    assert(chars@ =~= md(spans_view(spans@)));
    string_of(chars.as_slice())
}

/// Escaped prose, read from position `p.len()` on, is read back as prose.
pub proof fn lemma_escaped_is_prose(p: Seq<char>, t: Seq<char>, literal: Seq<char>)
    ensures
        inline(p + escape(t), p.len() as int, literal) == flush(literal + t),
    decreases t.len(),
{
    let s = p + escape(t);
    if t.len() == 0 {
        assert(literal + t =~= literal);
    } else {
        lemma_escape_front(t);
        let c = t[0];
        let rest = t.drop_first();
        let p2 = p + escape_char(c);
        assert(s =~= p2 + escape(rest));
        lemma_escaped_is_prose(p2, rest, literal.push(c));
        assert(literal.push(c) + rest =~= literal + t);
        let i = p.len() as int;
        if needs_escape(c) {
            assert(s[i] == '\\');
            assert(s[i + 1] == c);
            assert(is_punct(c));
        } else {
            assert(s[i] == c);
        }
    }
}

/// Prose written out by `to_markdown` parses back to the same prose.
pub proof fn law_escaped_text_round_trips(t: Seq<char>)
    requires
        t.len() > 0,
    ensures
        parse_inline_spec(md(seq![Span::Text(t)])) == seq![Span::Text(t)],
{
    let spans = seq![Span::Text(t)];
    assert(spans.drop_last() =~= Seq::<Span>::empty());
    assert(md(spans) == md(Seq::<Span>::empty()) + md_span(Span::Text(t)));
    assert(md(spans) =~= escape(t));
    lemma_escaped_is_prose(Seq::empty(), t, Seq::empty());
    assert(Seq::<char>::empty() + escape(t) =~= escape(t));
    assert(Seq::<char>::empty() + t =~= t);
}

/// Text with no backslash, at most one backtick and at most one star.
pub open spec fn unmarked_prose(s: Seq<char>) -> bool {
    &&& forall|j: int| 0 <= j < s.len() ==> #[trigger] s[j] != '\\'
    &&& forall|j: int, k: int| 0 <= j < k < s.len() ==> !(#[trigger] s[j] == '`' && #[trigger] s[k] == '`')
    &&& forall|j: int, k: int| 0 <= j < k < s.len() ==> !(#[trigger] s[j] == '*' && #[trigger] s[k] == '*')
}

proof fn lemma_unmarked_is_prose(s: Seq<char>, i: int, literal: Seq<char>)
    requires
        unmarked_prose(s),
        0 <= i <= s.len(),
    ensures
        inline(s, i, literal) == flush(literal + s.skip(i)),
    decreases s.len() - i,
{
    if i == s.len() {
        assert(literal + s.skip(i) =~= literal);
    } else {
        lemma_unmarked_is_prose(s, i + 1, literal.push(s[i]));
        assert(literal.push(s[i]) + s.skip(i + 1) =~= literal + s.skip(i));
        if s[i] == '`' {
            lemma_leading(s.skip(i), '`');
            assert(s.skip(i)[0] == s[i]);
            if i + 1 < s.len() {
                assert(s.skip(i)[1] == s[i + 1]);
                assert(s[i + 1] != '`');
            }
            assert(run_len(s, i) == 1);
            lemma_closing_run(s, i + 1, 1);
            if closing_run(s, i + 1, 1) is Some {
                let k = closing_run(s, i + 1, 1)->0;
                lemma_leading(s.skip(k), '`');
                assert(s.skip(k)[0] == s[k]);
                assert(s[i] == '`' && s[k] == '`');
            }
            assert(literal + s.subrange(i, i + 1) =~= literal.push(s[i]));
        }
        if s[i] == '*' {
            let two = i + 1 < s.len() && s[i + 1] == '*';
            if two {
                assert(s[i] == '*' && s[i + 1] == '*');
            }
            lemma_marker_pos(s, i + 1, false);
            if marker_pos(s, i + 1, false) is Some {
                let k = marker_pos(s, i + 1, false)->0;
                assert(s[i] == '*' && s[k] == '*');
            }
        }
    }
}

/// An unclosed marker stays the character it is: text without escapes, and
/// with at most one backtick and at most one star, is read as one run of
/// prose, every character kept.
pub proof fn law_unclosed_markers_stay_prose(s: Seq<char>)
    requires
        unmarked_prose(s),
        s.len() > 0,
    ensures
        parse_inline_spec(s) == seq![Span::Text(s)],
{
    lemma_unmarked_is_prose(s, 0, Seq::empty());
    assert(Seq::<char>::empty() + s.skip(0) =~= s);
}

/// A code span's content is verbatim: between two single backticks,
/// whatever has no backtick of its own is read as code, markers and escapes
/// included (one space off each end where both ends are spaces around
/// something else).
pub proof fn law_code_spans_are_verbatim(c: Seq<char>)
    requires
        c.len() > 0,
        forall|j: int| 0 <= j < c.len() ==> #[trigger] c[j] != '`',
    ensures
        parse_inline_spec(seq!['`'] + c + seq!['`']) == seq![Span::Code(code_content(c))],
{
    let s = seq!['`'] + c + seq!['`'];
    let end: int = c.len() as int + 1;
    lemma_leading(s.skip(0), '`');
    assert(s.skip(0) =~= s);
    assert(s[1] == c[0]);
    assert(run_len(s, 0) == 1);
    lemma_closing_run(s, 1, 1);
    assert(s.skip(end) =~= seq!['`']);
    lemma_leading(s.skip(end), '`');
    assert(s[end - 1] == c[c.len() - 1]);
    assert(run_of(s, end, 1));
    match closing_run(s, 1, 1) {
        Some(k) => {
            if k < end {
                lemma_leading(s.skip(k), '`');
                assert(s.skip(k)[0] == s[k]);
                assert(s[k] == c[k - 1]);
            }
        },
        None => {},
    }
    assert(closing_run(s, 1, 1) == Some(end));
    assert(s.subrange(1, end) =~= c);
    assert(inline(s, end + 1, Seq::empty()) == flush(Seq::<char>::empty()));
    assert(flush(Seq::<char>::empty()) =~= Seq::<Span>::empty());
    assert(inline(s, 0, Seq::empty()) =~= seq![Span::Code(code_content(c))]);
}

proof fn lemma_runs_prefix(t: Seq<char>, k: int)
    requires
        0 <= k <= t.len(),
    ensures
        backtick_runs(t.take(k)).0 <= backtick_runs(t).0,
    decreases t.len() - k,
{
    if k < t.len() {
        lemma_runs_prefix(t, k + 1);
        let u = t.take(k + 1);
        assert(u.drop_last() =~= t.take(k));
    } else {
        assert(t.take(k) =~= t);
    }
}

proof fn lemma_run_within(t: Seq<char>, a: int, b: int)
    requires
        0 <= a <= b <= t.len(),
        forall|j: int| a <= j < b ==> t[j] == '`',
    ensures
        backtick_runs(t.take(b)).1 >= b - a,
    decreases b - a,
{
    if b > a {
        lemma_run_within(t, a, b - 1);
        let u = t.take(b);
        assert(u.drop_last() =~= t.take(b - 1));
        assert(u.last() == t[b - 1]);
    } else {
        lemma_backtick_runs_bounded(t.take(b));
    }
}

/// No run of `n` backticks fits inside `t` when its longest run is shorter.
proof fn lemma_no_long_run(t: Seq<char>, a: int, n: int)
    requires
        n > backtick_runs(t).0,
        0 <= a,
        a + n <= t.len(),
    ensures
        exists|j: int| a <= j < a + n && t[j] != '`',
{
    lemma_backtick_runs_bounded(t);
    if forall|j: int| a <= j < a + n ==> t[j] == '`' {
        lemma_run_within(t, a, a + n);
        lemma_backtick_runs_bounded(t.take(a + n));
        lemma_runs_prefix(t, a + n);
    }
}

/// `n` leading backticks and then something else.
proof fn lemma_run_len_is(s: Seq<char>, i: int, n: int)
    requires
        0 <= i,
        0 <= n,
        i + n <= s.len(),
        forall|k: int| i <= k < i + n ==> s[k] == '`',
        i + n == s.len() || s[i + n] != '`',
    ensures
        run_len(s, i) == n,
{
    let r = s.skip(i);
    lemma_leading(r, '`');
    let l = leading(r, '`');
    assert(r.len() == s.len() - i);
    if l < n {
        assert(r[l] == s[i + l]);
    } else if l > n {
        assert(i + n < s.len());
        assert(r[n] == '`');
        assert(r[n] == s[i + n]);
    }
}

/// Inside a code span written back, no run of the fence's length starts
/// before the closing fence.
proof fn lemma_no_early_close(t: Seq<char>, e: int)
    requires
        t.len() > 0,
        ({
            let n = backtick_runs(t).0 + 1;
            let c = code_padding(t) + t + code_padding(t);
            n <= e < n + c.len()
        }),
    ensures
        ({
            let n = backtick_runs(t).0 + 1;
            let c = code_padding(t) + t + code_padding(t);
            !run_of(backticks(n) + c + backticks(n), e, n)
        }),
{
    let n = backtick_runs(t).0 + 1;
    let p = code_padding(t);
    let c = p + t + p;
    let s = backticks(n) + c + backticks(n);
    let end = n + c.len();
    lemma_backtick_runs_bounded(t);
    if run_of(s, e, n) {
        assert(c[c.len() - 1] != '`');
        lemma_leading(s.skip(e), '`');
        assert forall|k: int| e <= k < e + n implies s[k] == '`' by {
            assert(s.skip(e)[k - e] == s[k]);
        }
        if e + n > end - 1 {
            assert(s[end - 1] == c[c.len() - 1]);
        }
        let a = e - n - p.len();
        if a < 0 {
            assert(s[e] == c[e - n]);
        }
        assert forall|k: int| a <= k < a + n implies t[k] == '`' by {
            assert(s[n + p.len() + k] == c[p.len() + k]);
        }
        lemma_no_long_run(t, a, n);
    }
}

/// A code span written back: its fence, padding, content, padding, fence.
proof fn lemma_md_code(t: Seq<char>)
    ensures
        md(seq![Span::Code(t)]) == backticks(backtick_runs(t).0 + 1) + (code_padding(t) + t + code_padding(t))
            + backticks(backtick_runs(t).0 + 1),
{
    let one = seq![Span::Code(t)];
    assert(one.last() == Span::Code(t));
    assert(one.drop_last() =~= Seq::<Span>::empty());
    assert(md(one.drop_last()) =~= Seq::<char>::empty());
    let f = backticks(backtick_runs(t).0 + 1);
    let p = code_padding(t);
    assert(md(one) == md(one.drop_last()) + md_span(one.last()));
    assert(md_span(Span::Code(t)) == f + p + t + p + f);
    assert(md(one) =~= f + (p + t + p) + f);
}

/// Reading the padded content back takes the padding off again.
proof fn lemma_padding_comes_off(t: Seq<char>)
    requires
        t.len() > 0,
        code_padding(t).len() > 0 || !(t[0] == ' ' && t.last() == ' ' && exists|j: int| 0 <= j < t.len() && t[j] != ' '),
    ensures
        code_content(code_padding(t) + t + code_padding(t)) == t,
{
    let p = code_padding(t);
    let c = p + t + p;
    if p.len() > 0 {
        assert(c[1] == t[0]);
        assert(c.subrange(1, c.len() - 1) =~= t);
        if t[0] == '`' {
            assert(c[1] != ' ');
        } else {
            assert(c[c.len() - 2] == t[t.len() - 1]);
            assert(c[c.len() - 2] != ' ');
        }
    } else {
        assert(c =~= t);
    }
}

/// A code span written back as markdown reads back as the same span,
/// unless its content has a space at each end around something else and
/// no backtick at either end, which the reading trims.
pub proof fn law_code_span_round_trip(t: Seq<char>)
    requires
        t.len() > 0,
        code_padding(t).len() > 0 || !(t[0] == ' ' && t.last() == ' ' && exists|j: int| 0 <= j < t.len() && t[j] != ' '),
    ensures
        parse_inline_spec(md(seq![Span::Code(t)])) == seq![Span::Code(t)],
{
    let n = backtick_runs(t).0 + 1;
    let f = backticks(n);
    let p = code_padding(t);
    let c = p + t + p;
    let s = f + c + f;
    let end = n + c.len();
    lemma_backtick_runs_bounded(t);
    lemma_md_code(t);
    assert(c[0] != '`');
    assert(c[c.len() - 1] != '`');
    assert(s[n] == c[0]);
    lemma_run_len_is(s, 0, n);
    assert(s.skip(end) =~= f);
    lemma_run_len_is(s, end, n);
    assert(s[end - 1] == c[c.len() - 1]);
    assert(run_of(s, end, n));
    lemma_closing_run(s, n, n);
    match closing_run(s, n, n) {
        Some(e) => {
            if e < end {
                lemma_no_early_close(t, e);
            }
        },
        None => {},
    }
    assert(closing_run(s, n, n) == Some(end));
    assert(s.subrange(n, end) =~= c);
    lemma_padding_comes_off(t);
    assert(inline(s, end + n, Seq::empty()) =~= Seq::<Span>::empty());
    assert(flush(Seq::<char>::empty()) =~= Seq::<Span>::empty());
    assert(inline(s, 0, Seq::empty()) =~= seq![Span::Code(t)]);
}

/// How one table column is aligned, as its delimiter row spelled it.
#[derive(Debug, Clone, Copy, PartialEq, Eq, Structural)]
pub enum ColumnAlignment {
    Start,
    Center,
    End,
}

/// The alignment a delimiter cell spells: `:-:` centers, `-:` ends, anything
/// else starts.
pub open spec fn alignment_of(cell: Seq<char>) -> ColumnAlignment {
    let starts = cell.len() > 0 && cell[0] == ':';
    let ends = cell.len() > 0 && cell.last() == ':';
    if starts && ends {
        ColumnAlignment::Center
    } else if !starts && ends {
        ColumnAlignment::End
    } else {
        ColumnAlignment::Start
    }
}

/// The delimiter a column alignment is written back as.
pub open spec fn delimiter_of(a: ColumnAlignment) -> Seq<char> {
    match a {
        ColumnAlignment::Start => seq!['-', '-', '-'],
        ColumnAlignment::Center => seq![':', '-', '-', '-', ':'],
        ColumnAlignment::End => seq!['-', '-', '-', ':'],
    }
}

impl ColumnAlignment {
    pub fn parse(cell: &[char]) -> (a: ColumnAlignment)
        ensures
            a == alignment_of(cell@),
    {
        let starts = cell.len() > 0 && cell[0] == ':';
        let ends = cell.len() > 0 && cell[cell.len() - 1] == ':';
        if starts && ends {
            ColumnAlignment::Center
        } else if !starts && ends {
            ColumnAlignment::End
        } else {
            ColumnAlignment::Start
        }
    }

    pub fn delimiter(self, out: &mut Vec<char>)
        ensures
            final(out)@ == old(out)@ + delimiter_of(self),
    {
        match self {
            ColumnAlignment::Start => {
                out.push('-');
                out.push('-');
                out.push('-');
            },
            ColumnAlignment::Center => {
                out.push(':');
                out.push('-');
                out.push('-');
                out.push('-');
                out.push(':');
            },
            ColumnAlignment::End => {
                out.push('-');
                out.push('-');
                out.push('-');
                out.push(':');
            },
        }
        assert(final(out)@ =~= old(out)@ + delimiter_of(self));
    }
}

/// A block of stage content.
#[derive(Debug, PartialEq, Eq)]
pub enum OverviewBlock {
    /// A sub-heading, at its authored depth.
    Heading { level: u8, spans: Vec<InlineSpan> },
    Paragraph { spans: Vec<InlineSpan> },
    Code { language: String, content: String },
    /// `ordered` tells `1.` lists from `-` lists.
    List { ordered: bool, items: Vec<Vec<InlineSpan>> },
    Table {
        headers: Vec<Vec<InlineSpan>>,
        alignments: Vec<ColumnAlignment>,
        rows: Vec<Vec<Vec<InlineSpan>>>,
    },
}

/// What a block means.
pub enum Block {
    Heading(int, Seq<Span>),
    Paragraph(Seq<Span>),
    Code(Seq<char>, Seq<char>),
    List(bool, Seq<Seq<Span>>),
    Table(Seq<Seq<Span>>, Seq<ColumnAlignment>, Seq<Seq<Seq<Span>>>),
}

/// The meanings of a sequence of span runs.
pub open spec fn runs_view(v: Seq<Vec<InlineSpan>>) -> Seq<Seq<Span>> {
    v.map_values(|x: Vec<InlineSpan>| spans_view(x@))
}

pub open spec fn rows_view(v: Seq<Vec<Vec<InlineSpan>>>) -> Seq<Seq<Seq<Span>>> {
    v.map_values(|r: Vec<Vec<InlineSpan>>| runs_view(r@))
}

pub open spec fn block_view(b: OverviewBlock) -> Block {
    match b {
        OverviewBlock::Heading { level, spans } => Block::Heading(level as int, spans_view(spans@)),
        OverviewBlock::Paragraph { spans } => Block::Paragraph(spans_view(spans@)),
        OverviewBlock::Code { language, content } => Block::Code(language@, content@),
        OverviewBlock::List { ordered, items } => Block::List(ordered, runs_view(items@)),
        OverviewBlock::Table { headers, alignments, rows } => Block::Table(
            runs_view(headers@),
            alignments@,
            rows_view(rows@),
        ),
    }
}

pub open spec fn blocks_view(v: Seq<OverviewBlock>) -> Seq<Block> {
    v.map_values(|b: OverviewBlock| block_view(b))
}

/// The words of each run.
pub open spec fn plain_runs(runs: Seq<Seq<Span>>) -> Seq<Seq<char>> {
    runs.map_values(|r: Seq<Span>| plain(r))
}

/// The words of a table row, cells separated by a space.
pub open spec fn plain_row(cells: Seq<Seq<Span>>) -> Seq<char> {
    join(plain_runs(cells), seq![' '])
}

/// A block's text with no markup at all.
pub open spec fn block_plain(b: Block) -> Seq<char> {
    match b {
        Block::Heading(_, spans) => plain(spans),
        Block::Paragraph(spans) => plain(spans),
        Block::Code(_, content) => content,
        Block::List(_, items) => join(plain_runs(items), seq!['\n']),
        Block::Table(headers, _, rows) => join(
            seq![headers].add(rows).map_values(|r: Seq<Seq<Span>>| plain_row(r)),
            seq!['\n'],
        ),
    }
}

fn plain_of_runs(runs: &Vec<Vec<InlineSpan>>) -> (out: Vec<Vec<char>>)
    ensures
        views(out@) == plain_runs(runs_view(runs@)),
{
    let mut out: Vec<Vec<char>> = Vec::new();
    let mut i: usize = 0;
    while i < runs.len()
        invariant
            i <= runs@.len(),
            out@.len() == i,
            forall|j: int| 0 <= j < i ==> #[trigger] out@[j]@ == plain(spans_view(runs@[j]@)),
        decreases runs@.len() - i,
    {
        let mut chars: Vec<char> = Vec::new();
        push_plain(&mut chars, &runs[i]);
        assert(chars@ =~= plain(spans_view(runs@[i as int]@)));
        out.push(chars);
        i = i + 1;
    }
    assert(views(out@) =~= plain_runs(runs_view(runs@)));
    out
}

fn plain_row_chars(cells: &Vec<Vec<InlineSpan>>) -> (out: Vec<char>)
    ensures
        out@ == plain_row(runs_view(cells@)),
{
    let parts = plain_of_runs(cells);
    let sep = vec![' '];
    assert(sep@ =~= seq![' ']);
    join_chars(&parts, sep.as_slice())
}

impl OverviewBlock {
    /// The block's text with no markup at all: what a surface that cannot
    /// show structure prints.
    pub fn plain_text(&self) -> (out: String)
        ensures
            out@ == block_plain(block_view(*self)),
    {
        let nl = vec!['\n'];
        assert(nl@ =~= seq!['\n']);
        match self {
            OverviewBlock::Heading { spans, .. } => plain_text(spans),
            OverviewBlock::Paragraph { spans } => plain_text(spans),
            OverviewBlock::Code { content, .. } => crate::text::copy_string(content),
            OverviewBlock::List { items, .. } => {
                let parts = plain_of_runs(items);
                let joined = join_chars(&parts, nl.as_slice());
                string_of(joined.as_slice())
            },
            OverviewBlock::Table { headers, rows, .. } => {
                let mut parts: Vec<Vec<char>> = Vec::new();
                parts.push(plain_row_chars(headers));
                let ghost all = seq![runs_view(headers@)].add(rows_view(rows@));
                let mut i: usize = 0;
                while i < rows.len()
                    invariant
                        i <= rows@.len(),
                        all == seq![runs_view(headers@)].add(rows_view(rows@)),
                        parts@.len() == i + 1,
                        forall|j: int| 0 <= j <= i ==> #[trigger] parts@[j]@ == plain_row(all[j]),
                    decreases rows@.len() - i,
                {
                    let row = plain_row_chars(&rows[i]);
                    parts.push(row);
                    i = i + 1;
                }
                assert(views(parts@) =~= all.map_values(|r: Seq<Seq<Span>>| plain_row(r)));
                let joined = join_chars(&parts, nl.as_slice());
                string_of(joined.as_slice())
            },
        }
    }
}

/// The number of leading `c` in `s`.
pub open spec fn leading(s: Seq<char>, c: char) -> int
    decreases s.len(),
{
    if s.len() > 0 && s[0] == c {
        1 + leading(s.drop_first(), c)
    } else {
        0
    }
}

pub proof fn lemma_leading(s: Seq<char>, c: char)
    ensures
        0 <= leading(s, c) <= s.len(),
        forall|k: int| 0 <= k < leading(s, c) ==> s[k] == c,
        leading(s, c) < s.len() ==> s[leading(s, c)] != c,
    decreases s.len(),
{
    if s.len() > 0 && s[0] == c {
        lemma_leading(s.drop_first(), c);
        assert forall|k: int| 0 <= k < leading(s, c) implies s[k] == c by {
            if k > 0 {
                assert(s[k] == s.drop_first()[k - 1]);
            }
        }
        if leading(s, c) < s.len() {
            assert(s[leading(s, c)] == s.drop_first()[leading(s, c) - 1]);
        }
    }
}

pub proof fn lemma_leading_is(s: Seq<char>, c: char, i: int)
    requires
        0 <= i <= s.len(),
        forall|k: int| 0 <= k < i ==> s[k] == c,
        i < s.len() ==> s[i] != c,
    ensures
        leading(s, c) == i,
    decreases i,
{
    if i > 0 {
        assert forall|k: int| 0 <= k < i - 1 implies s.drop_first()[k] == c by {
            assert(s.drop_first()[k] == s[k + 1]);
        }
        if i - 1 < s.drop_first().len() {
            assert(s.drop_first()[i - 1] == s[i]);
        }
        lemma_leading_is(s.drop_first(), c, i - 1);
    }
}

/// An ATX heading and its depth: one to six `#`, a space, and the text.
pub open spec fn heading_of(t: Seq<char>) -> Option<(int, Seq<char>)> {
    let h = leading(t, '#');
    if 1 <= h <= 6 && h < t.len() && t[h] == ' ' {
        Some((h, trim(t.skip(h + 1))))
    } else {
        None
    }
}

pub fn markdown_heading(t: &[char]) -> (r: Option<(u8, Vec<char>)>)
    ensures
        match heading_of(t@) {
            Some((h, text)) => r matches Some((level, x)) && level as int == h && x@ == text,
            None => r is None,
        },
{
    let mut h: usize = 0;
    while h < t.len() && t[h] == '#'
        invariant
            h <= t@.len(),
            forall|k: int| 0 <= k < h ==> t@[k] == '#',
        decreases t@.len() - h,
    {
        h = h + 1;
    }
    proof {
        lemma_leading_is(t@, '#', h as int);
    }
    if 1 <= h && h <= 6 && h < t.len() && t[h] == ' ' {
        let rest = slice_chars(t, h + 1, t.len());
        assert(rest@ =~= t@.skip(h + 1));
        let text = trim_chars(rest.as_slice());
        Some((h as u8, text))
    } else {
        None
    }
}

/// A line that opens or continues a table.
pub open spec fn is_table_row_spec(t: Seq<char>) -> bool {
    t.len() > 1 && t[0] == '|' && t.last() == '|'
}

pub fn is_table_row(t: &[char]) -> (b: bool)
    ensures
        b == is_table_row_spec(t@),
{
    t.len() > 1 && t[0] == '|' && t[t.len() - 1] == '|'
}

pub open spec fn all_digits(s: Seq<char>) -> bool {
    forall|k: int| 0 <= k < s.len() ==> crate::text::is_ascii_digit(#[trigger] s[k])
}

/// A list item and whether its marker was a number.
pub open spec fn list_item_of(t: Seq<char>) -> Option<(bool, Seq<char>)> {
    if has_prefix(t, seq!['-', ' ']) {
        Some((false, t.skip(2)))
    } else {
        match split_once(t, seq!['.', ' ']) {
            Some((number, item)) => if number.len() > 0 && all_digits(number) {
                Some((true, item))
            } else {
                None
            },
            None => None,
        }
    }
}

pub fn markdown_list_item(t: &[char]) -> (r: Option<(bool, Vec<char>)>)
    ensures
        match list_item_of(t@) {
            Some((o, item)) => r matches Some((ordered, x)) && ordered == o && x@ == item,
            None => r is None,
        },
{
    let dash = vec!['-', ' '];
    if starts_with(t, dash.as_slice()) {
        let item = slice_chars(t, 2, t.len());
        assert(item@ =~= t@.skip(2));
        return Some((false, item));
    }
    let dot = vec!['.', ' '];
    assert(dot@ =~= seq!['.', ' ']);
    match split_once_exec(t, dot.as_slice()) {
        Some((number, item)) => {
            let mut k: usize = 0;
            while k < number.len() && 48 <= (number[k] as u32) && (number[k] as u32) <= 57
                invariant
                    k <= number@.len(),
                    forall|j: int| 0 <= j < k ==> crate::text::is_ascii_digit(#[trigger] number@[j]),
                decreases number@.len() - k,
            {
                k = k + 1;
            }
            if number.len() > 0 && k == number.len() {
                Some((true, item))
            } else {
                assert(number@.len() > 0 ==> !crate::text::is_ascii_digit(number@[k as int]));
                None
            }
        },
        None => None,
    }
}

/// The cells of a table row, trimmed.
pub open spec fn table_cells_of(line: Seq<char>) -> Seq<Seq<char>> {
    split(strip_trailing(strip_leading(trim(line), '|'), '|'), '|').map_values(
        |cell: Seq<char>| trim(cell),
    )
}

pub fn table_cells(line: &[char]) -> (out: Vec<Vec<char>>)
    ensures
        views(out@) == table_cells_of(line@),
{
    let t = trim_chars(line);
    let a = strip_leading_exec(t.as_slice(), '|');
    let b = strip_trailing_exec(a.as_slice(), '|');
    let pieces = split_exec(b.as_slice(), '|');
    let mut out: Vec<Vec<char>> = Vec::new();
    let mut i: usize = 0;
    while i < pieces.len()
        invariant
            i <= pieces@.len(),
            views(pieces@) == split(b@, '|'),
            out@.len() == i,
            forall|j: int| 0 <= j < i ==> #[trigger] out@[j]@ == trim(pieces@[j]@),
        decreases pieces@.len() - i,
    {
        let cell = trim_chars(pieces[i].as_slice());
        out.push(cell);
        i = i + 1;
    }
    assert(views(out@) =~= views(pieces@).map_values(|cell: Seq<char>| trim(cell)));
    out
}

/// A delimiter-row cell: dashes, colons and spaces, with a dash.
pub open spec fn is_delimiter_cell(cell: Seq<char>) -> bool {
    crate::text::contains(cell, seq!['-']) && forall|k: int|
        0 <= k < cell.len() ==> (#[trigger] cell[k] == '-' || cell[k] == ':' || cell[k] == ' ')
}

fn delimiter_cell(cell: &[char]) -> (b: bool)
    ensures
        b == is_delimiter_cell(cell@),
{
    let dash = vec!['-'];
    assert(dash@ =~= seq!['-']);
    if !crate::text::contains_exec(cell, dash.as_slice()) {
        return false;
    }
    let mut k: usize = 0;
    while k < cell.len()
        invariant
            k <= cell@.len(),
            forall|j: int| 0 <= j < k ==> (#[trigger] cell@[j] == '-' || cell@[j] == ':' || cell@[j] == ' '),
        decreases cell@.len() - k,
    {
        let c = cell[k];
        if !(c == '-' || c == ':' || c == ' ') {
            return false;
        }
        k = k + 1;
    }
    true
}

/// The cells of a row, each parsed as inline text.
pub open spec fn parsed_cells(line: Seq<char>) -> Seq<Seq<Span>> {
    table_cells_of(line).map_values(|cell: Seq<char>| parse_inline_spec(cell))
}

/// A header row, a delimiter row, then body rows; `None` when the lines are
/// not a table.
pub open spec fn table_of(lines: Seq<Seq<char>>) -> Option<Block> {
    if lines.len() < 2 {
        None
    } else {
        let delimiter = table_cells_of(lines[1]);
        if forall|k: int| 0 <= k < delimiter.len() ==> is_delimiter_cell(#[trigger] delimiter[k]) {
            Some(
                Block::Table(
                    parsed_cells(lines[0]),
                    delimiter.map_values(|cell: Seq<char>| alignment_of(cell)),
                    lines.skip(2).map_values(|line: Seq<char>| parsed_cells(line)),
                ),
            )
        } else {
            None
        }
    }
}

fn parse_cells(line: &[char]) -> (out: Vec<Vec<InlineSpan>>)
    ensures
        runs_view(out@) == parsed_cells(line@),
{
    let cells = table_cells(line);
    let mut out: Vec<Vec<InlineSpan>> = Vec::new();
    let mut i: usize = 0;
    while i < cells.len()
        invariant
            i <= cells@.len(),
            views(cells@) == table_cells_of(line@),
            out@.len() == i,
            forall|j: int| 0 <= j < i ==> spans_view(#[trigger] out@[j]@) == parse_inline_spec(cells@[j]@),
        decreases cells@.len() - i,
    {
        let spans = parse_inline_chars(cells[i].as_slice());
        out.push(spans);
        i = i + 1;
    }
    assert(runs_view(out@) =~= views(cells@).map_values(|cell: Seq<char>| parse_inline_spec(cell)));
    out
}

pub fn parse_table(lines: &Vec<Vec<char>>) -> (r: Option<OverviewBlock>)
    ensures
        match table_of(views(lines@)) {
            Some(b) => r matches Some(x) && block_view(x) == b,
            None => r is None,
        },
{
    if lines.len() < 2 {
        return None;
    }
    let delimiter = table_cells(lines[1].as_slice());
    let mut alignments: Vec<ColumnAlignment> = Vec::new();
    let mut k: usize = 0;
    assert(views(lines@)[1] == lines@[1]@);
    while k < delimiter.len()
        invariant
            k <= delimiter@.len(),
            lines@.len() >= 2,
            views(delimiter@) == table_cells_of(views(lines@)[1]),
            forall|j: int| 0 <= j < k ==> is_delimiter_cell(#[trigger] views(delimiter@)[j]),
            alignments@.len() == k,
            forall|j: int| 0 <= j < k ==> #[trigger] alignments@[j] == alignment_of(delimiter@[j]@),
        decreases delimiter@.len() - k,
    {
        if !delimiter_cell(delimiter[k].as_slice()) {
            assert(!is_delimiter_cell(views(delimiter@)[k as int]));
            return None;
        }
        alignments.push(ColumnAlignment::parse(delimiter[k].as_slice()));
        k = k + 1;
    }
    assert(alignments@ =~= views(delimiter@).map_values(|cell: Seq<char>| alignment_of(cell)));
    let headers = parse_cells(lines[0].as_slice());
    let mut rows: Vec<Vec<Vec<InlineSpan>>> = Vec::new();
    let mut i: usize = 2;
    assert(views(lines@)[0] == lines@[0]@);
    while i < lines.len()
        invariant
            2 <= i <= lines@.len(),
            rows@.len() == i - 2,
            forall|j: int| 0 <= j < i - 2 ==> runs_view(#[trigger] rows@[j]@) == parsed_cells(lines@[j + 2]@),
        decreases lines@.len() - i,
    {
        let row = parse_cells(lines[i].as_slice());
        rows.push(row);
        i = i + 1;
    }
    assert(rows_view(rows@) =~= views(lines@).skip(2).map_values(|line: Seq<char>| parsed_cells(line)));
    let block = OverviewBlock::Table { headers, alignments, rows };
    Some(block)
}

/// The state of the block parser between lines.
pub struct BuildState {
    pub blocks: Seq<Block>,
    pub paragraph: Seq<Seq<char>>,
    pub list: Seq<Seq<Span>>,
    pub ordered: bool,
    pub table: Seq<Seq<char>>,
    pub code: Seq<Seq<char>>,
    pub language: Seq<char>,
    pub in_code: bool,
}

pub open spec fn initial_state() -> BuildState {
    BuildState {
        blocks: Seq::empty(),
        paragraph: Seq::empty(),
        list: Seq::empty(),
        ordered: false,
        table: Seq::empty(),
        code: Seq::empty(),
        language: Seq::empty(),
        in_code: false,
    }
}

/// Pending paragraph lines become one paragraph, re-wrapped with single
/// spaces; a paragraph with no spans is dropped.
pub open spec fn flush_paragraph_spec(st: BuildState) -> BuildState {
    if st.paragraph.len() == 0 {
        st
    } else {
        let spans = parse_inline_spec(
            join(st.paragraph.map_values(|l: Seq<char>| trim(l)), seq![' ']),
        );
        BuildState {
            blocks: if spans.len() > 0 {
                st.blocks.push(Block::Paragraph(spans))
            } else {
                st.blocks
            },
            paragraph: Seq::empty(),
            ..st
        }
    }
}

/// Pending list items become one list.
pub open spec fn flush_list_spec(st: BuildState) -> BuildState {
    if st.list.len() == 0 {
        st
    } else {
        BuildState {
            blocks: st.blocks.push(Block::List(st.ordered, st.list)),
            list: Seq::empty(),
            ..st
        }
    }
}

/// Pending table rows become a table, or, when they are not one, a
/// paragraph per line.
pub open spec fn flush_table_spec(st: BuildState) -> BuildState {
    BuildState {
        blocks: match table_of(st.table) {
            Some(b) => st.blocks.push(b),
            None => st.blocks + st.table.map_values(
                |l: Seq<char>| Block::Paragraph(parse_inline_spec(trim(l))),
            ),
        },
        table: Seq::empty(),
        ..st
    }
}

pub open spec fn flush_all_spec(st: BuildState) -> BuildState {
    flush_table_spec(flush_list_spec(flush_paragraph_spec(st)))
}

/// One line read by the block parser.
pub open spec fn step_spec(st: BuildState, line: Seq<char>) -> BuildState {
    let t = trim(line);
    if has_prefix(t, seq!['`', '`', '`']) {
        if st.in_code {
            BuildState {
                blocks: st.blocks.push(Block::Code(st.language, join(st.code, seq!['\n']))),
                code: Seq::empty(),
                language: Seq::empty(),
                in_code: false,
                ..st
            }
        } else {
            BuildState {
                language: trim(t.skip(3)),
                in_code: true,
                ..flush_all_spec(st)
            }
        }
    } else if st.in_code {
        BuildState { code: st.code.push(line), ..st }
    } else if heading_of(t) is Some {
        let (level, text) = heading_of(t)->0;
        let f = flush_all_spec(st);
        BuildState { blocks: f.blocks.push(Block::Heading(level, parse_inline_spec(text))), ..f }
    } else if is_table_row_spec(t) {
        let f = flush_list_spec(flush_paragraph_spec(st));
        BuildState { table: f.table.push(t), ..f }
    } else if list_item_of(t) is Some {
        let (ordered, item) = list_item_of(t)->0;
        let f = flush_table_spec(flush_paragraph_spec(st));
        let g = if f.list.len() > 0 && ordered != f.ordered {
            flush_list_spec(f)
        } else {
            f
        };
        BuildState { ordered: ordered, list: g.list.push(parse_inline_spec(item)), ..g }
    } else if t.len() == 0 {
        flush_all_spec(st)
    } else {
        let f = flush_table_spec(flush_list_spec(st));
        BuildState { paragraph: f.paragraph.push(line), ..f }
    }
}

/// The parser's state after reading `lines`.
pub open spec fn read_lines(lines: Seq<Seq<char>>) -> BuildState
    decreases lines.len(),
{
    if lines.len() == 0 {
        initial_state()
    } else {
        step_spec(read_lines(lines.drop_last()), lines.last())
    }
}

/// Markdown lines parsed into headings, paragraphs, lists, fenced code and
/// tables. A code fence left open drops its lines.
pub open spec fn blocks_of(lines: Seq<Seq<char>>) -> Seq<Block> {
    flush_all_spec(read_lines(lines)).blocks
}

struct BlockBuilder {
    blocks: Vec<OverviewBlock>,
    paragraph: Vec<Vec<char>>,
    list: Vec<Vec<InlineSpan>>,
    ordered: bool,
    table: Vec<Vec<char>>,
    code: Vec<Vec<char>>,
    language: Vec<char>,
    in_code: bool,
}

impl BlockBuilder {
    spec fn state(&self) -> BuildState {
        BuildState {
            blocks: blocks_view(self.blocks@),
            paragraph: views(self.paragraph@),
            list: runs_view(self.list@),
            ordered: self.ordered,
            table: views(self.table@),
            code: views(self.code@),
            language: self.language@,
            in_code: self.in_code,
        }
    }

    fn new() -> (b: BlockBuilder)
        ensures
            b.state() == initial_state(),
    {
        let b = BlockBuilder {
            blocks: Vec::new(),
            paragraph: Vec::new(),
            list: Vec::new(),
            ordered: false,
            table: Vec::new(),
            code: Vec::new(),
            language: Vec::new(),
            in_code: false,
        };
        assert(b.state().blocks =~= Seq::<Block>::empty());
        assert(b.state().paragraph =~= Seq::<Seq<char>>::empty());
        assert(b.state().list =~= Seq::<Seq<Span>>::empty());
        assert(b.state().table =~= Seq::<Seq<char>>::empty());
        assert(b.state().code =~= Seq::<Seq<char>>::empty());
        b
    }

    fn push_block(&mut self, block: OverviewBlock)
        ensures
            final(self).state() == (BuildState {
                blocks: old(self).state().blocks.push(block_view(block)),
                ..old(self).state()
            }),
    {
        let mut blocks: Vec<OverviewBlock> = Vec::new();
        std::mem::swap(&mut blocks, &mut self.blocks);
        blocks.push(block);
        self.blocks = blocks;
        assert(blocks_view(self.blocks@) =~= blocks_view(old(self).blocks@).push(block_view(block)));
    }

    fn flush_paragraph(&mut self)
        ensures
            final(self).state() == flush_paragraph_spec(old(self).state()),
    {
        if self.paragraph.len() == 0 {
            return;
        }
        let mut trimmed: Vec<Vec<char>> = Vec::new();
        let mut i: usize = 0;
        while i < self.paragraph.len()
            invariant
                i <= self.paragraph@.len(),
                self.paragraph == old(self).paragraph,
                trimmed@.len() == i,
                forall|j: int| 0 <= j < i ==> #[trigger] trimmed@[j]@ == trim(self.paragraph@[j]@),
            decreases self.paragraph@.len() - i,
        {
            trimmed.push(trim_chars(self.paragraph[i].as_slice()));
            i = i + 1;
        }
        assert(views(trimmed@) =~= views(self.paragraph@).map_values(|l: Seq<char>| trim(l)));
        let space = vec![' '];
        assert(space@ =~= seq![' ']);
        let joined = join_chars(&trimmed, space.as_slice());
        let spans = parse_inline_chars(joined.as_slice());
        proof {
            lemma_spans_view(spans@);
        }
        let ghost st = self.state();
        assert(st.paragraph.len() > 0);
        assert(joined@ == join(st.paragraph.map_values(|l: Seq<char>| trim(l)), seq![' ']));
        self.paragraph = Vec::new();
        assert(views(self.paragraph@) =~= Seq::<Seq<char>>::empty());
        assert(self.state() == (BuildState { paragraph: Seq::empty(), ..st }));
        if spans.len() > 0 {
            self.push_block(OverviewBlock::Paragraph { spans });
        }
    }

    fn flush_list(&mut self)
        ensures
            final(self).state() == flush_list_spec(old(self).state()),
    {
        if self.list.len() == 0 {
            return;
        }
        let mut items: Vec<Vec<InlineSpan>> = Vec::new();
        std::mem::swap(&mut items, &mut self.list);
        assert(runs_view(self.list@) =~= Seq::<Seq<Span>>::empty());
        let ordered = self.ordered;
        self.push_block(OverviewBlock::List { ordered, items });
    }

    fn flush_table(&mut self)
        ensures
            final(self).state() == flush_table_spec(old(self).state()),
    {
        let mut lines: Vec<Vec<char>> = Vec::new();
        std::mem::swap(&mut lines, &mut self.table);
        assert(views(self.table@) =~= Seq::<Seq<char>>::empty());
        match parse_table(&lines) {
            Some(block) => {
                self.push_block(block);
            },
            None => {
                let ghost start = self.state();
                let mut i: usize = 0;
                while i < lines.len()
                    invariant
                        i <= lines@.len(),
                        table_of(views(lines@)) is None,
                        self.state() == (BuildState {
                            blocks: start.blocks + views(lines@).take(i as int).map_values(
                                |l: Seq<char>| Block::Paragraph(parse_inline_spec(trim(l))),
                            ),
                            ..start
                        }),
                    decreases lines@.len() - i,
                {
                    let t = trim_chars(lines[i].as_slice());
                    let spans = parse_inline_chars(t.as_slice());
                    self.push_block(OverviewBlock::Paragraph { spans });
                    i = i + 1;
                    assert(start.blocks + views(lines@).take(i as int).map_values(
                        |l: Seq<char>| Block::Paragraph(parse_inline_spec(trim(l))),
                    ) =~= (start.blocks + views(lines@).take(i - 1).map_values(
                        |l: Seq<char>| Block::Paragraph(parse_inline_spec(trim(l))),
                    )).push(Block::Paragraph(parse_inline_spec(trim(lines@[i - 1]@)))));
                }
                assert(views(lines@).take(i as int) =~= views(lines@));
            },
        }
    }

    fn flush_all(&mut self)
        ensures
            final(self).state() == flush_all_spec(old(self).state()),
    {
        self.flush_paragraph();
        self.flush_list();
        self.flush_table();
    }

    fn step(&mut self, line: &[char])
        ensures
            final(self).state() == step_spec(old(self).state(), line@),
    {
        let t = trim_chars(line);
        let fence = vec!['`', '`', '`'];
        assert(fence@ =~= seq!['`', '`', '`']);
        if starts_with(t.as_slice(), fence.as_slice()) {
            if self.in_code {
                let mut language: Vec<char> = Vec::new();
                std::mem::swap(&mut language, &mut self.language);
                let mut code: Vec<Vec<char>> = Vec::new();
                std::mem::swap(&mut code, &mut self.code);
                let newline = vec!['\n'];
                assert(newline@ =~= seq!['\n']);
                let content = join_chars(&code, newline.as_slice());
                self.in_code = false;
                assert(views(self.code@) =~= Seq::<Seq<char>>::empty());
                assert(self.language@ =~= Seq::<char>::empty());
                let block = OverviewBlock::Code {
                    language: string_of(language.as_slice()),
                    content: string_of(content.as_slice()),
                };
                self.push_block(block);
            } else {
                self.flush_all();
                let rest = slice_chars(t.as_slice(), 3, t.len());
                assert(rest@ =~= t@.skip(3));
                self.language = trim_chars(rest.as_slice());
                self.in_code = true;
            }
            return;
        }
        if self.in_code {
            let copy = slice_chars(line, 0, line.len());
            assert(copy@ =~= line@);
            let mut code: Vec<Vec<char>> = Vec::new();
            std::mem::swap(&mut code, &mut self.code);
            code.push(copy);
            self.code = code;
            assert(views(self.code@) =~= views(old(self).code@).push(line@));
            return;
        }
        if let Some((level, text)) = markdown_heading(t.as_slice()) {
            self.flush_all();
            let spans = parse_inline_chars(text.as_slice());
            self.push_block(OverviewBlock::Heading { level, spans });
            return;
        }
        if is_table_row(t.as_slice()) {
            self.flush_paragraph();
            self.flush_list();
            let ghost before = views(self.table@);
            let mut table: Vec<Vec<char>> = Vec::new();
            std::mem::swap(&mut table, &mut self.table);
            table.push(t);
            self.table = table;
            assert(views(self.table@) =~= before.push(trim(line@)));
            return;
        }
        if let Some((ordered, item)) = markdown_list_item(t.as_slice()) {
            self.flush_paragraph();
            self.flush_table();
            if self.list.len() > 0 && ordered != self.ordered {
                self.flush_list();
            }
            self.ordered = ordered;
            let spans = parse_inline_chars(item.as_slice());
            let ghost before = runs_view(self.list@);
            let mut list: Vec<Vec<InlineSpan>> = Vec::new();
            std::mem::swap(&mut list, &mut self.list);
            list.push(spans);
            self.list = list;
            assert(runs_view(self.list@) =~= before.push(spans_view(spans@)));
            return;
        }
        if t.len() == 0 {
            self.flush_all();
            return;
        }
        self.flush_list();
        self.flush_table();
        let ghost before = views(self.paragraph@);
        let copy = slice_chars(line, 0, line.len());
        assert(copy@ =~= line@);
        let mut paragraph: Vec<Vec<char>> = Vec::new();
        std::mem::swap(&mut paragraph, &mut self.paragraph);
        paragraph.push(copy);
        self.paragraph = paragraph;
        assert(views(self.paragraph@) =~= before.push(line@));
    }
}

pub(crate) fn parse_block_lines(lines: &Vec<Vec<char>>) -> (out: Vec<OverviewBlock>)
    ensures
        blocks_view(out@) == blocks_of(views(lines@)),
{
    let mut builder = BlockBuilder::new();
    let mut i: usize = 0;
    while i < lines.len()
        invariant
            i <= lines@.len(),
            builder.state() == read_lines(views(lines@).take(i as int)),
        decreases lines@.len() - i,
    {
        proof {
            let l = views(lines@).take(i + 1);
            assert(l.drop_last() =~= views(lines@).take(i as int));
            assert(l.last() == lines@[i as int]@);
        }
        builder.step(lines[i].as_slice());
        i = i + 1;
    }
    assert(views(lines@).take(i as int) =~= views(lines@));
    builder.flush_all();
    builder.blocks
}

/// Markdown lines parsed into blocks.
pub fn parse_blocks(lines: &[&str]) -> (out: Vec<OverviewBlock>)
    ensures
        blocks_view(out@) == blocks_of(lines@.map_values(|l: &str| l@)),
{
    let mut owned: Vec<Vec<char>> = Vec::new();
    let mut i: usize = 0;
    while i < lines.len()
        invariant
            i <= lines@.len(),
            owned@.len() == i,
            forall|j: int| 0 <= j < i ==> #[trigger] owned@[j]@ == lines@[j]@,
        decreases lines@.len() - i,
    {
        owned.push(chars_of(lines[i]));
        i = i + 1;
    }
    assert(views(owned@) =~= lines@.map_values(|l: &str| l@));
    parse_block_lines(&owned)
}

/// Markdown source parsed into blocks, line by line.
pub fn parse_source_blocks(source: &[char]) -> (out: Vec<OverviewBlock>)
    ensures
        blocks_view(out@) == blocks_of(crate::text::lines(source@)),
{
    let lines = crate::text::lines_of(source);
    parse_block_lines(&lines)
}

/// `n` copies of `c`.
pub open spec fn repeat(c: char, n: int) -> Seq<char> {
    Seq::new(n as nat, |i: int| c)
}

fn push_repeat(out: &mut Vec<char>, c: char, n: usize)
    ensures
        final(out)@ == old(out)@ + repeat(c, n as int),
{
    let ghost start = out@;
    let mut i: usize = 0;
    while i < n
        invariant
            i <= n,
            out@ == start + repeat(c, i as int),
        decreases n - i,
    {
        out.push(c);
        i = i + 1;
        assert(repeat(c, i as int) =~= repeat(c, i - 1).push(c));
    }
}

/// The marker of the `k`-th item (from zero) of a list.
pub open spec fn list_marker(ordered: bool, k: int) -> Seq<char> {
    if ordered {
        crate::text::decimal((k + 1) as nat) + seq!['.']
    } else {
        seq!['-']
    }
}

/// The first `n` items of a list, one line each.
pub open spec fn md_items(ordered: bool, items: Seq<Seq<Span>>, n: int) -> Seq<char>
    decreases n,
{
    if n <= 0 {
        Seq::empty()
    } else {
        md_items(ordered, items, n - 1) + list_marker(ordered, n - 1) + seq![' '] + md(
            items[n - 1],
        ) + seq!['\n']
    }
}

/// The markdown of a row's cells, joined by ` | `.
pub open spec fn md_cells(cells: Seq<Seq<Span>>) -> Seq<char> {
    join(cells.map_values(|cell: Seq<Span>| md(cell)), seq![' ', '|', ' '])
}

/// One table row.
pub open spec fn md_row(cells: Seq<Seq<Span>>) -> Seq<char> {
    seq!['|', ' '] + md_cells(cells) + seq![' ', '|', '\n']
}

/// The delimiter row's cells, each followed by `|`.
pub open spec fn md_delimiters(a: Seq<ColumnAlignment>) -> Seq<char>
    decreases a.len(),
{
    if a.len() == 0 {
        Seq::empty()
    } else {
        md_delimiters(a.drop_last()) + delimiter_of(a.last()) + seq!['|']
    }
}

/// Body rows, in order.
pub open spec fn md_rows(rows: Seq<Seq<Seq<Span>>>) -> Seq<char>
    decreases rows.len(),
{
    if rows.len() == 0 {
        Seq::empty()
    } else {
        md_rows(rows.drop_last()) + md_row(rows.last())
    }
}

/// A block rendered back to markdown.
pub open spec fn md_block(b: Block) -> Seq<char> {
    match b {
        Block::Heading(level, spans) => repeat('#', level) + seq![' '] + md(spans) + seq![
            '\n',
            '\n',
        ],
        Block::Paragraph(spans) => md(spans) + seq!['\n', '\n'],
        Block::Code(language, content) => seq!['`', '`', '`'] + language + seq!['\n'] + content
            + seq!['\n', '`', '`', '`', '\n', '\n'],
        Block::List(ordered, items) => md_items(ordered, items, items.len() as int) + seq!['\n'],
        Block::Table(headers, alignments, rows) => md_row(headers) + seq!['|'] + md_delimiters(
            alignments,
        ) + seq!['\n'] + md_rows(rows) + seq!['\n'],
    }
}

/// Blocks rendered back to markdown, in order.
pub open spec fn md_blocks(blocks: Seq<Block>) -> Seq<char>
    decreases blocks.len(),
{
    if blocks.len() == 0 {
        Seq::empty()
    } else {
        md_blocks(blocks.drop_last()) + md_block(blocks.last())
    }
}

fn push_cells(out: &mut Vec<char>, cells: &Vec<Vec<InlineSpan>>)
    ensures
        final(out)@ == old(out)@ + md_cells(runs_view(cells@)),
{
    let mut parts: Vec<Vec<char>> = Vec::new();
    let mut i: usize = 0;
    while i < cells.len()
        invariant
            i <= cells@.len(),
            parts@.len() == i,
            forall|j: int| 0 <= j < i ==> #[trigger] parts@[j]@ == md(spans_view(cells@[j]@)),
        decreases cells@.len() - i,
    {
        let mut part: Vec<char> = Vec::new();
        push_markdown(&mut part, &cells[i]);
        assert(part@ =~= md(spans_view(cells@[i as int]@)));
        parts.push(part);
        i = i + 1;
    }
    assert(views(parts@) =~= runs_view(cells@).map_values(|cell: Seq<Span>| md(cell)));
    let sep = vec![' ', '|', ' '];
    assert(sep@ =~= seq![' ', '|', ' ']);
    let joined = join_chars(&parts, sep.as_slice());
    crate::text::push_chars(out, joined.as_slice());
}

fn push_row(out: &mut Vec<char>, cells: &Vec<Vec<InlineSpan>>)
    ensures
        final(out)@ == old(out)@ + md_row(runs_view(cells@)),
{
    let ghost start = out@;
    out.push('|');
    out.push(' ');
    push_cells(out, cells);
    out.push(' ');
    out.push('|');
    out.push('\n');
    assert(out@ =~= start + md_row(runs_view(cells@)));
}

fn push_block_markdown(out: &mut Vec<char>, block: &OverviewBlock)
    ensures
        final(out)@ == old(out)@ + md_block(block_view(*block)),
{
    let ghost start = out@;
    match block {
        OverviewBlock::Heading { level, spans } => {
            push_repeat(out, '#', *level as usize);
            out.push(' ');
            push_markdown(out, spans);
            out.push('\n');
            out.push('\n');
            assert(out@ =~= start + md_block(block_view(*block)));
        },
        OverviewBlock::Paragraph { spans } => {
            push_markdown(out, spans);
            out.push('\n');
            out.push('\n');
            assert(out@ =~= start + md_block(block_view(*block)));
        },
        OverviewBlock::Code { language, content } => {
            out.push('`');
            out.push('`');
            out.push('`');
            crate::text::push_str(out, language.as_str());
            out.push('\n');
            crate::text::push_str(out, content.as_str());
            out.push('\n');
            out.push('`');
            out.push('`');
            out.push('`');
            out.push('\n');
            out.push('\n');
            assert(out@ =~= start + md_block(block_view(*block)));
        },
        OverviewBlock::List { ordered, items } => {
            let mut k: usize = 0;
            while k < items.len()
                invariant
                    k <= items@.len(),
                    out@ == start + md_items(*ordered, runs_view(items@), k as int),
                decreases items@.len() - k,
            {
                let ghost before = out@;
                if *ordered {
                    crate::text::push_decimal(out, (k as u64) + 1);
                    out.push('.');
                } else {
                    out.push('-');
                }
                out.push(' ');
                push_markdown(out, &items[k]);
                out.push('\n');
                k = k + 1;
                assert(out@ =~= start + md_items(*ordered, runs_view(items@), k as int));
            }
            out.push('\n');
            assert(out@ =~= start + md_block(block_view(*block)));
        },
        OverviewBlock::Table { headers, alignments, rows } => {
            push_row(out, headers);
            out.push('|');
            let mut k: usize = 0;
            let ghost mid = out@;
            while k < alignments.len()
                invariant
                    k <= alignments@.len(),
                    out@ == mid + md_delimiters(alignments@.take(k as int)),
                decreases alignments@.len() - k,
            {
                alignments[k].delimiter(out);
                out.push('|');
                k = k + 1;
                assert(alignments@.take(k as int).drop_last() =~= alignments@.take(k - 1));
                assert(out@ =~= mid + md_delimiters(alignments@.take(k as int)));
            }
            assert(alignments@.take(k as int) =~= alignments@);
            out.push('\n');
            let ghost mid2 = out@;
            let mut r: usize = 0;
            while r < rows.len()
                invariant
                    r <= rows@.len(),
                    out@ == mid2 + md_rows(rows_view(rows@).take(r as int)),
                decreases rows@.len() - r,
            {
                push_row(out, &rows[r]);
                r = r + 1;
                assert(rows_view(rows@).take(r as int).drop_last() =~= rows_view(rows@).take(
                    r - 1,
                ));
                assert(out@ =~= mid2 + md_rows(rows_view(rows@).take(r as int)));
            }
            assert(rows_view(rows@).take(r as int) =~= rows_view(rows@));
            out.push('\n');
            assert(out@ =~= start + md_block(block_view(*block)));
        },
    }
}

/// Blocks rendered back to the markdown they were parsed from.
pub fn blocks_to_markdown(blocks: &Vec<OverviewBlock>) -> (out: String)
    ensures
        out@ == md_blocks(blocks_view(blocks@)),
{
    let mut chars: Vec<char> = Vec::new();
    let mut i: usize = 0;
    while i < blocks.len()
        invariant
            i <= blocks@.len(),
            chars@ == md_blocks(blocks_view(blocks@).take(i as int)),
        decreases blocks@.len() - i,
    {
        push_block_markdown(&mut chars, &blocks[i]);
        i = i + 1;
        assert(blocks_view(blocks@).take(i as int).drop_last() =~= blocks_view(blocks@).take(
            i - 1,
        ));
    }
    assert(blocks_view(blocks@).take(i as int) =~= blocks_view(blocks@));
    string_of(chars.as_slice())
}

/// The state of the `##` section splitter between lines.
pub struct SectionState {
    pub sections: Seq<(Seq<char>, Seq<char>)>,
    pub heading: Option<Seq<char>>,
    pub body: Seq<Seq<char>>,
}

/// A finished section: its heading and its trimmed body.
pub open spec fn close_section(st: SectionState) -> Seq<(Seq<char>, Seq<char>)> {
    match st.heading {
        Some(h) => st.sections.push((h, trim(join(st.body, seq!['\n'])))),
        None => st.sections,
    }
}

pub open spec fn section_step(st: SectionState, line: Seq<char>) -> SectionState {
    if has_prefix(line, seq!['#', '#', ' ']) {
        SectionState {
            sections: close_section(st),
            heading: Some(trim(line.skip(3))),
            body: Seq::empty(),
        }
    } else if st.heading is Some {
        SectionState { body: st.body.push(line), ..st }
    } else {
        st
    }
}

pub open spec fn section_fold(lines: Seq<Seq<char>>) -> SectionState
    decreases lines.len(),
{
    if lines.len() == 0 {
        SectionState { sections: Seq::empty(), heading: None, body: Seq::empty() }
    } else {
        section_step(section_fold(lines.drop_last()), lines.last())
    }
}

/// The `##` sections of a document, in order: each heading (trimmed) with
/// its body (trimmed). Text before the first `##` belongs to no section.
pub open spec fn sections_of(source: Seq<char>) -> Seq<(Seq<char>, Seq<char>)> {
    close_section(section_fold(crate::text::lines(source)))
}

pub open spec fn pair_views(v: Seq<(Vec<char>, Vec<char>)>) -> Seq<(Seq<char>, Seq<char>)> {
    v.map_values(|p: (Vec<char>, Vec<char>)| (p.0@, p.1@))
}

pub open spec fn string_pair_views(v: Seq<(String, String)>) -> Seq<(Seq<char>, Seq<char>)> {
    v.map_values(|p: (String, String)| (p.0@, p.1@))
}

fn close_section_exec(
    sections: &mut Vec<(Vec<char>, Vec<char>)>,
    heading: Option<Vec<char>>,
    body: &Vec<Vec<char>>,
)
    ensures
        pair_views(final(sections)@) == close_section(
            SectionState {
                sections: pair_views(old(sections)@),
                heading: match heading {
                    Some(h) => Some(h@),
                    None => None,
                },
                body: views(body@),
            },
        ),
{
    if let Some(h) = heading {
        let newline = vec!['\n'];
        assert(newline@ =~= seq!['\n']);
        let joined = join_chars(body, newline.as_slice());
        let text = trim_chars(joined.as_slice());
        let ghost before = pair_views(sections@);
        sections.push((h, text));
        assert(pair_views(sections@) =~= before.push((h@, text@)));
    }
}

/// Split a document into its `##` sections.
pub fn h2_sections(source: &[char]) -> (out: Vec<(Vec<char>, Vec<char>)>)
    ensures
        pair_views(out@) == sections_of(source@),
{
    let lines = crate::text::lines_of(source);
    let mut sections: Vec<(Vec<char>, Vec<char>)> = Vec::new();
    let mut heading: Option<Vec<char>> = None;
    let mut body: Vec<Vec<char>> = Vec::new();
    let mut i: usize = 0;
    assert(pair_views(sections@) =~= Seq::<(Seq<char>, Seq<char>)>::empty());
    assert(views(body@) =~= Seq::<Seq<char>>::empty());
    while i < lines.len()
        invariant
            i <= lines@.len(),
            views(lines@) == crate::text::lines(source@),
            section_fold(views(lines@).take(i as int)) == (SectionState {
                sections: pair_views(sections@),
                heading: match heading {
                    Some(h) => Some(h@),
                    None => None,
                },
                body: views(body@),
            }),
        decreases lines@.len() - i,
    {
        proof {
            let l = views(lines@).take(i + 1);
            assert(l.drop_last() =~= views(lines@).take(i as int));
            assert(l.last() == lines@[i as int]@);
        }
        let line = &lines[i];
        let prefix = vec!['#', '#', ' '];
        assert(prefix@ =~= seq!['#', '#', ' ']);
        if starts_with(line.as_slice(), prefix.as_slice()) {
            let previous = heading;
            close_section_exec(&mut sections, previous, &body);
            let rest = slice_chars(line.as_slice(), 3, line.len());
            assert(rest@ =~= line@.skip(3));
            heading = Some(trim_chars(rest.as_slice()));
            body = Vec::new();
            assert(views(body@) =~= Seq::<Seq<char>>::empty());
        } else if heading.is_some() {
            let ghost before = views(body@);
            body.push(crate::text::copy_chars(line));
            assert(views(body@) =~= before.push(line@));
        }
        i = i + 1;
    }
    assert(views(lines@).take(i as int) =~= views(lines@));
    close_section_exec(&mut sections, heading, &body);
    sections
}

/// The `##` sections of a stage guide, heading and body, in document order.
/// Where a heading repeats, a lookup sees its last body.
pub fn markdown_sections(source: &str) -> (out: Vec<(String, String)>)
    ensures
        string_pair_views(out@) == sections_of(source@),
{
    let chars = chars_of(source);
    let pairs = h2_sections(chars.as_slice());
    let mut out: Vec<(String, String)> = Vec::new();
    let mut i: usize = 0;
    while i < pairs.len()
        invariant
            i <= pairs@.len(),
            out@.len() == i,
            forall|j: int| 0 <= j < i ==> #[trigger] out@[j].0@ == pairs@[j].0@ && out@[j].1@ == pairs@[j].1@,
        decreases pairs@.len() - i,
    {
        let title = string_of(pairs[i].0.as_slice());
        let body = string_of(pairs[i].1.as_slice());
        let ghost before = out@;
        out.push((title, body));
        assert(out@ == before.push(out@[i as int]));
        assert(out@[i as int].0@ == pairs@[i as int].0@ && out@[i as int].1@ == pairs@[i as int].1@);
        i = i + 1;
    }
    assert(string_pair_views(out@) =~= pair_views(pairs@));
    out
}

/// The last body filed under `name`, as a map keyed by heading would keep.
pub open spec fn lookup_last(sections: Seq<(Seq<char>, Seq<char>)>, name: Seq<char>) -> Option<Seq<char>>
    decreases sections.len(),
{
    if sections.len() == 0 {
        None
    } else if sections.last().0 == name {
        Some(sections.last().1)
    } else {
        lookup_last(sections.drop_last(), name)
    }
}

/// The body of section `name`, if the document has one.
pub fn section_get(sections: &Vec<(String, String)>, name: &str) -> (r: Option<String>)
    ensures
        match lookup_last(string_pair_views(sections@), name@) {
            Some(b) => r matches Some(x) && x@ == b,
            None => r is None,
        },
{
    let key = chars_of(name);
    let mut i: usize = sections.len();
    assert(string_pair_views(sections@).take(sections@.len() as int) =~= string_pair_views(sections@));
    while i > 0
        invariant
            i <= sections@.len(),
            key@ == name@,
            lookup_last(string_pair_views(sections@), name@) == lookup_last(
                string_pair_views(sections@).take(i as int),
                name@,
            ),
        decreases i,
    {
        let title = chars_of(sections[i - 1].0.as_str());
        let ghost t = string_pair_views(sections@).take(i as int);
        proof {
            assert(t.drop_last() =~= string_pair_views(sections@).take(i - 1));
            assert(t.last() == (sections@[i - 1].0@, sections@[i - 1].1@));
            assert(lookup_last(t, name@) == if t.last().0 == name@ {
                Some(t.last().1)
            } else {
                lookup_last(t.drop_last(), name@)
            });
        }
        let same = crate::text::chars_eq(title.as_slice(), key.as_slice());
        if same {
            let body = crate::text::copy_string(&sections[i - 1].1);
            assert(lookup_last(t, name@) == Some(body@));
            return Some(body);
        }
        assert(lookup_last(t, name@) == lookup_last(string_pair_views(sections@).take(i - 1), name@));
        i = i - 1;
    }
    None
}

/// Authored markdown, together with the blocks the workbench renders from
/// it: one source and one parser.
#[derive(Debug, PartialEq, Eq)]
pub struct RichText {
    pub source: String,
    pub blocks: Vec<OverviewBlock>,
}

impl RichText {
    /// The blocks are always those that `source` parses into.
    pub open spec fn wf(&self) -> bool {
        blocks_view(self.blocks@) == blocks_of(crate::text::lines(self.source@))
    }

    pub fn parse(source: String) -> (out: RichText)
        ensures
            out.source@ == source@,
            out.wf(),
    {
        let chars = chars_of(source.as_str());
        let blocks = parse_source_blocks(chars.as_slice());
        RichText { source, blocks }
    }

    pub fn is_empty(&self) -> (b: bool)
        ensures
            b == (self.blocks@.len() == 0),
    {
        self.blocks.len() == 0
    }
}

} // verus!
