//! Blocks that read back as they were written: what `blocks_to_markdown`
//! writes for a heading or a one-line code block, `parse_blocks` reads back
//! unchanged.
use vstd::prelude::*;

use crate::capability::{
    blocks_of, escape, escape_char, heading_of, initial_state, law_escaped_text_round_trips, lemma_leading_is,
    list_item_of, md, md_block, md_blocks, md_span, parse_inline_spec, read_lines, repeat, step_spec, flush_all_spec,
    is_table_row_spec, Block, BuildState, Span,
};
use crate::text::{has_prefix, trim};

verus! {

/// What escaping keeps: it starts with a backslash or the text's first
/// character, ends with the text's last, and adds no character but
/// backslashes.
proof fn lemma_escape_shape(t: Seq<char>)
    ensures
        t.len() > 0 ==> escape(t).len() > 0 && escape(t).last() == t.last() && (escape(t)[0] == '\\'
            || escape(t)[0] == t[0]),
        forall|k: int|
            0 <= k < escape(t).len() ==> (#[trigger] escape(t)[k]) == '\\' || t.contains(escape(t)[k]),
    decreases t.len(),
{
    if t.len() > 0 {
        let d = t.drop_last();
        lemma_escape_shape(d);
        let e = escape(d);
        let x = escape_char(t.last());
        assert(escape(t) == e + x);
        assert forall|k: int| 0 <= k < escape(t).len() implies (#[trigger] escape(t)[k]) == '\\' || t.contains(
            escape(t)[k],
        ) by {
            if k < e.len() {
                assert(escape(t)[k] == e[k]);
                if e[k] != '\\' {
                    let j = choose|j: int| 0 <= j < d.len() && d[j] == e[k];
                    assert(t[j] == d[j]);
                }
            } else {
                assert(t[t.len() - 1] == t.last());
            }
        }
        if d.len() > 0 {
            assert(d[0] == t[0]);
            assert(escape(t)[0] == e[0]);
        } else {
            assert(e.len() == 0);
            assert(escape(t)[0] == x[0]);
        }
    }
}

proof fn lemma_trim_unchanged(s: Seq<char>)
    requires
        s.len() > 0,
        !crate::text::is_ws(s[0]),
        !crate::text::is_ws(s.last()),
    ensures
        trim(s) == s,
{
    assert(crate::text::trim_start(s) == s);
}

/// The line a heading of `t` at `level` is written as.
pub open spec fn heading_line(level: int, t: Seq<char>) -> Seq<char> {
    repeat('#', level) + seq![' '] + escape(t)
}

proof fn lemma_heading_text(level: int, t: Seq<char>)
    requires
        1 <= level <= 6,
        t.len() > 0,
        !crate::text::is_ws(t[0]),
        !crate::text::is_ws(t.last()),
        forall|k: int| 0 <= k < t.len() ==> t[k] != '\n',
    ensures
        md_blocks(seq![Block::Heading(level, seq![Span::Text(t)])]) == heading_line(level, t) + seq!['\n', '\n'],
{
    let spans = seq![Span::Text(t)];
    let b = Block::Heading(level, spans);
    assert(spans.drop_last() =~= Seq::<Span>::empty());
    assert(md(spans) == md(Seq::<Span>::empty()) + md_span(Span::Text(t)));
    assert(md(spans) =~= escape(t));
    assert(seq![b].drop_last() =~= Seq::<Block>::empty());
    assert(md_blocks(seq![b]) == md_blocks(Seq::<Block>::empty()) + md_block(b));
    assert(md_blocks(seq![b]) =~= heading_line(level, t) + seq!['\n', '\n']);
}

proof fn lemma_heading_lines(level: int, t: Seq<char>)
    requires
        1 <= level <= 6,
        t.len() > 0,
        !crate::text::is_ws(t[0]),
        !crate::text::is_ws(t.last()),
        forall|k: int| 0 <= k < t.len() ==> t[k] != '\n',
    ensures
        crate::text::lines(heading_line(level, t) + seq!['\n', '\n']) == seq![heading_line(level, t), Seq::<char>::empty()],
{
    let e = escape(t);
    lemma_escape_shape(t);
    let line = heading_line(level, t);
    let s = line + seq!['\n', '\n'];
    assert forall|k: int| 0 <= k < line.len() implies line[k] != '\n' by {
        if k > level {
            let c = e[k - level - 1];
            assert(line[k] == c);
            if c != '\\' {
                let j = choose|j: int| 0 <= j < t.len() && t[j] == c;
            }
        }
    }
    crate::text::lemma_index_of_is(s, '\n', line.len() as int);
    assert(s.take(line.len() as int) =~= line);
    let rest = s.skip(line.len() as int + 1);
    assert(rest =~= seq!['\n']);
    crate::text::lemma_index_of_is(rest, '\n', 0);
    assert(rest.take(0) =~= Seq::<char>::empty());
    assert(rest.skip(1) =~= Seq::<char>::empty());
    assert(line.last() == e.last());
    assert(crate::text::strip_cr(line) == line);
    assert(crate::text::strip_cr(Seq::<char>::empty()) == Seq::<char>::empty());
    assert(crate::text::lines(rest) == seq![Seq::<char>::empty()] + crate::text::lines(Seq::<char>::empty()));
    assert(crate::text::lines(rest) =~= seq![Seq::<char>::empty()]);
    assert(crate::text::lines(s) =~= seq![line, Seq::<char>::empty()]);
}

/// The state of the block reader holding only `blocks`, nothing pending.
pub open spec fn settled(blocks: Seq<Block>) -> BuildState {
    BuildState { blocks, ..initial_state() }
}

proof fn lemma_settled_flush(blocks: Seq<Block>)
    ensures
        flush_all_spec(settled(blocks)) == settled(blocks),
{
    assert(Seq::<Seq<char>>::empty().map_values(|l: Seq<char>| Block::Paragraph(parse_inline_spec(trim(l))))
        =~= Seq::<Block>::empty());
    assert(blocks + Seq::<Block>::empty() =~= blocks);
}

proof fn lemma_settled_blank(blocks: Seq<Block>)
    ensures
        step_spec(settled(blocks), Seq::<char>::empty()) == settled(blocks),
{
    let blank = Seq::<char>::empty();
    assert(trim(blank) =~= blank);
    assert(heading_of(blank) is None);
    assert(list_item_of(blank) is None);
    assert(!has_prefix(blank, seq!['`', '`', '`']));
    assert(!is_table_row_spec(blank));
    lemma_settled_flush(blocks);
}

proof fn lemma_heading_step(level: int, t: Seq<char>)
    requires
        1 <= level <= 6,
        t.len() > 0,
        !crate::text::is_ws(t[0]),
        !crate::text::is_ws(t.last()),
        forall|k: int| 0 <= k < t.len() ==> t[k] != '\n',
    ensures
        step_spec(initial_state(), heading_line(level, t)) == settled(seq![Block::Heading(level, seq![Span::Text(t)])]),
{
    law_escaped_text_round_trips(t);
    let spans = seq![Span::Text(t)];
    assert(spans.drop_last() =~= Seq::<Span>::empty());
    assert(md(spans) == md(Seq::<Span>::empty()) + md_span(Span::Text(t)));
    assert(md(spans) =~= escape(t));
    let e = escape(t);
    lemma_escape_shape(t);
    let line = heading_line(level, t);
    lemma_trim_unchanged(line);
    assert(line[0] == '#');
    assert(!has_prefix(line, seq!['`', '`', '`'])) by {
        if has_prefix(line, seq!['`', '`', '`']) {
            assert(line.subrange(0, 3)[0] == line[0]);
        }
    }
    lemma_leading_is(line, '#', level);
    assert(line.skip(level + 1) =~= e);
    lemma_trim_unchanged(e);
    assert(heading_of(line) == Some((level, e)));
    lemma_settled_flush(Seq::<Block>::empty());
    assert(initial_state() == settled(Seq::<Block>::empty()));
    assert(Seq::<Block>::empty().push(Block::Heading(level, spans)) =~= seq![Block::Heading(level, spans)]);
}

proof fn lemma_heading_read(level: int, t: Seq<char>)
    requires
        1 <= level <= 6,
        t.len() > 0,
        !crate::text::is_ws(t[0]),
        !crate::text::is_ws(t.last()),
        forall|k: int| 0 <= k < t.len() ==> t[k] != '\n',
    ensures
        blocks_of(seq![heading_line(level, t), Seq::<char>::empty()]) == seq![Block::Heading(level, seq![Span::Text(t)])],
{
    let b = Block::Heading(level, seq![Span::Text(t)]);
    let line = heading_line(level, t);
    let ls = seq![line, Seq::<char>::empty()];
    assert(ls.drop_last() =~= seq![line]);
    assert(seq![line].drop_last() =~= Seq::<Seq<char>>::empty());
    lemma_heading_step(level, t);
    lemma_settled_blank(seq![b]);
    assert(read_lines(seq![line]) == step_spec(read_lines(Seq::<Seq<char>>::empty()), line));
    assert(read_lines(ls) == step_spec(read_lines(seq![line]), Seq::<char>::empty()));
    lemma_settled_flush(seq![b]);
}

/// A heading of plain text written back as markdown reads back as the same
/// heading: any level from one to six, and text of one line that does not
/// start or end with whitespace (which reading a heading trims).
pub proof fn law_heading_round_trip(level: int, t: Seq<char>)
    requires
        1 <= level <= 6,
        t.len() > 0,
        !crate::text::is_ws(t[0]),
        !crate::text::is_ws(t.last()),
        forall|k: int| 0 <= k < t.len() ==> t[k] != '\n',
    ensures
        blocks_of(crate::text::lines(md_blocks(seq![Block::Heading(level, seq![Span::Text(t)])]))) == seq![
            Block::Heading(level, seq![Span::Text(t)]),
        ],
{
    lemma_heading_text(level, t);
    lemma_heading_lines(level, t);
    lemma_heading_read(level, t);
}

/// The lines a fenced code block of one line is written as.
pub open spec fn code_lines(language: Seq<char>, content: Seq<char>) -> Seq<Seq<char>> {
    seq![seq!['`', '`', '`'] + language, content, seq!['`', '`', '`'], Seq::<char>::empty()]
}

/// The conditions under which a one-line code block reads back unchanged:
/// neither the language nor the line breaks a line, the language carries
/// no surrounding whitespace, and the line neither ends with a carriage
/// return nor opens a fence itself.
pub open spec fn plain_code_line(language: Seq<char>, content: Seq<char>) -> bool {
    &&& forall|k: int| 0 <= k < language.len() ==> language[k] != '\n'
    &&& forall|k: int| 0 <= k < content.len() ==> content[k] != '\n'
    &&& (language.len() == 0 || (!crate::text::is_ws(language[0]) && !crate::text::is_ws(language.last())))
    &&& (content.len() == 0 || content.last() != '\r')
    &&& !has_prefix(trim(content), seq!['`', '`', '`'])
}

/// A line with no line break, then a line break, then the rest, reads
/// as that line and then the rest's lines.
proof fn lemma_lines_cons(line: Seq<char>, rest: Seq<char>)
    requires
        forall|k: int| 0 <= k < line.len() ==> line[k] != '\n',
        line.len() == 0 || line.last() != '\r',
    ensures
        crate::text::lines(line + seq!['\n'] + rest) == seq![line] + crate::text::lines(rest),
{
    let s = line + seq!['\n'] + rest;
    crate::text::lemma_index_of_is(s, '\n', line.len() as int);
    assert(s.take(line.len() as int) =~= line);
    assert(s.skip(line.len() as int + 1) =~= rest);
    assert(crate::text::strip_cr(line) == line);
}

proof fn lemma_code_text(language: Seq<char>, content: Seq<char>)
    requires
        plain_code_line(language, content),
    ensures
        crate::text::lines(md_blocks(seq![Block::Code(language, content)])) == code_lines(language, content),
{
    let b = Block::Code(language, content);
    assert(seq![b].drop_last() =~= Seq::<Block>::empty());
    assert(md_blocks(seq![b]) == md_blocks(Seq::<Block>::empty()) + md_block(b));
    let fence = seq!['`', '`', '`'];
    let l1 = fence + language;
    let blank = Seq::<char>::empty();
    let s4 = blank + seq!['\n'] + blank;
    let s3 = fence + seq!['\n'] + s4;
    let s2 = content + seq!['\n'] + s3;
    let s1 = l1 + seq!['\n'] + s2;
    assert(md_blocks(seq![b]) =~= s1);
    assert forall|k: int| 0 <= k < l1.len() implies l1[k] != '\n' by {
        if k >= 3 {
            assert(l1[k] == language[k - 3]);
        }
    }
    if language.len() > 0 {
        assert(l1.last() == language.last());
    }
    lemma_lines_cons(blank, blank);
    lemma_lines_cons(fence, s4);
    lemma_lines_cons(content, s3);
    lemma_lines_cons(l1, s2);
    assert(crate::text::lines(blank) =~= Seq::<Seq<char>>::empty());
    assert(crate::text::lines(s1) =~= code_lines(language, content));
}

/// The block reader inside a fence opened for `language`, nothing else
/// pending.
pub open spec fn open_fence(language: Seq<char>) -> BuildState {
    BuildState { language, in_code: true, ..initial_state() }
}

proof fn lemma_code_open(language: Seq<char>, content: Seq<char>)
    requires
        plain_code_line(language, content),
    ensures
        step_spec(initial_state(), seq!['`', '`', '`'] + language) == open_fence(language),
{
    let fence = seq!['`', '`', '`'];
    let l1 = fence + language;
    if language.len() > 0 {
        assert(l1.last() == language.last());
        lemma_trim_unchanged(language);
    } else {
        assert(trim(language) =~= language);
    }
    lemma_trim_unchanged(l1);
    assert(l1.subrange(0, 3) =~= fence);
    assert(l1.skip(3) =~= language);
    lemma_settled_flush(Seq::<Block>::empty());
    assert(initial_state() == settled(Seq::<Block>::empty()));
}

proof fn lemma_code_close(language: Seq<char>, content: Seq<char>)
    requires
        plain_code_line(language, content),
    ensures
        step_spec(step_spec(open_fence(language), content), seq!['`', '`', '`']) == settled(
            seq![Block::Code(language, content)],
        ),
{
    let fence = seq!['`', '`', '`'];
    let st1 = open_fence(language);
    let st2 = step_spec(st1, content);
    assert(st2 == BuildState { code: seq![content], ..st1 });
    assert(trim(fence) =~= fence);
    assert(fence.subrange(0, 3) =~= fence);
    assert(seq![content].len() == 1);
    assert(crate::text::join(seq![content], seq!['\n']) == content);
    assert(Seq::<Block>::empty().push(Block::Code(language, content)) =~= seq![Block::Code(language, content)]);
}

/// A fenced code block of one line written back as markdown reads back as
/// the same block.
pub proof fn law_code_block_round_trip(language: Seq<char>, content: Seq<char>)
    requires
        plain_code_line(language, content),
    ensures
        blocks_of(crate::text::lines(md_blocks(seq![Block::Code(language, content)]))) == seq![
            Block::Code(language, content),
        ],
{
    lemma_code_text(language, content);
    let b = Block::Code(language, content);
    let ls = code_lines(language, content);
    let fence = seq!['`', '`', '`'];
    let l1 = fence + language;
    lemma_code_open(language, content);
    lemma_code_close(language, content);
    lemma_settled_blank(seq![b]);
    lemma_settled_flush(seq![b]);
    assert(ls.drop_last() =~= seq![l1, content, fence]);
    assert(seq![l1, content, fence].drop_last() =~= seq![l1, content]);
    assert(seq![l1, content].drop_last() =~= seq![l1]);
    assert(seq![l1].drop_last() =~= Seq::<Seq<char>>::empty());
    assert(read_lines(Seq::<Seq<char>>::empty()) == initial_state());
    assert(read_lines(seq![l1]) == step_spec(initial_state(), l1));
    assert(read_lines(seq![l1, content]) == step_spec(read_lines(seq![l1]), content));
    assert(read_lines(seq![l1, content, fence]) == step_spec(read_lines(seq![l1, content]), fence));
    assert(read_lines(ls) == step_spec(read_lines(seq![l1, content, fence]), Seq::<char>::empty()));
}

/// A line the block reader takes as prose: after trimming it is not empty
/// and opens no fence, heading, table row or list item.
pub open spec fn prose_line(t: Seq<char>) -> bool {
    &&& t.len() > 0
    &&& !has_prefix(t, seq!['`', '`', '`'])
    &&& heading_of(t) is None
    &&& !is_table_row_spec(t)
    &&& list_item_of(t) is None
}

proof fn lemma_trim_start_shape(s: Seq<char>)
    ensures
        crate::text::trim_start(s).len() > 0 ==> !crate::text::is_ws(crate::text::trim_start(s)[0]),
    decreases s.len(),
{
    if s.len() > 0 && crate::text::is_ws(s[0]) {
        lemma_trim_start_shape(s.drop_first());
    }
}

proof fn lemma_trim_end_shape(s: Seq<char>)
    ensures
        crate::text::trim_end(s).len() <= s.len(),
        crate::text::trim_end(s) == s.take(crate::text::trim_end(s).len() as int),
        crate::text::trim_end(s).len() > 0 ==> !crate::text::is_ws(crate::text::trim_end(s).last()),
    decreases s.len(),
{
    if s.len() > 0 && crate::text::is_ws(s.last()) {
        lemma_trim_end_shape(s.drop_last());
        let r = crate::text::trim_end(s.drop_last());
        assert(s.drop_last().take(r.len() as int) =~= s.take(r.len() as int));
    } else {
        assert(s.take(s.len() as int) =~= s);
    }
}

/// Trimmed text that is not empty neither starts nor ends with whitespace.
proof fn lemma_trim_shape(s: Seq<char>)
    ensures
        trim(s).len() > 0 ==> !crate::text::is_ws(trim(s)[0]) && !crate::text::is_ws(trim(s).last()),
{
    let a = crate::text::trim_start(s);
    lemma_trim_start_shape(s);
    lemma_trim_end_shape(a);
    let r = crate::text::trim_end(a);
    if r.len() > 0 {
        assert(r[0] == a.take(r.len() as int)[0]);
        assert(a[0] == r[0]);
    }
}

/// A prose line read while nothing but a paragraph is pending joins the
/// paragraph.
proof fn lemma_prose_step(st: BuildState, line: Seq<char>)
    requires
        prose_line(trim(line)),
        !st.in_code,
        st.list.len() == 0,
        st.table.len() == 0,
    ensures
        step_spec(st, line) == (BuildState { paragraph: st.paragraph.push(line), ..st }),
{
    assert(Seq::<Seq<char>>::empty().map_values(|l: Seq<char>| Block::Paragraph(parse_inline_spec(trim(l))))
        =~= Seq::<Block>::empty());
    assert(st.blocks + Seq::<Block>::empty() =~= st.blocks);
    assert(st.table =~= Seq::<Seq<char>>::empty());
    assert(crate::capability::table_of(st.table) is None);
    assert(st.table.map_values(|l: Seq<char>| Block::Paragraph(parse_inline_spec(trim(l)))) =~= Seq::<Block>::empty());
    assert(crate::capability::flush_list_spec(st) == st);
    assert(crate::capability::flush_table_spec(st) == st);
}

/// The blocks a paragraph of the given source lines gives, read from the
/// start.
proof fn lemma_paragraph_blocks(ls: Seq<Seq<char>>)
    requires
        ls.len() == 1 || ls.len() == 2,
        forall|i: int| 0 <= i < ls.len() ==> prose_line(trim(#[trigger] ls[i])),
    ensures
        blocks_of(ls) == crate::capability::flush_paragraph_spec(
            BuildState { paragraph: ls, ..initial_state() },
        ).blocks,
{
    let st0 = initial_state();
    let first = seq![ls[0]];
    lemma_prose_step(st0, ls[0]);
    assert(Seq::<Seq<char>>::empty().push(ls[0]) =~= first);
    assert(first.drop_last() =~= Seq::<Seq<char>>::empty());
    assert(read_lines(first) == step_spec(read_lines(Seq::<Seq<char>>::empty()), ls[0]));
    let st1 = BuildState { paragraph: first, ..st0 };
    assert(read_lines(first) == st1);
    if ls.len() == 2 {
        lemma_prose_step(st1, ls[1]);
        assert(first.push(ls[1]) =~= ls);
        assert(ls.drop_last() =~= first);
        assert(read_lines(ls) == step_spec(read_lines(first), ls[1]));
        assert(read_lines(ls) == (BuildState { paragraph: ls, ..st0 }));
    } else {
        assert(ls =~= first);
    }
    let st = BuildState { paragraph: ls, ..st0 };
    let p = crate::capability::flush_paragraph_spec(st);
    assert(Seq::<Seq<char>>::empty().map_values(|l: Seq<char>| Block::Paragraph(parse_inline_spec(trim(l))))
        =~= Seq::<Block>::empty());
    assert(p.blocks + Seq::<Block>::empty() =~= p.blocks);
    assert(flush_all_spec(st).blocks == p.blocks);
}

/// A paragraph written over two lines reads as the same paragraph written
/// on one line, its lines trimmed and joined by a single space: the words
/// at a line break are kept apart, never glued together. Both lines, and
/// the joined line, must read as prose (a joined line that opened a list
/// item or table row would be read as one).
pub proof fn law_paragraph_lines_join_with_one_space(a: Seq<char>, b: Seq<char>)
    requires
        prose_line(trim(a)),
        prose_line(trim(b)),
        prose_line(trim(a) + seq![' '] + trim(b)),
    ensures
        blocks_of(seq![a, b]) == blocks_of(seq![trim(a) + seq![' '] + trim(b)]),
{
    let c = trim(a) + seq![' '] + trim(b);
    lemma_trim_shape(a);
    lemma_trim_shape(b);
    assert(c[0] == trim(a)[0]);
    assert(c.last() == trim(b).last());
    lemma_trim_unchanged(c);
    lemma_paragraph_blocks(seq![a, b]);
    lemma_paragraph_blocks(seq![c]);
    let two = seq![a, b].map_values(|l: Seq<char>| trim(l));
    assert(two =~= seq![trim(a), trim(b)]);
    assert(two.drop_last() =~= seq![trim(a)]);
    assert(crate::text::join(seq![trim(a)], seq![' ']) == trim(a));
    assert(crate::text::join(two, seq![' ']) =~= c);
    let one = seq![c].map_values(|l: Seq<char>| trim(l));
    assert(one =~= seq![c]);
    assert(crate::text::join(one, seq![' ']) == c);
}

/// A line of prose on its own is one paragraph of its trimmed text.
pub proof fn law_prose_line_is_one_paragraph(a: Seq<char>)
    requires
        prose_line(trim(a)),
    ensures
        parse_inline_spec(trim(a)).len() > 0 ==> blocks_of(seq![a]) == seq![Block::Paragraph(parse_inline_spec(trim(a)))],
{
    lemma_paragraph_blocks(seq![a]);
    let one = seq![a].map_values(|l: Seq<char>| trim(l));
    assert(one =~= seq![trim(a)]);
    assert(crate::text::join(one, seq![' ']) == trim(a));
    assert(Seq::<Block>::empty().push(Block::Paragraph(parse_inline_spec(trim(a)))) =~= seq![
        Block::Paragraph(parse_inline_spec(trim(a))),
    ]);
}

} // verus!
