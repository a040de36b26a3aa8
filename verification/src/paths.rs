//! Paths as text: joining, the portability rule for paths that a pack or a
//! test names, and how a path is shown to a person.
use vstd::prelude::*;

use crate::text::{
    chars_of, contains, has_prefix, push_chars, push_str, string_of, strip_prefix_exec,
};

verus! {

/// A path separator on either platform.
pub open spec fn is_sep(c: char) -> bool {
    c == '/' || c == '\\'
}

/// The pieces between separators, as `str::split(['/', '\\'])` yields them:
/// never fewer than one.
pub open spec fn segments(s: Seq<char>) -> Seq<Seq<char>>
    decreases s.len(),
{
    if s.len() == 0 {
        seq![Seq::empty()]
    } else {
        let p = segments(s.drop_last());
        if is_sep(s.last()) {
            p.push(Seq::empty())
        } else {
            p.update(p.len() - 1, p.last().push(s.last()))
        }
    }
}

proof fn lemma_segments_nonempty(s: Seq<char>)
    ensures
        segments(s).len() >= 1,
    decreases s.len(),
{
    if s.len() > 0 {
        lemma_segments_nonempty(s.drop_last());
    }
}

/// A piece that names something: not empty, not `.` and not `..`.
pub open spec fn normal_segment(seg: Seq<char>) -> bool {
    seg.len() > 0 && seg != seq!['.'] && seg != seq!['.', '.']
}

/// A path that stays where it is put on every platform: not empty, not
/// rooted, no drive or stream colon, and every piece a plain name.
pub open spec fn safe_relative(s: Seq<char>) -> bool {
    &&& s.len() > 0
    &&& !is_sep(s[0])
    &&& !contains(s, seq![':'])
    &&& forall|k: int| 0 <= k < segments(s).len() ==> normal_segment(#[trigger] segments(s)[k])
}

pub(crate) fn split_segments(s: &[char]) -> (out: Vec<Vec<char>>)
    ensures
        crate::text::views(out@) == segments(s@),
{
    let mut out: Vec<Vec<char>> = Vec::new();
    out.push(Vec::new());
    let mut i: usize = 0;
    assert(crate::text::views(out@) =~= segments(s@.take(0)));
    while i < s.len()
        invariant
            i <= s@.len(),
            out@.len() >= 1,
            crate::text::views(out@) == segments(s@.take(i as int)),
        decreases s@.len() - i,
    {
        assert(s@.take(i + 1).drop_last() =~= s@.take(i as int));
        let c = s[i];
        let ghost before = crate::text::views(out@);
        if c == '/' || c == '\\' {
            out.push(Vec::new());
            assert(crate::text::views(out@) =~= before.push(Seq::empty()));
        } else {
            let last = out.len() - 1;
            let mut seg = Vec::new();
            std::mem::swap(&mut seg, &mut out[last]);
            seg.push(c);
            out.set(last, seg);
            assert(crate::text::views(out@) =~= before.update(before.len() - 1, before.last().push(c)));
        }
        i = i + 1;
    }
    assert(s@.take(i as int) =~= s@);
    out
}

/// Whether `path` is a relative path safe on every platform.
pub fn is_safe_relative_path(path: &str) -> (b: bool)
    ensures
        b == safe_relative(path@),
{
    let s = chars_of(path);
    if s.len() == 0 || s[0] == '/' || s[0] == '\\' {
        return false;
    }
    let colon = vec![':'];
    if crate::text::contains_exec(s.as_slice(), colon.as_slice()) {
        assert(colon@ =~= seq![':']);
        return false;
    }
    assert(colon@ =~= seq![':']);
    let segs = split_segments(s.as_slice());
    let mut k: usize = 0;
    while k < segs.len()
        invariant
            k <= segs@.len(),
            crate::text::views(segs@) == segments(s@),
            s@ == path@,
            forall|j: int| 0 <= j < k ==> normal_segment(#[trigger] segments(path@)[j]),
        decreases segs@.len() - k,
    {
        let seg = &segs[k];
        assert(seg@ == segments(path@)[k as int]);
        let dot = seg.len() == 1 && seg[0] == '.';
        let dots = seg.len() == 2 && seg[0] == '.' && seg[1] == '.';
        if seg.len() == 0 || dot || dots {
            proof {
                if seg@.len() == 1 && !dot {
                    assert(seg@ != seq!['.']);
                }
                if dot {
                    assert(seg@ =~= seq!['.']);
                }
                if dots {
                    assert(seg@ =~= seq!['.', '.']);
                }
            }
            return false;
        }
        proof {
            if seg@ == seq!['.'] {
                assert(seg@[0] == '.');
            }
            if seg@ == seq!['.', '.'] {
                assert(seg@[0] == '.' && seg@[1] == '.');
            }
        }
        k = k + 1;
    }
    true
}

/// `base` joined with `rel` as a Unix path joins: a rooted `rel` replaces
/// `base`, and one separator goes between them.
pub open spec fn path_join(base: Seq<char>, rel: Seq<char>) -> Seq<char> {
    if rel.len() > 0 && rel[0] == '/' {
        rel
    } else if base.len() == 0 {
        rel
    } else if base.last() == '/' {
        base + rel
    } else {
        base + seq!['/'] + rel
    }
}

pub fn join_path(base: &str, rel: &str) -> (out: String)
    ensures
        out@ == path_join(base@, rel@),
{
    let b = chars_of(base);
    let r = chars_of(rel);
    if r.len() > 0 && r[0] == '/' {
        return string_of(r.as_slice());
    }
    if b.len() == 0 {
        return string_of(r.as_slice());
    }
    let mut out = b;
    if out[out.len() - 1] != '/' {
        out.push('/');
    }
    push_chars(&mut out, r.as_slice());
    string_of(out.as_slice())
}

/// A path as a person should see it: without the extended-length prefix
/// that Windows canonical paths carry.
pub open spec fn display_form(p: Seq<char>) -> Seq<char> {
    if has_prefix(p, "\\\\?\\UNC\\"@) {
        "\\\\"@ + p.skip("\\\\?\\UNC\\"@.len() as int)
    } else if has_prefix(p, "\\\\?\\"@) {
        p.skip("\\\\?\\"@.len() as int)
    } else {
        p
    }
}

pub fn display_path(path: &str) -> (out: String)
    ensures
        out@ == display_form(path@),
{
    let p = chars_of(path);
    match strip_prefix_exec(p.as_slice(), "\\\\?\\UNC\\") {
        Some(rest) => {
            let mut out: Vec<char> = Vec::new();
            push_str(&mut out, "\\\\");
            push_chars(&mut out, rest.as_slice());
            string_of(out.as_slice())
        },
        None => match strip_prefix_exec(p.as_slice(), "\\\\?\\") {
            Some(rest) => string_of(rest.as_slice()),
            None => string_of(p.as_slice()),
        },
    }
}

/// A path a test expectation names: relative to the test's scratch
/// directory, optionally spelled from `{temp_dir}/`.
pub open spec fn safe_expectation(value: Seq<char>) -> bool {
    let stripped = if has_prefix(value, "{temp_dir}/"@) {
        value.skip("{temp_dir}/"@.len() as int)
    } else {
        value
    };
    &&& !has_prefix(value, seq!['/'])
    &&& !has_prefix(value, seq!['\\'])
    &&& !contains(value, seq![':'])
    &&& safe_relative(stripped)
}

pub fn safe_expectation_path(value: &str) -> (b: bool)
    ensures
        b == safe_expectation(value@),
{
    let v = chars_of(value);
    let stripped = match strip_prefix_exec(v.as_slice(), "{temp_dir}/") {
        Some(rest) => string_of(rest.as_slice()),
        None => string_of(v.as_slice()),
    };
    let slash = vec!['/'];
    let back = vec!['\\'];
    let colon = vec![':'];
    assert(slash@ =~= seq!['/']);
    assert(back@ =~= seq!['\\']);
    assert(colon@ =~= seq![':']);
    !crate::text::starts_with(v.as_slice(), slash.as_slice())
        && !crate::text::starts_with(v.as_slice(), back.as_slice())
        && !crate::text::contains_exec(v.as_slice(), colon.as_slice())
        && is_safe_relative_path(stripped.as_str())
}

} // verus!
