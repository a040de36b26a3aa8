//! Text as sequences of characters: the conversions between `str` and
//! `Vec<char>`, and the handful of string operations the rest of the library
//! is written in, each with its meaning stated over `Seq<char>`.
use vstd::prelude::*;

verus! {

/// The characters of `s`, in order.
pub fn chars_of(s: &str) -> (out: Vec<char>)
    ensures
        out@ == s@,
{
    let mut out: Vec<char> = Vec::new();
    for c in it: s.chars()
        invariant
            out@ == it.seq().take(it.index() as int),
    {
        out.push(c);
    }
    out
}

/// `String`'s `FromIterator<char>`: the string made of `chars`, in order.
#[verifier::external_body]
pub(crate) fn string_of(chars: &[char]) -> (out: String)
    ensures
        out@ == chars@,
{
    String::from_iter(chars)
}

/// Append the characters of `s` to `out`.
pub fn push_str(out: &mut Vec<char>, s: &str)
    ensures
        final(out)@ == old(out)@ + s@,
{
    let ghost start = out@;
    for c in it: s.chars()
        invariant
            out@ == start + it.seq().take(it.index() as int),
    {
        out.push(c);
    }
}

/// Append `tail` to `out`.
pub fn push_chars(out: &mut Vec<char>, tail: &[char])
    ensures
        final(out)@ == old(out)@ + tail@,
{
    let ghost start = out@;
    let mut i: usize = 0;
    while i < tail.len()
        invariant
            i <= tail@.len(),
            out@ == start + tail@.take(i as int),
        decreases tail@.len() - i,
    {
        out.push(tail[i]);
        i = i + 1;
        assert(tail@.take(i as int) =~= tail@.take(i - 1) .push(tail@[i - 1]));
    }
    assert(tail@.take(i as int) =~= tail@);
}

/// `char::is_whitespace`: the Unicode `White_Space` property.
pub open spec fn is_ws(c: char) -> bool {
    let u = c as u32;
    ||| 0x09 <= u <= 0x0d
    ||| u == 0x20
    ||| u == 0x85
    ||| u == 0xa0
    ||| u == 0x1680
    ||| 0x2000 <= u <= 0x200a
    ||| u == 0x2028
    ||| u == 0x2029
    ||| u == 0x202f
    ||| u == 0x205f
    ||| u == 0x3000
}

pub fn is_whitespace(c: char) -> (b: bool)
    ensures
        b == is_ws(c),
{
    let u = c as u32;
    (0x09 <= u && u <= 0x0d) || u == 0x20 || u == 0x85 || u == 0xa0 || u == 0x1680 || (0x2000
        <= u && u <= 0x200a) || u == 0x2028 || u == 0x2029 || u == 0x202f || u == 0x205f || u
        == 0x3000
}

/// `str::trim_start`.
pub open spec fn trim_start(s: Seq<char>) -> Seq<char>
    decreases s.len(),
{
    if s.len() > 0 && is_ws(s[0]) {
        trim_start(s.drop_first())
    } else {
        s
    }
}

/// `str::trim_end`.
pub open spec fn trim_end(s: Seq<char>) -> Seq<char>
    decreases s.len(),
{
    if s.len() > 0 && is_ws(s.last()) {
        trim_end(s.drop_last())
    } else {
        s
    }
}

/// `str::trim`.
pub open spec fn trim(s: Seq<char>) -> Seq<char> {
    trim_end(trim_start(s))
}

/// Stripping leading whitespace that is already known to be whitespace.
pub proof fn lemma_trim_start_skip(s: Seq<char>, i: int)
    requires
        0 <= i <= s.len(),
        forall|k: int| 0 <= k < i ==> is_ws(#[trigger] s[k]),
    ensures
        trim_start(s) == trim_start(s.subrange(i, s.len() as int)),
    decreases i,
{
    if i > 0 {
        lemma_trim_start_skip(s.drop_first(), i - 1);
        assert(s.drop_first().subrange(i - 1, s.drop_first().len() as int) =~= s.subrange(
            i,
            s.len() as int,
        ));
    } else {
        assert(s.subrange(0, s.len() as int) =~= s);
    }
}

pub proof fn lemma_trim_end_take(s: Seq<char>, j: int)
    requires
        0 <= j <= s.len(),
        forall|k: int| j <= k < s.len() ==> is_ws(#[trigger] s[k]),
    ensures
        trim_end(s) == trim_end(s.subrange(0, j)),
    decreases s.len() - j,
{
    if j < s.len() {
        lemma_trim_end_take(s.drop_last(), j);
        assert(s.drop_last().subrange(0, j) =~= s.subrange(0, j));
    } else {
        assert(s.subrange(0, j) =~= s);
    }
}

/// Bounds `(a, b)` such that `s[a..b]` is `s` trimmed.
pub fn trim_bounds(s: &[char]) -> (r: (usize, usize))
    ensures
        r.0 <= r.1 <= s@.len(),
        s@.subrange(r.0 as int, r.1 as int) == trim(s@),
        trim_start(s@) == s@.subrange(r.0 as int, s@.len() as int),
{
    let n = s.len();
    let mut a: usize = 0;
    while a < n && is_whitespace(s[a])
        invariant
            a <= n == s@.len(),
            forall|k: int| 0 <= k < a ==> is_ws(#[trigger] s@[k]),
        decreases n - a,
    {
        a = a + 1;
    }
    proof {
        lemma_trim_start_skip(s@, a as int);
        let rest = s@.subrange(a as int, n as int);
        if rest.len() > 0 {
            assert(rest[0] == s@[a as int]);
        }
        assert(trim_start(rest) == rest);
    }
    let mut b: usize = n;
    while b > a && is_whitespace(s[b - 1])
        invariant
            a <= b <= n == s@.len(),
            forall|k: int| b <= k < n ==> is_ws(#[trigger] s@[k]),
        decreases b - a,
    {
        b = b - 1;
    }
    proof {
        let rest = s@.subrange(a as int, n as int);
        lemma_trim_end_take(rest, b - a);
        assert(rest.subrange(0, b - a) =~= s@.subrange(a as int, b as int));
        let t = s@.subrange(a as int, b as int);
        if t.len() > 0 {
            assert(t.last() == s@[b - 1]);
        }
        assert(trim_end(t) == t);
    }
    (a, b)
}

/// `str::trim_end`, on characters.
pub fn trim_end_chars(s: &[char]) -> (out: Vec<char>)
    ensures
        out@ == trim_end(s@),
{
    let mut b: usize = s.len();
    while b > 0 && is_whitespace(s[b - 1])
        invariant
            b <= s@.len(),
            forall|k: int| b <= k < s@.len() ==> is_ws(#[trigger] s@[k]),
        decreases b,
    {
        b = b - 1;
    }
    proof {
        lemma_trim_end_take(s@, b as int);
        let t = s@.subrange(0, b as int);
        if t.len() > 0 {
            assert(t.last() == s@[b - 1]);
        }
        assert(trim_end(t) == t);
    }
    slice_chars(s, 0, b)
}

/// `str::trim`, on characters.
pub fn trim_chars(s: &[char]) -> (out: Vec<char>)
    ensures
        out@ == trim(s@),
{
    let (a, b) = trim_bounds(s);
    slice_chars(s, a, b)
}

/// A copy of `s[a..b]`.
pub fn slice_chars(s: &[char], a: usize, b: usize) -> (out: Vec<char>)
    requires
        a <= b <= s@.len(),
    ensures
        out@ == s@.subrange(a as int, b as int),
{
    let mut out: Vec<char> = Vec::new();
    let mut i = a;
    while i < b
        invariant
            a <= i <= b <= s@.len(),
            out@ == s@.subrange(a as int, i as int),
        decreases b - i,
    {
        out.push(s[i]);
        i = i + 1;
        assert(out@ =~= s@.subrange(a as int, i as int));
    }
    out
}

/// `prefix` is a prefix of `s`.
pub open spec fn has_prefix(s: Seq<char>, prefix: Seq<char>) -> bool {
    prefix.len() <= s.len() && s.subrange(0, prefix.len() as int) == prefix
}

/// `pattern` occurs in `s` starting at `i`.
pub open spec fn matches_at(s: Seq<char>, i: int, pattern: Seq<char>) -> bool {
    0 <= i && i + pattern.len() <= s.len() && s.subrange(i, i + pattern.len()) == pattern
}

pub fn matches_at_exec(s: &[char], i: usize, pattern: &[char]) -> (b: bool)
    ensures
        b == matches_at(s@, i as int, pattern@),
{
    if i > s.len() || pattern.len() > s.len() - i {
        return false;
    }
    let mut k: usize = 0;
    while k < pattern.len()
        invariant
            i + pattern@.len() <= s@.len(),
            s@.len() == s.len(),
            pattern@.len() == pattern.len(),
            k <= pattern@.len(),
            forall|j: int| 0 <= j < k ==> s@[i + j] == pattern@[j],
        decreases pattern@.len() - k,
    {
        if s[i + k] != pattern[k] {
            assert(s@.subrange(i as int, i + pattern@.len())[k as int] != pattern@[k as int]);
            return false;
        }
        k = k + 1;
    }
    assert(s@.subrange(i as int, i + pattern@.len()) =~= pattern@);
    true
}

pub fn starts_with(s: &[char], prefix: &[char]) -> (b: bool)
    ensures
        b == has_prefix(s@, prefix@),
{
    matches_at_exec(s, 0, prefix)
}

/// The views of a vector of character vectors.
pub open spec fn views(v: Seq<Vec<char>>) -> Seq<Seq<char>> {
    v.map_values(|l: Vec<char>| l@)
}

/// Index of the first `c` in `s`, or `s.len()` when there is none.
pub open spec fn index_of(s: Seq<char>, c: char) -> int
    decreases s.len(),
{
    if s.len() == 0 {
        0
    } else if s[0] == c {
        0
    } else {
        1 + index_of(s.drop_first(), c)
    }
}

pub proof fn lemma_index_of(s: Seq<char>, c: char)
    ensures
        0 <= index_of(s, c) <= s.len(),
        forall|k: int| 0 <= k < index_of(s, c) ==> s[k] != c,
        index_of(s, c) < s.len() ==> s[index_of(s, c)] == c,
    decreases s.len(),
{
    if s.len() > 0 && s[0] != c {
        lemma_index_of(s.drop_first(), c);
        assert forall|k: int| 0 <= k < index_of(s, c) implies s[k] != c by {
            if k > 0 {
                assert(s[k] == s.drop_first()[k - 1]);
            }
        }
    }
}

/// The position found by scanning: no `c` before `i`, and `c` at `i` (or `i`
/// is the end).
pub proof fn lemma_index_of_is(s: Seq<char>, c: char, i: int)
    requires
        0 <= i <= s.len(),
        forall|k: int| 0 <= k < i ==> s[k] != c,
        i < s.len() ==> s[i] == c,
    ensures
        index_of(s, c) == i,
    decreases s.len(),
{
    if s.len() > 0 && i > 0 {
        assert forall|k: int| 0 <= k < i - 1 implies s.drop_first()[k] != c by {
            assert(s.drop_first()[k] == s[k + 1]);
        }
        lemma_index_of_is(s.drop_first(), c, i - 1);
    }
}

/// Drop one trailing carriage return.
pub open spec fn strip_cr(s: Seq<char>) -> Seq<char> {
    if s.len() > 0 && s.last() == '\r' {
        s.drop_last()
    } else {
        s
    }
}

/// `str::lines`: split at `\n`, drop the `\r` of a `\r\n`, and no empty
/// line after a final line ending.
pub open spec fn lines(s: Seq<char>) -> Seq<Seq<char>>
    decreases s.len(),
{
    if s.len() == 0 {
        Seq::empty()
    } else {
        let i = index_of(s, '\n');
        proof {
            lemma_index_of(s, '\n');
        }
        if i >= s.len() {
            seq![s]
        } else {
            seq![strip_cr(s.take(i))] + lines(s.skip(i + 1))
        }
    }
}

/// `str::lines`, on characters.
pub fn lines_of(s: &[char]) -> (out: Vec<Vec<char>>)
    ensures
        views(out@) == lines(s@),
{
    let n = s.len();
    let mut out: Vec<Vec<char>> = Vec::new();
    let mut start: usize = 0;
    let mut i: usize = 0;
    assert(s@.skip(0) =~= s@);
    assert(views(out@) + lines(s@) =~= lines(s@));
    while i < n
        invariant
            start <= i <= n == s@.len(),
            lines(s@) == views(out@) + lines(s@.skip(start as int)),
            forall|k: int| start <= k < i ==> s@[k] != '\n',
        decreases n - i,
    {
        if s[i] == '\n' {
            let ghost rest = s@.skip(start as int);
            proof {
                lemma_index_of_is(rest, '\n', i - start);
                assert(rest.take(i - start) =~= s@.subrange(start as int, i as int));
                assert(rest.skip(i - start + 1) =~= s@.skip(i + 1));
            }
            let mut end = i;
            if end > start && s[end - 1] == '\r' {
                end = end - 1;
            }
            let line = slice_chars(s, start, end);
            proof {
                let seg = s@.subrange(start as int, i as int);
                assert(strip_cr(seg) =~= line@);
            }
            out.push(line);
            proof {
                assert(views(out@) =~= views(out@.drop_last()) + seq![line@]);
            }
            start = i + 1;
        }
        i = i + 1;
    }
    if start < n {
        let ghost rest = s@.skip(start as int);
        proof {
            lemma_index_of_is(rest, '\n', n - start);
            assert(rest =~= s@.subrange(start as int, n as int));
        }
        let line = slice_chars(s, start, n);
        out.push(line);
        proof {
            assert(views(out@) =~= views(out@.drop_last()) + seq![line@]);
        }
    } else {
        assert(s@.skip(start as int) =~= Seq::<char>::empty());
        assert(views(out@) + Seq::<Seq<char>>::empty() =~= views(out@));
    }
    out
}

/// `str::replace` with a non-empty pattern: every leftmost, non-overlapping
/// occurrence of `pattern` in `s` becomes `with`.
pub open spec fn replace(s: Seq<char>, pattern: Seq<char>, with: Seq<char>) -> Seq<char>
    decreases s.len(),
{
    if pattern.len() == 0 {
        interleave(s, with)
    } else if s.len() < pattern.len() {
        s
    } else if s.take(pattern.len() as int) == pattern {
        with + replace(s.skip(pattern.len() as int), pattern, with)
    } else {
        seq![s[0]] + replace(s.drop_first(), pattern, with)
    }
}

pub proof fn lemma_replace_short(s: Seq<char>, pattern: Seq<char>, with: Seq<char>)
    requires
        s.len() < pattern.len(),
    ensures
        replace(s, pattern, with) == s,
{
}

/// `with` before, between and after the characters of `s`: what replacing
/// the empty pattern gives.
pub open spec fn interleave(s: Seq<char>, with: Seq<char>) -> Seq<char>
    decreases s.len(),
{
    if s.len() == 0 {
        with
    } else {
        with + seq![s[0]] + interleave(s.drop_first(), with)
    }
}

fn interleave_exec(s: &[char], with: &[char]) -> (out: Vec<char>)
    ensures
        out@ == interleave(s@, with@),
{
    let mut out: Vec<char> = Vec::new();
    let mut i: usize = 0;
    assert(s@.skip(0) =~= s@);
    while i < s.len()
        invariant
            i <= s@.len(),
            interleave(s@, with@) == out@ + interleave(s@.skip(i as int), with@),
        decreases s@.len() - i,
    {
        assert(s@.skip(i as int).drop_first() =~= s@.skip(i + 1));
        push_chars(&mut out, with);
        out.push(s[i]);
        i = i + 1;
    }
    push_chars(&mut out, with);
    assert(s@.skip(i as int).len() == 0);
    out
}

/// `str::replace`, for any pattern.
pub fn replace_str(s: &[char], pattern: &[char], with: &[char]) -> (out: Vec<char>)
    ensures
        out@ == replace(s@, pattern@, with@),
{
    if pattern.len() == 0 {
        interleave_exec(s, with)
    } else {
        replace_all(s, pattern, with)
    }
}

/// `str::replace`, on characters.
pub fn replace_all(s: &[char], pattern: &[char], with: &[char]) -> (out: Vec<char>)
    requires
        pattern@.len() > 0,
    ensures
        out@ == replace(s@, pattern@, with@),
{
    let n = s.len();
    let m = pattern.len();
    let mut out: Vec<char> = Vec::new();
    let mut i: usize = 0;
    assert(s@.skip(0) =~= s@);
    while i < n
        invariant
            i <= n == s@.len(),
            m == pattern@.len() > 0,
            replace(s@, pattern@, with@) == out@ + replace(s@.skip(i as int), pattern@, with@),
        decreases n - i,
    {
        let ghost rest = s@.skip(i as int);
        if matches_at_exec(s, i, pattern) {
            proof {
                assert(rest.take(m as int) =~= s@.subrange(i as int, i + m));
                assert(rest.skip(m as int) =~= s@.skip(i + m));
            }
            push_chars(&mut out, with);
            i = i + m;
        } else {
            proof {
                if rest.len() >= m {
                    assert(rest.take(m as int) =~= s@.subrange(i as int, i + m));
                } else {
                    assert(rest =~= seq![rest[0]] + rest.drop_first());
                }
                assert(rest.drop_first() =~= s@.skip(i + 1));
                assert(rest[0] == s@[i as int]);
            }
            out.push(s[i]);
            i = i + 1;
        }
    }
    assert(s@.skip(i as int) =~= Seq::<char>::empty());
    assert(out@ + Seq::<char>::empty() =~= out@);
    out
}

/// The first occurrence of `pattern` in `s` at or after `from`.
pub fn find_from(s: &[char], from: usize, pattern: &[char]) -> (r: Option<usize>)
    ensures
        match r {
            Some(k) => from <= k && matches_at(s@, k as int, pattern@) && forall|j: int|
                from <= j < k ==> !matches_at(s@, j, pattern@),
            None => forall|j: int| from <= j ==> !matches_at(s@, j, pattern@),
        },
{
    let mut k = from;
    while k < s.len()
        invariant
            from <= k,
            forall|j: int| from <= j < k ==> !matches_at(s@, j, pattern@),
        decreases s@.len() - k,
    {
        if matches_at_exec(s, k, pattern) {
            return Some(k);
        }
        k = k + 1;
    }
    if matches_at_exec(s, k, pattern) {
        return Some(k);
    }
    assert forall|j: int| from <= j implies !matches_at(s@, j, pattern@) by {
        if j > k {
            assert(j + pattern@.len() > s@.len());
        }
    }
    None
}

/// `pattern` occurs somewhere in `s`.
pub open spec fn contains(s: Seq<char>, pattern: Seq<char>) -> bool {
    exists|j: int| matches_at(s, j, pattern)
}

/// `str::contains` with a string pattern.
pub fn contains_exec(s: &[char], pattern: &[char]) -> (b: bool)
    ensures
        b == contains(s@, pattern@),
{
    match find_from(s, 0, pattern) {
        Some(_) => true,
        None => {
            assert forall|j: int| !matches_at(s@, j, pattern@) by {
                if j < 0 {
                }
            }
            false
        },
    }
}

/// `str::contains` with a string literal pattern.
pub fn contains_str(s: &[char], pattern: &str) -> (b: bool)
    ensures
        b == contains(s@, pattern@),
{
    let p = chars_of(pattern);
    contains_exec(s, &p)
}

/// The first index of `c` in `s`, as `find` reports it.
pub fn index_of_exec(s: &[char], c: char) -> (i: usize)
    ensures
        i == index_of(s@, c),
{
    let mut i: usize = 0;
    while i < s.len() && s[i] != c
        invariant
            i <= s@.len(),
            forall|k: int| 0 <= k < i ==> s@[k] != c,
        decreases s@.len() - i,
    {
        i = i + 1;
    }
    proof {
        lemma_index_of_is(s@, c, i as int);
    }
    i
}

/// `parts` joined by `sep`, as `[T]::join` does.
pub open spec fn join(parts: Seq<Seq<char>>, sep: Seq<char>) -> Seq<char>
    decreases parts.len(),
{
    if parts.len() == 0 {
        Seq::empty()
    } else if parts.len() == 1 {
        parts[0]
    } else {
        join(parts.drop_last(), sep) + sep + parts.last()
    }
}

pub fn join_chars(parts: &Vec<Vec<char>>, sep: &[char]) -> (out: Vec<char>)
    ensures
        out@ == join(views(parts@), sep@),
{
    let mut out: Vec<char> = Vec::new();
    let mut i: usize = 0;
    while i < parts.len()
        invariant
            i <= parts@.len(),
            out@ == join(views(parts@).take(i as int), sep@),
        decreases parts@.len() - i,
    {
        proof {
            assert(views(parts@).take(i + 1).drop_last() =~= views(parts@).take(i as int));
        }
        if i > 0 {
            push_chars(&mut out, sep);
        }
        push_chars(&mut out, parts[i].as_slice());
        i = i + 1;
        proof {
            if i == 1 {
                assert(out@ =~= views(parts@).take(1)[0]);
            }
        }
    }
    assert(views(parts@).take(i as int) =~= views(parts@));
    out
}

/// `c` is an ASCII letter or digit.
pub open spec fn is_ascii_alnum(c: char) -> bool {
    let u = c as u32;
    (48 <= u <= 57) || (65 <= u <= 90) || (97 <= u <= 122)
}

pub fn is_ascii_alphanumeric(c: char) -> (b: bool)
    ensures
        b == is_ascii_alnum(c),
{
    let u = c as u32;
    (48 <= u && u <= 57) || (65 <= u && u <= 90) || (97 <= u && u <= 122)
}

pub open spec fn is_ascii_digit(c: char) -> bool {
    48 <= (c as u32) <= 57
}

pub open spec fn is_ascii_lower(c: char) -> bool {
    97 <= (c as u32) <= 122
}

pub open spec fn is_ascii_upper(c: char) -> bool {
    65 <= (c as u32) <= 90
}

/// `char::to_ascii_lowercase`.
pub open spec fn lower(c: char) -> char {
    if is_ascii_upper(c) {
        ((c as u32) + 32) as char
    } else {
        c
    }
}

pub fn to_ascii_lowercase(c: char) -> (out: char)
    ensures
        out == lower(c),
{
    if 'A' <= c && c <= 'Z' {
        ((c as u8) + 32) as char
    } else {
        c
    }
}

/// `str::to_ascii_lowercase`.
pub open spec fn lower_all(s: Seq<char>) -> Seq<char> {
    s.map_values(|c: char| lower(c))
}

pub fn lowercase_chars(s: &[char]) -> (out: Vec<char>)
    ensures
        out@ == lower_all(s@),
{
    let mut out: Vec<char> = Vec::new();
    let mut i: usize = 0;
    while i < s.len()
        invariant
            i <= s@.len(),
            out@ == lower_all(s@.take(i as int)),
        decreases s@.len() - i,
    {
        out.push(to_ascii_lowercase(s[i]));
        i = i + 1;
        assert(lower_all(s@.take(i as int)) =~= lower_all(s@.take(i - 1)).push(lower(s@[i - 1])));
    }
    assert(s@.take(i as int) =~= s@);
    out
}

/// The decimal digit for `d < 10`.
pub open spec fn digit(d: nat) -> char {
    (48 + d) as char
}

/// `n` written in decimal, as `Display` writes an unsigned integer.
pub open spec fn decimal(n: nat) -> Seq<char>
    decreases n,
{
    if n < 10 {
        seq![digit(n)]
    } else {
        decimal(n / 10) + seq![digit(n % 10)]
    }
}

/// Append `n` in decimal to `out`.
pub fn push_decimal(out: &mut Vec<char>, n: u64)
    ensures
        final(out)@ == old(out)@ + decimal(n as nat),
    decreases n,
{
    if n >= 10 {
        push_decimal(out, n / 10);
    }
    let d = (n % 10) as u8;
    out.push((48u8 + d) as char);
    assert((48u8 + d) as char == digit((n % 10) as nat));
}

/// Append `n` in decimal to `out`.
pub fn push_decimal_wide(out: &mut Vec<char>, n: u128)
    ensures
        final(out)@ == old(out)@ + decimal(n as nat),
    decreases n,
{
    if n >= 10 {
        push_decimal_wide(out, n / 10);
    }
    let d = (n % 10) as u8;
    out.push((48u8 + d) as char);
    assert((48u8 + d) as char == digit((n % 10) as nat));
}

/// The lowercase hexadecimal digit for `d < 16`.
pub open spec fn hex_digit(d: u64) -> char {
    if d < 10 {
        (48 + d) as char
    } else {
        (87 + d) as char
    }
}

/// `n` as sixteen lowercase hexadecimal digits, most significant first, as
/// `format!("{n:016x}")` writes it.
pub open spec fn hex16(n: u64) -> Seq<char> {
    Seq::new(16, |i: int| hex_digit((n >> ((60 - 4 * i) as u64)) & 0xf))
}

pub fn push_hex16(out: &mut Vec<char>, n: u64)
    ensures
        final(out)@ == old(out)@ + hex16(n),
{
    let ghost start = out@;
    let mut i: u64 = 0;
    while i < 16
        invariant
            i <= 16,
            out@ == start + hex16(n).take(i as int),
        decreases 16 - i,
    {
        let shifted = n >> (60 - 4 * i);
        let d = shifted & 0xf;
        assert(d < 16) by (bit_vector)
            requires
                d == shifted & 0xf,
        ;
        let c = if d < 10 {
            (48u8 + d as u8) as char
        } else {
            (87u8 + d as u8) as char
        };
        assert(c == hex_digit(d));
        out.push(c);
        i = i + 1;
        assert(hex16(n).take(i as int) =~= hex16(n).take(i - 1).push(hex16(n)[i - 1]));
    }
    assert(hex16(n).take(16) =~= hex16(n));
}

/// `str::trim_start_matches(c)`.
pub open spec fn strip_leading(s: Seq<char>, c: char) -> Seq<char>
    decreases s.len(),
{
    if s.len() > 0 && s[0] == c {
        strip_leading(s.drop_first(), c)
    } else {
        s
    }
}

/// `str::trim_end_matches(c)`.
pub open spec fn strip_trailing(s: Seq<char>, c: char) -> Seq<char>
    decreases s.len(),
{
    if s.len() > 0 && s.last() == c {
        strip_trailing(s.drop_last(), c)
    } else {
        s
    }
}

pub fn strip_leading_exec(s: &[char], c: char) -> (out: Vec<char>)
    ensures
        out@ == strip_leading(s@, c),
{
    let mut a: usize = 0;
    assert(s@.skip(0) =~= s@);
    while a < s.len() && s[a] == c
        invariant
            a <= s@.len(),
            strip_leading(s@, c) == strip_leading(s@.skip(a as int), c),
        decreases s@.len() - a,
    {
        assert(s@.skip(a as int).drop_first() =~= s@.skip(a + 1));
        a = a + 1;
    }
    assert(s@.skip(a as int) =~= s@.subrange(a as int, s@.len() as int));
    slice_chars(s, a, s.len())
}

pub fn strip_trailing_exec(s: &[char], c: char) -> (out: Vec<char>)
    ensures
        out@ == strip_trailing(s@, c),
{
    let mut b: usize = s.len();
    assert(s@.take(b as int) =~= s@);
    while b > 0 && s[b - 1] == c
        invariant
            b <= s@.len(),
            strip_trailing(s@, c) == strip_trailing(s@.take(b as int), c),
        decreases b,
    {
        assert(s@.take(b as int).drop_last() =~= s@.take(b - 1));
        b = b - 1;
    }
    assert(s@.take(b as int) =~= s@.subrange(0, b as int));
    slice_chars(s, 0, b)
}

/// `str::split(c)`: the pieces between occurrences of `c`, empty ones
/// included.
pub open spec fn split(s: Seq<char>, c: char) -> Seq<Seq<char>>
    decreases s.len(),
{
    let i = index_of(s, c);
    proof {
        lemma_index_of(s, c);
    }
    if i >= s.len() {
        seq![s]
    } else {
        seq![s.take(i)] + split(s.skip(i + 1), c)
    }
}

pub fn split_exec(s: &[char], c: char) -> (out: Vec<Vec<char>>)
    ensures
        views(out@) == split(s@, c),
{
    let n = s.len();
    let mut out: Vec<Vec<char>> = Vec::new();
    let mut start: usize = 0;
    let mut i: usize = 0;
    assert(s@.skip(0) =~= s@);
    assert(views(out@) + split(s@, c) =~= split(s@, c));
    while i < n
        invariant
            start <= i <= n == s@.len(),
            split(s@, c) == views(out@) + split(s@.skip(start as int), c),
            forall|k: int| start <= k < i ==> s@[k] != c,
        decreases n - i,
    {
        if s[i] == c {
            let ghost rest = s@.skip(start as int);
            proof {
                lemma_index_of_is(rest, c, i - start);
                assert(rest.take(i - start) =~= s@.subrange(start as int, i as int));
                assert(rest.skip(i - start + 1) =~= s@.skip(i + 1));
            }
            let piece = slice_chars(s, start, i);
            out.push(piece);
            assert(views(out@) =~= views(out@.drop_last()) + seq![piece@]);
            start = i + 1;
        }
        i = i + 1;
    }
    let ghost rest = s@.skip(start as int);
    proof {
        lemma_index_of_is(rest, c, n - start);
        assert(rest =~= s@.subrange(start as int, n as int));
    }
    let piece = slice_chars(s, start, n);
    out.push(piece);
    assert(views(out@) =~= views(out@.drop_last()) + seq![piece@]);
    out
}

/// The first occurrence of `pattern` in `s` at or after `k`, if any.
pub open spec fn first_match(s: Seq<char>, pattern: Seq<char>, k: int) -> Option<int>
    decreases s.len() + 1 - k,
{
    if k < 0 || k > s.len() || k + pattern.len() > s.len() {
        None
    } else if matches_at(s, k, pattern) {
        Some(k)
    } else {
        first_match(s, pattern, k + 1)
    }
}

pub proof fn lemma_first_match_found(s: Seq<char>, pattern: Seq<char>, j: int, k: int)
    requires
        0 <= j <= k,
        matches_at(s, k, pattern),
        forall|i: int| j <= i < k ==> !matches_at(s, i, pattern),
    ensures
        first_match(s, pattern, j) == Some(k),
    decreases k - j,
{
    if j < k {
        lemma_first_match_found(s, pattern, j + 1, k);
    }
}

pub proof fn lemma_first_match_none(s: Seq<char>, pattern: Seq<char>, j: int)
    requires
        0 <= j,
        forall|i: int| j <= i ==> !matches_at(s, i, pattern),
    ensures
        first_match(s, pattern, j) is None,
    decreases s.len() + 1 - j,
{
    if j + pattern.len() <= s.len() && j <= s.len() {
        if pattern.len() == 0 {
            assert(s.subrange(j, j) =~= pattern);
            assert(matches_at(s, j, pattern));
        }
        lemma_first_match_none(s, pattern, j + 1);
    }
}

/// `str::split_once(pattern)`: the text before and after the first
/// occurrence.
pub open spec fn split_once(s: Seq<char>, pattern: Seq<char>) -> Option<(Seq<char>, Seq<char>)> {
    match first_match(s, pattern, 0) {
        Some(k) => Some((s.take(k), s.skip(k + pattern.len()))),
        None => None,
    }
}

pub fn split_once_exec(s: &[char], pattern: &[char]) -> (r: Option<(Vec<char>, Vec<char>)>)
    ensures
        match split_once(s@, pattern@) {
            Some((a, b)) => r matches Some((x, y)) && x@ == a && y@ == b,
            None => r is None,
        },
{
    match find_from(s, 0, pattern) {
        Some(k) => {
            proof {
                lemma_first_match_found(s@, pattern@, 0, k as int);
            }
            assert(k + pattern@.len() <= s@.len());
            assert(pattern.len() == pattern@.len());
            assert(s.len() == s@.len());
            let b_start = k + pattern.len();
            let a = slice_chars(s, 0, k);
            let b = slice_chars(s, b_start, s.len());
            assert(a@ =~= s@.take(k as int));
            assert(b@ =~= s@.skip(k + pattern@.len()));
            Some((a, b))
        },
        None => {
            proof {
                lemma_first_match_none(s@, pattern@, 0);
            }
            None
        },
    }
}

/// `str::split(pattern)` for a non-empty pattern: the pieces between
/// leftmost, non-overlapping occurrences.
pub open spec fn split_on(s: Seq<char>, pattern: Seq<char>) -> Seq<Seq<char>>
    decreases s.len(),
{
    match first_match(s, pattern, 0) {
        Some(k) => if pattern.len() > 0 && 0 <= k && k + pattern.len() <= s.len() {
            seq![s.take(k)] + split_on(s.skip(k + pattern.len()), pattern)
        } else {
            seq![s]
        },
        None => seq![s],
    }
}

pub fn split_on_exec(s: &[char], pattern: &[char]) -> (out: Vec<Vec<char>>)
    requires
        pattern@.len() > 0,
    ensures
        views(out@) == split_on(s@, pattern@),
{
    let n = s.len();
    let mut out: Vec<Vec<char>> = Vec::new();
    let mut start: usize = 0;
    assert(s@.skip(0) =~= s@);
    assert(views(out@) + split_on(s@, pattern@) =~= split_on(s@, pattern@));
    loop
        invariant
            start <= n == s@.len(),
            pattern@.len() > 0,
            split_on(s@, pattern@) == views(out@) + split_on(s@.skip(start as int), pattern@),
        decreases n - start,
    {
        let rest = slice_chars(s, start, n);
        assert(rest@ =~= s@.skip(start as int));
        match find_from(rest.as_slice(), 0, pattern) {
            Some(k) => {
                proof {
                    lemma_first_match_found(rest@, pattern@, 0, k as int);
                    assert(rest@.skip(k + pattern@.len()) =~= s@.skip(start + k + pattern@.len()));
                }
                let piece = slice_chars(rest.as_slice(), 0, k);
                assert(piece@ =~= rest@.take(k as int));
                out.push(piece);
                assert(views(out@) =~= views(out@.drop_last()) + seq![piece@]);
                start = start + k + pattern.len();
            },
            None => {
                proof {
                    lemma_first_match_none(rest@, pattern@, 0);
                }
                out.push(rest);
                assert(views(out@) =~= views(out@.drop_last()) + seq![rest@]);
                return out;
            },
        }
    }
}

/// The characters of `s` after `prefix`, when `s` starts with it.
pub fn strip_prefix_exec(s: &[char], prefix: &str) -> (r: Option<Vec<char>>)
    ensures
        match r {
            Some(rest) => has_prefix(s@, prefix@) && rest@ == s@.skip(prefix@.len() as int),
            None => !has_prefix(s@, prefix@),
        },
{
    let p = chars_of(prefix);
    if starts_with(s, p.as_slice()) {
        let rest = slice_chars(s, p.len(), s.len());
        assert(rest@ =~= s@.skip(prefix@.len() as int));
        Some(rest)
    } else {
        None
    }
}

/// Two character sequences are equal.
pub fn chars_eq(a: &[char], b: &[char]) -> (r: bool)
    ensures
        r == (a@ == b@),
{
    if a.len() != b.len() {
        return false;
    }
    let r = matches_at_exec(a, 0, b);
    assert(r ==> a@.subrange(0, b@.len() as int) =~= a@);
    assert(a@ == b@ ==> a@.subrange(0, b@.len() as int) =~= a@);
    r
}

/// A character sequence equals a string.
pub fn chars_eq_str(a: &[char], b: &str) -> (r: bool)
    ensures
        r == (a@ == b@),
{
    let bc = chars_of(b);
    chars_eq(a, bc.as_slice())
}

/// A copy of a character vector.
pub fn copy_chars(a: &Vec<char>) -> (out: Vec<char>)
    ensures
        out@ == a@,
{
    let out = slice_chars(a.as_slice(), 0, a.len());
    assert(out@ =~= a@);
    out
}

/// A copy of a string.
pub fn copy_string(a: &String) -> (out: String)
    ensures
        out@ == a@,
{
    let c = chars_of(a.as_str());
    string_of(c.as_slice())
}

/// The value of a run of ASCII digits.
pub open spec fn digits_value(d: Seq<char>) -> nat
    decreases d.len(),
{
    if d.len() == 0 {
        0
    } else {
        digits_value(d.drop_last()) * 10 + ((d.last() as u32 - 48) as nat)
    }
}

/// Every character is an ASCII digit.
pub open spec fn only_digits(d: Seq<char>) -> bool {
    forall|k: int| 0 <= k < d.len() ==> is_ascii_digit(#[trigger] d[k])
}

/// `str::parse::<usize>`: an optional `+`, then at least one ASCII digit, and
/// a value that fits.
pub open spec fn parse_usize_spec(s: Seq<char>) -> Option<nat> {
    let d = if s.len() > 0 && s[0] == '+' {
        s.drop_first()
    } else {
        s
    };
    if d.len() > 0 && only_digits(d) && digits_value(d) <= usize::MAX {
        Some(digits_value(d))
    } else {
        None
    }
}

proof fn lemma_digits_value_grows(d: Seq<char>, k: int)
    requires
        0 <= k <= d.len(),
        only_digits(d),
    ensures
        digits_value(d.take(k)) <= digits_value(d),
    decreases d.len() - k,
{
    if k < d.len() {
        lemma_digits_value_grows(d, k + 1);
        assert(d.take(k + 1).drop_last() =~= d.take(k));
    } else {
        assert(d.take(k) =~= d);
    }
}

pub fn parse_usize(s: &[char]) -> (r: Option<usize>)
    ensures
        match parse_usize_spec(s@) {
            Some(n) => r == Some(n as usize),
            None => r is None,
        },
{
    let start: usize = if s.len() > 0 && s[0] == '+' {
        1
    } else {
        0
    };
    let ghost d = if s@.len() > 0 && s@[0] == '+' {
        s@.drop_first()
    } else {
        s@
    };
    assert(d =~= s@.skip(start as int));
    if start == s.len() {
        return None;
    }
    let mut n: usize = 0;
    let mut i: usize = start;
    while i < s.len()
        invariant
            start <= i <= s@.len(),
            d == s@.skip(start as int),
            d == (if s@.len() > 0 && s@[0] == '+' {
                s@.drop_first()
            } else {
                s@
            }),
            only_digits(d.take(i - start)),
            n as nat == digits_value(d.take(i - start)),
        decreases s@.len() - i,
    {
        let c = s[i];
        assert(d.take(i - start + 1).drop_last() =~= d.take(i - start));
        assert(d[i - start] == c);
        if !(48 <= (c as u32) && (c as u32) <= 57) {
            assert(!is_ascii_digit(d[i - start]));
            assert(!only_digits(d));
            return None;
        }
        let v: usize = ((c as u32) - 48) as usize;
        if n > (usize::MAX - v) / 10 {
            proof {
                assert(only_digits(d.take(i - start + 1))) by {
                    assert forall|k: int| 0 <= k < i - start + 1 implies is_ascii_digit(
                        #[trigger] d.take(i - start + 1)[k],
                    ) by {
                        if k < i - start {
                            assert(d.take(i - start + 1)[k] == d.take(i - start)[k]);
                        }
                    }
                }
                assert(digits_value(d.take(i - start + 1)) == n * 10 + v);
                assert(n * 10 + v > usize::MAX) by (nonlinear_arith)
                    requires
                        n > (usize::MAX - v) / 10,
                        v <= 9,
                ;
                if only_digits(d) {
                    lemma_digits_value_grows(d, i - start + 1);
                    assert(digits_value(d) > usize::MAX);
                }
            }
            return None;
        }
        assert(n * 10 + v <= usize::MAX) by (nonlinear_arith)
            requires
                n <= (usize::MAX - v) / 10,
                v <= 9,
        ;
        n = n * 10 + v;
        i = i + 1;
        assert forall|k: int| 0 <= k < i - start implies is_ascii_digit(#[trigger] d.take(i - start)[k]) by {
            if k < i - start - 1 {
                assert(d.take(i - start)[k] == d.take(i - start - 1)[k]);
            }
        }
    }
    assert(d.take(i - start) =~= d);
    Some(n)
}

} // verus!
