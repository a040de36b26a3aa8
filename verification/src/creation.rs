//! Project creation: the rule for a project's name.
use vstd::prelude::*;

use crate::text::{chars_of, is_ascii_alnum, lower_all, push_str, string_of, trim, trim_chars};

verus! {

/// Longest project name, in characters.
pub const MAX_NAME_LENGTH: usize = 64;

/// Stems Windows refuses to create files with, whatever the extension.
pub const RESERVED_NAMES: [&'static str; 22] = [
    "con",
    "prn",
    "aux",
    "nul",
    "com1",
    "com2",
    "com3",
    "com4",
    "com5",
    "com6",
    "com7",
    "com8",
    "com9",
    "lpt1",
    "lpt2",
    "lpt3",
    "lpt4",
    "lpt5",
    "lpt6",
    "lpt7",
    "lpt8",
    "lpt9",
];

pub open spec fn reserved_names() -> Seq<Seq<char>> {
    seq![
        "con"@, "prn"@, "aux"@, "nul"@, "com1"@, "com2"@, "com3"@, "com4"@, "com5"@, "com6"@,
        "com7"@, "com8"@, "com9"@, "lpt1"@, "lpt2"@, "lpt3"@, "lpt4"@, "lpt5"@, "lpt6"@,
        "lpt7"@, "lpt8"@, "lpt9"@,
    ]
}

/// How `Debug` writes a character, quotes and escapes included.
pub uninterp spec fn char_debug(c: char) -> Seq<char>;

/// `format!("{c:?}")`.
#[verifier::external_body]
fn debug_char(c: char) -> (out: String)
    ensures
        out@ == char_debug(c),
{
    format!("{c:?}")
}

/// A character a project name may hold.
pub open spec fn name_char_ok(c: char) -> bool {
    is_ascii_alnum(c) || c == '-' || c == '_'
}

/// The first character of `s` a name may not hold.
pub open spec fn first_bad(s: Seq<char>) -> Option<char>
    decreases s.len(),
{
    if s.len() == 0 {
        None
    } else if !name_char_ok(s[0]) {
        Some(s[0])
    } else {
        first_bad(s.drop_first())
    }
}

/// Why `name` is refused, or the trimmed name where it is accepted. The
/// rules apply in order: not blank, at most 64 characters, a letter or
/// digit first, only letters, digits, `-` and `_`, and no reserved stem in
/// any case.
pub open spec fn name_verdict(name: Seq<char>) -> Result<Seq<char>, Seq<char>> {
    let n = trim(name);
    if n.len() == 0 {
        Err("choose a name for the project"@)
    } else if n.len() > 64 {
        Err("the project name is longer than 64 characters"@)
    } else if !is_ascii_alnum(n[0]) {
        Err("the project name must start with a letter or a digit"@)
    } else if first_bad(n) is Some {
        Err("the project name cannot contain "@ + char_debug(first_bad(n)->0)
            + "; use letters, digits, hyphens, or underscores"@)
    } else if reserved_names().contains(lower_all(n)) {
        Err(n + " is a reserved name on Windows; choose another"@)
    } else {
        Ok(n)
    }
}

/// Validate a project name; the trimmed name where it is acceptable.
pub fn validate_name(name: &str) -> (r: Result<String, String>)
    ensures
        match name_verdict(name@) {
            Ok(n) => r matches Ok(x) && x@ == n,
            Err(e) => r matches Err(x) && x@ == e,
        },
{
    let n = trim_chars(chars_of(name).as_slice());
    if n.len() == 0 {
        return Err(String::from_str("choose a name for the project"));
    }
    if n.len() > MAX_NAME_LENGTH {
        return Err(String::from_str("the project name is longer than 64 characters"));
    }
    if !crate::text::is_ascii_alphanumeric(n[0]) {
        return Err(String::from_str("the project name must start with a letter or a digit"));
    }
    let mut i: usize = 0;
    assert(n@.skip(0) =~= n@);
    while i < n.len()
        invariant
            i <= n@.len(),
            n@ == trim(name@),
            0 < n@.len() <= 64,
            is_ascii_alnum(n@[0]),
            first_bad(n@) == first_bad(n@.skip(i as int)),
        decreases n@.len() - i,
    {
        assert(n@.skip(i as int).drop_first() =~= n@.skip(i + 1));
        assert(n@.skip(i as int)[0] == n@[i as int]);
        let c = n[i];
        if !(crate::text::is_ascii_alphanumeric(c) || c == '-' || c == '_') {
            let mut m: Vec<char> = Vec::new();
            push_str(&mut m, "the project name cannot contain ");
            push_str(&mut m, debug_char(c).as_str());
            push_str(&mut m, "; use letters, digits, hyphens, or underscores");
            return Err(string_of(m.as_slice()));
        }
        i = i + 1;
    }
    assert(n@.skip(i as int).len() == 0);
    let lower = crate::text::lowercase_chars(n.as_slice());
    let names: [&'static str; 22] = RESERVED_NAMES;
    assert(names@.map_values(|s: &str| s@) =~= reserved_names());
    let mut k: usize = 0;
    while k < 22
        invariant
            k <= 22,
            names@.map_values(|s: &str| s@) == reserved_names(),
            lower@ == lower_all(n@),
            n@ == trim(name@),
            0 < n@.len() <= 64,
            is_ascii_alnum(n@[0]),
            first_bad(n@) is None,
            forall|j: int| 0 <= j < k ==> reserved_names()[j] != lower_all(n@),
        decreases 22 - k,
    {
        assert(names@[k as int]@ == reserved_names()[k as int]);
        if crate::text::chars_eq_str(lower.as_slice(), names[k]) {
            assert(reserved_names()[k as int] == lower_all(n@));
            assert(reserved_names().contains(lower_all(n@)));
            let mut m = crate::text::copy_chars(&n);
            push_str(&mut m, " is a reserved name on Windows; choose another");
            return Err(string_of(m.as_slice()));
        }
        k = k + 1;
    }
    assert(!reserved_names().contains(lower_all(n@)));
    Ok(string_of(n.as_slice()))
}

proof fn lemma_first_bad_none(s: Seq<char>)
    requires
        first_bad(s) is None,
    ensures
        forall|i: int| 0 <= i < s.len() ==> name_char_ok(#[trigger] s[i]),
    decreases s.len(),
{
    if s.len() > 0 {
        lemma_first_bad_none(s.drop_first());
        assert forall|i: int| 0 <= i < s.len() implies name_char_ok(#[trigger] s[i]) by {
            if i > 0 {
                assert(s[i] == s.drop_first()[i - 1]);
            }
        }
    }
}

proof fn lemma_segments_plain(s: Seq<char>)
    requires
        forall|i: int| 0 <= i < s.len() ==> !crate::paths::is_sep(#[trigger] s[i]),
    ensures
        crate::paths::segments(s) == seq![s],
    decreases s.len(),
{
    if s.len() > 0 {
        lemma_segments_plain(s.drop_last());
        assert(s.drop_last().push(s.last()) =~= s);
        assert(!crate::paths::is_sep(s.last()));
        assert(seq![s.drop_last()].update(0, s.drop_last().push(s.last())) =~= seq![s]);
    } else {
        assert(s =~= Seq::<char>::empty());
    }
}

/// An accepted project name is one plain path component: it cannot climb
/// out of its parent, name a second directory, or carry a drive.
pub proof fn law_accepted_names_are_single_components(name: Seq<char>)
    requires
        name_verdict(name) is Ok,
    ensures
        ({
            let n = trim(name);
            &&& crate::paths::safe_relative(n)
            &&& crate::paths::segments(n) == seq![n]
        }),
{
    let n = trim(name);
    lemma_first_bad_none(n);
    assert forall|i: int| 0 <= i < n.len() implies !crate::paths::is_sep(#[trigger] n[i]) by {
        assert(name_char_ok(n[i]));
    }
    lemma_segments_plain(n);
    assert(!crate::text::contains(n, seq![':'])) by {
        if crate::text::contains(n, seq![':']) {
            let k = choose|k: int| crate::text::matches_at(n, k, seq![':']);
            assert(n.subrange(k, k + 1)[0] == n[k]);
            assert(name_char_ok(n[k]));
        }
    }
    assert(n != seq!['.']) by {
        if n == seq!['.'] {
            assert(n[0] == '.');
        }
    }
    assert(n != seq!['.', '.']) by {
        if n == seq!['.', '.'] {
            assert(n[0] == '.');
        }
    }
    assert(crate::paths::segments(n)[0] == n);
}

} // verus!
