//! The registry of projects the workbench knows: how a project's root
//! becomes a stable identifier.
use vstd::prelude::*;

use crate::digest::{fnv, update_hash, FNV_OFFSET};
use crate::text::{
    chars_of, hex16, is_ascii_alnum, lower, push_hex16, split, split_exec, string_of,
    strip_leading, strip_leading_exec, strip_trailing, strip_trailing_exec, views,
};

verus! {

/// The last component of a Unix path that names something: empty and `.`
/// pieces are passed over, and a path that ends in `..` has none.
pub open spec fn last_name(pieces: Seq<Seq<char>>) -> Option<Seq<char>>
    decreases pieces.len(),
{
    if pieces.len() == 0 {
        None
    } else {
        let x = pieces.last();
        if x.len() == 0 || x == seq!['.'] {
            last_name(pieces.drop_last())
        } else if x == seq!['.', '.'] {
            None
        } else {
            Some(x)
        }
    }
}

/// `Path::file_name` on Unix.
pub open spec fn file_name(path: Seq<char>) -> Option<Seq<char>> {
    last_name(split(path, '/'))
}

fn file_name_exec(path: &[char]) -> (r: Option<Vec<char>>)
    ensures
        match file_name(path@) {
            Some(n) => r matches Some(x) && x@ == n,
            None => r is None,
        },
{
    let pieces = split_exec(path, '/');
    let mut k: usize = pieces.len();
    let ghost pv = views(pieces@);
    assert(pv.take(pv.len() as int) =~= pv);
    while k > 0
        invariant
            k <= pieces@.len(),
            pv == views(pieces@),
            pv == split(path@, '/'),
            last_name(pv) == last_name(pv.take(k as int)),
        decreases k,
    {
        let x = &pieces[k - 1];
        let ghost t = pv.take(k as int);
        assert(t.drop_last() =~= pv.take(k - 1));
        assert(t.last() == x@);
        let dot = x.len() == 1 && x[0] == '.';
        let dots = x.len() == 2 && x[0] == '.' && x[1] == '.';
        proof {
            if x@ == seq!['.'] {
                assert(x@[0] == '.');
            }
            if x@ == seq!['.', '.'] {
                assert(x@[0] == '.' && x@[1] == '.');
            }
            if dot {
                assert(x@ =~= seq!['.']);
            }
            if dots {
                assert(x@ =~= seq!['.', '.']);
            }
        }
        if x.len() == 0 || dot {
            k = k - 1;
        } else if dots {
            return None;
        } else {
            return Some(crate::text::copy_chars(x));
        }
    }
    None
}

/// One character of a project slug.
pub open spec fn slug_char(c: char) -> char {
    if is_ascii_alnum(c) {
        lower(c)
    } else {
        '-'
    }
}

/// The readable part of a project identifier: the root's last component,
/// lowercased, with every other character a `-` and no `-` at either end;
/// `project` where that leaves nothing.
pub open spec fn id_slug(root: Seq<char>) -> Seq<char> {
    let name = match file_name(root) {
        Some(n) => n,
        None => "project"@,
    };
    let s = strip_trailing(strip_leading(name.map_values(|c: char| slug_char(c)), '-'), '-');
    if s.len() == 0 {
        "project"@
    } else {
        s
    }
}

/// A project's identifier: its slug, `-`, and the FNV-1a hash of the root's
/// UTF-8 bytes in sixteen hex digits.
pub open spec fn id_of(root: Seq<char>) -> Seq<char> {
    id_slug(root) + seq!['-'] + hex16(fnv(FNV_OFFSET, vstd::utf8::encode_utf8(root)))
}

pub fn project_id(root: &str) -> (out: String)
    ensures
        out@ == id_of(root@),
{
    let mut hash: u64 = FNV_OFFSET;
    let bytes = root.as_bytes();
    update_hash(&mut hash, bytes);
    let chars = chars_of(root);
    let name = match file_name_exec(chars.as_slice()) {
        Some(n) => n,
        None => chars_of("project"),
    };
    let mut mapped: Vec<char> = Vec::new();
    let mut i: usize = 0;
    while i < name.len()
        invariant
            i <= name@.len(),
            mapped@ == name@.take(i as int).map_values(|c: char| slug_char(c)),
        decreases name@.len() - i,
    {
        let c = name[i];
        let m = if crate::text::is_ascii_alphanumeric(c) {
            crate::text::to_ascii_lowercase(c)
        } else {
            '-'
        };
        mapped.push(m);
        assert(name@.take(i + 1).map_values(|c: char| slug_char(c)) =~= name@.take(i as int).map_values(
            |c: char| slug_char(c),
        ).push(slug_char(c)));
        i = i + 1;
    }
    assert(name@.take(i as int) =~= name@);
    let a = strip_leading_exec(mapped.as_slice(), '-');
    let s = strip_trailing_exec(a.as_slice(), '-');
    let mut out: Vec<char> = if s.len() == 0 {
        chars_of("project")
    } else {
        s
    };
    out.push('-');
    push_hex16(&mut out, hash);
    string_of(out.as_slice())
}

// ---------------------------------------------------------------- registry

/// A project the workbench has opened.
#[derive(Debug, Clone, PartialEq, Eq)]
pub struct RegisteredProject {
    pub id: String,
    pub path: String,
    pub packs_dir: Option<String>,
    pub last_opened_at: u64,
}

/// What the registry holds of a project: identifier, root, packs
/// directory and when it was last opened.
pub open spec fn entry_view(e: RegisteredProject) -> (Seq<char>, Seq<char>, Option<Seq<char>>, u64) {
    (
        e.id@,
        e.path@,
        match e.packs_dir {
            Some(p) => Some(p@),
            None => None,
        },
        e.last_opened_at,
    )
}

pub open spec fn entries_view(s: Seq<RegisteredProject>) -> Seq<(Seq<char>, Seq<char>, Option<Seq<char>>, u64)> {
    s.map_values(|e: RegisteredProject| entry_view(e))
}

/// `x` placed among `s`, which is newest first: after every project opened
/// no earlier than it.
pub open spec fn insert_newest_first(
    s: Seq<(Seq<char>, Seq<char>, Option<Seq<char>>, u64)>,
    x: (Seq<char>, Seq<char>, Option<Seq<char>>, u64),
) -> Seq<(Seq<char>, Seq<char>, Option<Seq<char>>, u64)>
    decreases s.len(),
{
    if s.len() == 0 {
        seq![x]
    } else if s.last().3 >= x.3 {
        s.push(x)
    } else {
        insert_newest_first(s.drop_last(), x).push(s.last())
    }
}

/// Projects ordered newest first; projects opened at the same moment keep
/// their order.
pub open spec fn newest_first(s: Seq<(Seq<char>, Seq<char>, Option<Seq<char>>, u64)>) -> Seq<
    (Seq<char>, Seq<char>, Option<Seq<char>>, u64),
>
    decreases s.len(),
{
    if s.len() == 0 {
        Seq::empty()
    } else {
        insert_newest_first(newest_first(s.drop_last()), s.last())
    }
}

pub open spec fn is_newest_first(s: Seq<(Seq<char>, Seq<char>, Option<Seq<char>>, u64)>) -> bool {
    forall|i: int, j: int| 0 <= i < j < s.len() ==> (#[trigger] s[i]).3 >= (#[trigger] s[j]).3
}

proof fn lemma_insert_keeps_order(
    s: Seq<(Seq<char>, Seq<char>, Option<Seq<char>>, u64)>,
    x: (Seq<char>, Seq<char>, Option<Seq<char>>, u64),
)
    requires
        is_newest_first(s),
    ensures
        is_newest_first(insert_newest_first(s, x)),
        insert_newest_first(s, x).len() == s.len() + 1,
        forall|k: int| 0 <= k < insert_newest_first(s, x).len() ==> {
            let e = #[trigger] insert_newest_first(s, x)[k];
            e == x || s.contains(e)
        },
    decreases s.len(),
{
    if s.len() > 0 && s.last().3 < x.3 {
        let t = s.drop_last();
        assert(is_newest_first(t)) by {
            assert forall|i: int, j: int| 0 <= i < j < t.len() implies (#[trigger] t[i]).3 >= (
            #[trigger] t[j]).3 by {
                assert(t[i] == s[i] && t[j] == s[j]);
            }
        }
        lemma_insert_keeps_order(t, x);
        let r = insert_newest_first(t, x);
        assert forall|k: int| 0 <= k < r.len() implies (#[trigger] r[k]).3 >= s.last().3 by {
            if r[k] != x {
                assert(t.contains(r[k]));
                let m = choose|m: int| 0 <= m < t.len() && t[m] == r[k];
                assert(s[m] == t[m]);
                assert(s[m].3 >= s[s.len() - 1].3);
            }
        }
        assert forall|k: int| 0 <= k < r.push(s.last()).len() implies {
            let e = #[trigger] r.push(s.last())[k];
            e == x || s.contains(e)
        } by {
            if k < r.len() {
                let e = r[k];
                if e != x {
                    let m = choose|m: int| 0 <= m < t.len() && t[m] == e;
                    assert(s[m] == e);
                }
            } else {
                assert(s[s.len() - 1] == s.last());
            }
        }
    } else if s.len() > 0 {
        assert forall|k: int| 0 <= k < s.push(x).len() implies {
            let e = #[trigger] s.push(x)[k];
            e == x || s.contains(e)
        } by {
            if k < s.len() {
                assert(s[k] == s.push(x)[k]);
            }
        }
    }
}

/// The registry is kept newest first.
pub proof fn law_registry_is_newest_first(s: Seq<(Seq<char>, Seq<char>, Option<Seq<char>>, u64)>)
    ensures
        is_newest_first(newest_first(s)),
        newest_first(s).len() == s.len(),
    decreases s.len(),
{
    if s.len() > 0 {
        law_registry_is_newest_first(s.drop_last());
        lemma_insert_keeps_order(newest_first(s.drop_last()), s.last());
    }
}

fn insert_by_recency(out: &mut Vec<RegisteredProject>, x: RegisteredProject)
    ensures
        entries_view(final(out)@) == insert_newest_first(entries_view(old(out)@), entry_view(x)),
{
    let mut k: usize = out.len();
    let ghost s = entries_view(out@);
    let ghost xv = entry_view(x);
    assert(s.take(s.len() as int) =~= s);
    while k > 0 && out[k - 1].last_opened_at < x.last_opened_at
        invariant
            k <= s.len(),
            s == entries_view(out@),
            xv == entry_view(x),
            insert_newest_first(s, xv) == insert_newest_first(s.take(k as int), xv) + s.skip(k as int),
        decreases k,
    {
        proof {
            let t = s.take(k as int);
            assert(t.drop_last() =~= s.take(k - 1));
            assert(t.last() == s[k - 1]);
            assert(s[k - 1].3 == out@[k - 1].last_opened_at);
            assert(s.skip(k - 1) =~= seq![s[k - 1]] + s.skip(k as int));
            assert(insert_newest_first(t.drop_last(), xv).push(t.last()) + s.skip(k as int) =~= insert_newest_first(
                t.drop_last(),
                xv,
            ) + s.skip(k - 1));
        }
        k = k - 1;
    }
    proof {
        let t = s.take(k as int);
        if k > 0 {
            assert(t.last() == s[k - 1]);
            assert(s[k - 1].3 == out@[k - 1].last_opened_at);
        }
        assert(insert_newest_first(t, xv) == t.push(xv));
    }
    let ghost before = out@;
    out.insert(k, x);
    assert(out@ =~= before.take(k as int).push(x) + before.skip(k as int));
    assert(entries_view(out@) =~= s.take(k as int).push(xv) + s.skip(k as int));
}

/// The first project filed under `id`.
pub open spec fn first_with_id(s: Seq<(Seq<char>, Seq<char>, Option<Seq<char>>, u64)>, id: Seq<char>) -> Option<int>
    decreases s.len(),
{
    if s.len() == 0 {
        None
    } else {
        match first_with_id(s.drop_last(), id) {
            Some(k) => Some(k),
            None => if s.last().0 == id {
                Some(s.len() - 1)
            } else {
                None
            },
        }
    }
}

/// The registry with `entry` in place of the first project under its
/// identifier, or added at the end.
pub open spec fn upserted(
    s: Seq<(Seq<char>, Seq<char>, Option<Seq<char>>, u64)>,
    entry: (Seq<char>, Seq<char>, Option<Seq<char>>, u64),
) -> Seq<(Seq<char>, Seq<char>, Option<Seq<char>>, u64)> {
    match first_with_id(s, entry.0) {
        Some(k) => s.update(k, entry),
        None => s.push(entry),
    }
}

proof fn lemma_first_with_id(s: Seq<(Seq<char>, Seq<char>, Option<Seq<char>>, u64)>, id: Seq<char>, i: int)
    requires
        0 <= i < s.len(),
        s[i].0 == id,
        forall|j: int| 0 <= j < i ==> (#[trigger] s[j]).0 != id,
    ensures
        first_with_id(s, id) == Some(i),
    decreases s.len(),
{
    if s.len() - 1 > i {
        lemma_first_with_id(s.drop_last(), id, i);
    } else {
        lemma_no_id(s.drop_last(), id);
    }
}

proof fn lemma_no_id(s: Seq<(Seq<char>, Seq<char>, Option<Seq<char>>, u64)>, id: Seq<char>)
    requires
        forall|j: int| 0 <= j < s.len() ==> (#[trigger] s[j]).0 != id,
    ensures
        first_with_id(s, id) is None,
    decreases s.len(),
{
    if s.len() > 0 {
        lemma_no_id(s.drop_last(), id);
    }
}

impl RegisteredProject {
    /// A field-by-field copy.
    pub fn clone_entry(&self) -> (c: RegisteredProject)
        ensures
            entry_view(c) == entry_view(*self),
    {
        RegisteredProject {
            id: crate::text::copy_string(&self.id),
            path: crate::text::copy_string(&self.path),
            packs_dir: match &self.packs_dir {
                Some(p) => Some(crate::text::copy_string(p)),
                None => None,
            },
            last_opened_at: self.last_opened_at,
        }
    }
}

/// Record that the project at `root` was opened at `now`: its entry, keyed
/// by the project's identifier, replaces any earlier one, and the registry
/// is kept newest first. The entry is returned.
pub fn register(
    projects: &mut Vec<RegisteredProject>,
    root: &str,
    packs_dir: Option<String>,
    now: u64,
) -> (entry: RegisteredProject)
    ensures
        entry.id@ == id_of(root@),
        entry.path@ == root@,
        entry.packs_dir == packs_dir,
        entry.last_opened_at == now,
        entries_view(final(projects)@) == newest_first(upserted(entries_view(old(projects)@), entry_view(entry))),
        unique_ids(entries_view(old(projects)@)) ==> unique_ids(entries_view(final(projects)@)),
{
    let id = project_id(root);
    let entry = RegisteredProject {
        id: crate::text::copy_string(&id),
        path: String::from_str(root),
        packs_dir,
        last_opened_at: now,
    };
    let key = chars_of(id.as_str());
    let mut found = false;
    let mut i: usize = 0;
    let ghost start = entries_view(projects@);
    let ghost ev = entry_view(entry);
    while i < projects.len()
        invariant
            i <= projects@.len(),
            projects@.len() == start.len(),
            key@ == ev.0,
            ev == entry_view(entry),
            !found ==> entries_view(projects@) == start && forall|j: int| 0 <= j < i ==> (#[trigger] start[j]).0 != key@,
            found ==> entries_view(projects@) == upserted(start, ev),
        decreases projects@.len() - i,
    {
        if !found {
            let other = chars_of(projects[i].id.as_str());
            assert(start[i as int].0 == projects@[i as int].id@);
            if crate::text::chars_eq(other.as_slice(), key.as_slice()) {
                proof {
                    lemma_first_with_id(start, ev.0, i as int);
                }
                let ghost before = projects@;
                projects.set(i, entry.clone_entry());
                assert(entries_view(projects@) =~= start.update(i as int, ev));
                found = true;
            }
        }
        i = i + 1;
    }
    if !found {
        proof {
            lemma_no_id(start, ev.0);
        }
        projects.push(entry.clone_entry());
        assert(entries_view(projects@) =~= start.push(ev));
    }
    let mut sorted: Vec<RegisteredProject> = Vec::new();
    let ghost all = entries_view(projects@);
    let mut taken: Vec<RegisteredProject> = Vec::new();
    std::mem::swap(&mut taken, projects);
    let mut k: usize = 0;
    assert(entries_view(sorted@) =~= newest_first(all.take(0)));
    while k < taken.len()
        invariant
            k <= taken@.len(),
            entries_view(taken@) == all,
            entries_view(sorted@) == newest_first(all.take(k as int)),
        decreases taken@.len() - k,
    {
        assert(all.take(k + 1).drop_last() =~= all.take(k as int));
        assert(all.take(k + 1).last() == entry_view(taken@[k as int]));
        insert_by_recency(&mut sorted, taken[k].clone_entry());
        k = k + 1;
    }
    assert(all.take(k as int) =~= all);
    *projects = sorted;
    proof {
        if unique_ids(start) {
            law_resolve_finds_what_was_registered(start, ev);
        }
    }
    entry
}

/// The projects whose roots still hold a project, in order; `valid` says,
/// for each, whether it does. Also whether any was dropped.
pub fn list(projects: Vec<RegisteredProject>, valid: &Vec<bool>) -> (r: (Vec<RegisteredProject>, bool))
    requires
        valid@.len() == projects@.len(),
    ensures
        entries_view(r.0@) == kept(entries_view(projects@), valid@),
        r.1 == (r.0@.len() != projects@.len()),
{
    let mut out: Vec<RegisteredProject> = Vec::new();
    let mut i: usize = 0;
    let ghost pv = entries_view(projects@);
    while i < projects.len()
        invariant
            i <= projects@.len(),
            valid@.len() == projects@.len(),
            pv == entries_view(projects@),
            entries_view(out@) == kept(pv.take(i as int), valid@.take(i as int)),
            out@.len() <= i,
        decreases projects@.len() - i,
    {
        assert(pv.take(i + 1).drop_last() =~= pv.take(i as int));
        assert(valid@.take(i + 1).drop_last() =~= valid@.take(i as int));
        if valid[i] {
            let ghost before = entries_view(out@);
            out.push(projects[i].clone_entry());
            assert(entries_view(out@) =~= before.push(pv[i as int]));
        }
        i = i + 1;
    }
    assert(pv.take(i as int) =~= pv);
    assert(valid@.take(i as int) =~= valid@);
    let changed = out.len() != projects.len();
    (out, changed)
}

/// The entries of `s` whose flag in `valid` is set.
pub open spec fn kept(
    s: Seq<(Seq<char>, Seq<char>, Option<Seq<char>>, u64)>,
    valid: Seq<bool>,
) -> Seq<(Seq<char>, Seq<char>, Option<Seq<char>>, u64)>
    decreases s.len(),
{
    if s.len() == 0 || valid.len() == 0 {
        Seq::empty()
    } else if valid.last() {
        kept(s.drop_last(), valid.drop_last()).push(s.last())
    } else {
        kept(s.drop_last(), valid.drop_last())
    }
}

/// The registered project with identifier `id`.
pub fn resolve(projects: &Vec<RegisteredProject>, id: &str) -> (r: Result<RegisteredProject, String>)
    ensures
        match first_with_id(entries_view(projects@), id@) {
            Some(k) => r matches Ok(p) && entry_view(p) == entries_view(projects@)[k],
            None => r matches Err(e) && e@ == "unknown registered project "@ + id@,
        },
{
    let key = chars_of(id);
    let ghost pv = entries_view(projects@);
    let mut i: usize = 0;
    while i < projects.len()
        invariant
            i <= projects@.len(),
            key@ == id@,
            pv == entries_view(projects@),
            forall|j: int| 0 <= j < i ==> (#[trigger] pv[j]).0 != id@,
        decreases projects@.len() - i,
    {
        let other = chars_of(projects[i].id.as_str());
        assert(pv[i as int].0 == projects@[i as int].id@);
        if crate::text::chars_eq(other.as_slice(), key.as_slice()) {
            proof {
                lemma_first_with_id(pv, id@, i as int);
            }
            return Ok(projects[i].clone_entry());
        }
        i = i + 1;
    }
    proof {
        lemma_no_id(pv, id@);
    }
    let mut m: Vec<char> = Vec::new();
    crate::text::push_str(&mut m, "unknown registered project ");
    crate::text::push_str(&mut m, id);
    Err(string_of(m.as_slice()))
}

/// The platform whose conventions place the application's data.
#[derive(Debug, Clone, Copy, PartialEq, Eq, Structural)]
pub enum Platform {
    LinuxOrUnix,
    MacOs,
    Windows,
}

/// The environment variables that decide where the application's data
/// lives, as read.
#[derive(Debug, Clone)]
pub struct HomeEnv {
    pub deltaforge_home: Option<String>,
    pub local_app_data: Option<String>,
    pub user_profile: Option<String>,
    pub home: Option<String>,
    pub xdg_data_home: Option<String>,
}

pub open spec fn nonempty(v: Option<String>) -> Option<Seq<char>> {
    match v {
        Some(s) => if s@.len() > 0 {
            Some(s@)
        } else {
            None
        },
        None => None,
    }
}

/// Where the application keeps its data: `DELTAFORGE_HOME` where it is set,
/// else each platform's data directory.
pub open spec fn application_home_spec(platform: Platform, env: HomeEnv) -> Result<Seq<char>, Seq<char>> {
    match env.deltaforge_home {
        Some(p) => if p@.len() == 0 {
            Err("DELTAFORGE_HOME must not be empty"@)
        } else {
            Ok(p@)
        },
        None => match platform {
            Platform::Windows => match nonempty(env.local_app_data) {
                Some(local) => Ok(crate::paths::path_join(local, "DeltaForge"@)),
                None => match nonempty(env.user_profile) {
                    Some(profile) => Ok(crate::paths::path_join(
                        crate::paths::path_join(crate::paths::path_join(profile, "AppData"@), "Local"@),
                        "DeltaForge"@,
                    )),
                    None => Err(
                        "could not locate Windows local application data; set DELTAFORGE_HOME or LOCALAPPDATA"@,
                    ),
                },
            },
            Platform::MacOs => match nonempty(env.home) {
                Some(home) => Ok(crate::paths::path_join(
                    crate::paths::path_join(crate::paths::path_join(home, "Library"@), "Application Support"@),
                    "DeltaForge"@,
                )),
                None => Err("could not locate the user home directory; set DELTAFORGE_HOME"@),
            },
            Platform::LinuxOrUnix => match nonempty(env.xdg_data_home) {
                Some(data) => Ok(crate::paths::path_join(data, "deltaforge"@)),
                None => match nonempty(env.home) {
                    Some(home) => Ok(crate::paths::path_join(
                        crate::paths::path_join(crate::paths::path_join(home, ".local"@), "share"@),
                        "deltaforge"@,
                    )),
                    None => Err(
                        "could not locate the user data directory; set DELTAFORGE_HOME or XDG_DATA_HOME"@,
                    ),
                },
            },
        },
    }
}

fn nonempty_exec(v: &Option<String>) -> (r: Option<&String>)
    ensures
        match nonempty(*v) {
            Some(s) => r matches Some(x) && x@ == s,
            None => r is None,
        },
{
    match v {
        Some(s) => {
            let c = chars_of(s.as_str());
            if c.len() > 0 {
                Some(s)
            } else {
                None
            }
        },
        None => None,
    }
}

fn join3(a: &str, b: &str, c: &str, d: &str) -> (out: String)
    ensures
        out@ == crate::paths::path_join(crate::paths::path_join(crate::paths::path_join(a@, b@), c@), d@),
{
    let x = crate::paths::join_path(a, b);
    let y = crate::paths::join_path(x.as_str(), c);
    crate::paths::join_path(y.as_str(), d)
}

pub fn application_home_for(platform: Platform, env: &HomeEnv) -> (r: Result<String, String>)
    ensures
        match application_home_spec(platform, *env) {
            Ok(p) => r matches Ok(x) && x@ == p,
            Err(e) => r matches Err(x) && x@ == e,
        },
{
    if let Some(p) = &env.deltaforge_home {
        let c = chars_of(p.as_str());
        if c.len() == 0 {
            return Err(String::from_str("DELTAFORGE_HOME must not be empty"));
        }
        return Ok(crate::text::copy_string(p));
    }
    match platform {
        Platform::Windows => {
            if let Some(local) = nonempty_exec(&env.local_app_data) {
                return Ok(crate::paths::join_path(local.as_str(), "DeltaForge"));
            }
            match nonempty_exec(&env.user_profile) {
                Some(profile) => Ok(join3(profile.as_str(), "AppData", "Local", "DeltaForge")),
                None => Err(
                    String::from_str(
                        "could not locate Windows local application data; set DELTAFORGE_HOME or LOCALAPPDATA",
                    ),
                ),
            }
        },
        Platform::MacOs => match nonempty_exec(&env.home) {
            Some(home) => Ok(join3(home.as_str(), "Library", "Application Support", "DeltaForge")),
            None => Err(String::from_str("could not locate the user home directory; set DELTAFORGE_HOME")),
        },
        Platform::LinuxOrUnix => {
            if let Some(data) = nonempty_exec(&env.xdg_data_home) {
                return Ok(crate::paths::join_path(data.as_str(), "deltaforge"));
            }
            match nonempty_exec(&env.home) {
                Some(home) => Ok(join3(home.as_str(), ".local", "share", "deltaforge")),
                None => Err(
                    String::from_str(
                        "could not locate the user data directory; set DELTAFORGE_HOME or XDG_DATA_HOME",
                    ),
                ),
            }
        },
    }
}

/// Where the running workbench service records itself, under the
/// application's home.
pub fn service_record_path(application_home: &str) -> (out: String)
    ensures
        out@ == crate::paths::path_join(application_home@, "workbench.json"@),
{
    crate::paths::join_path(application_home, "workbench.json")
}

/// The lock that serialises starting the workbench service.
pub fn startup_lock_path(application_home: &str) -> (out: String)
    ensures
        out@ == crate::paths::path_join(application_home@, "workbench-start.lock"@),
{
    crate::paths::join_path(application_home, "workbench-start.lock")
}

// ------------------------------------------------------------ read back

/// No two projects share an identifier.
pub open spec fn unique_ids(s: Seq<(Seq<char>, Seq<char>, Option<Seq<char>>, u64)>) -> bool {
    forall|i: int, j: int| 0 <= i < j < s.len() ==> (#[trigger] s[i]).0 != (#[trigger] s[j]).0
}

proof fn lemma_insert_contents(
    s: Seq<(Seq<char>, Seq<char>, Option<Seq<char>>, u64)>,
    x: (Seq<char>, Seq<char>, Option<Seq<char>>, u64),
)
    ensures
        insert_newest_first(s, x).contains(x),
        forall|y: (Seq<char>, Seq<char>, Option<Seq<char>>, u64)|
            #[trigger] insert_newest_first(s, x).contains(y) <==> (y == x || s.contains(y)),
    decreases s.len(),
{
    let r = insert_newest_first(s, x);
    if s.len() == 0 {
        assert(r[0] == x);
    } else if s.last().3 >= x.3 {
        assert(r[s.len() as int] == x);
        assert forall|y| #[trigger] r.contains(y) <==> (y == x || s.contains(y)) by {
            if s.contains(y) {
                let k = choose|k: int| 0 <= k < s.len() && s[k] == y;
                assert(r[k] == y);
            }
            if r.contains(y) {
                let k = choose|k: int| 0 <= k < r.len() && r[k] == y;
                if k < s.len() {
                    assert(s[k] == y);
                }
            }
        }
    } else {
        let t = s.drop_last();
        lemma_insert_contents(t, x);
        let q = insert_newest_first(t, x);
        let m = choose|m: int| 0 <= m < q.len() && q[m] == x;
        assert(r[m] == x);
        assert forall|y| #[trigger] r.contains(y) <==> (y == x || s.contains(y)) by {
            if s.contains(y) {
                let k = choose|k: int| 0 <= k < s.len() && s[k] == y;
                if k == s.len() - 1 {
                    assert(r[q.len() as int] == y);
                } else {
                    assert(t[k] == y);
                    assert(q.contains(y));
                    let j = choose|j: int| 0 <= j < q.len() && q[j] == y;
                    assert(r[j] == y);
                }
            }
            if r.contains(y) {
                let k = choose|k: int| 0 <= k < r.len() && r[k] == y;
                if k < q.len() {
                    assert(q[k] == y);
                    assert(q.contains(y));
                    if y != x {
                        assert(t.contains(y));
                        let j = choose|j: int| 0 <= j < t.len() && t[j] == y;
                        assert(s[j] == y);
                    }
                } else {
                    assert(s[s.len() - 1] == y);
                }
            }
        }
    }
}

proof fn lemma_newest_first_contents(s: Seq<(Seq<char>, Seq<char>, Option<Seq<char>>, u64)>)
    ensures
        forall|y: (Seq<char>, Seq<char>, Option<Seq<char>>, u64)| #[trigger] newest_first(s).contains(y) <==> s.contains(y),
    decreases s.len(),
{
    if s.len() > 0 {
        let t = s.drop_last();
        lemma_newest_first_contents(t);
        lemma_insert_contents(newest_first(t), s.last());
        assert forall|y| #[trigger] newest_first(s).contains(y) <==> s.contains(y) by {
            if s.contains(y) {
                let k = choose|k: int| 0 <= k < s.len() && s[k] == y;
                if k < s.len() - 1 {
                    assert(t[k] == y);
                    assert(t.contains(y));
                }
            }
            if t.contains(y) {
                let k = choose|k: int| 0 <= k < t.len() && t[k] == y;
                assert(s[k] == y);
            }
        }
    }
}

proof fn lemma_insert_unique(
    s: Seq<(Seq<char>, Seq<char>, Option<Seq<char>>, u64)>,
    x: (Seq<char>, Seq<char>, Option<Seq<char>>, u64),
)
    requires
        unique_ids(s),
        forall|i: int| 0 <= i < s.len() ==> (#[trigger] s[i]).0 != x.0,
    ensures
        unique_ids(insert_newest_first(s, x)),
    decreases s.len(),
{
    let r = insert_newest_first(s, x);
    if s.len() == 0 {
    } else if s.last().3 >= x.3 {
        assert forall|i: int, j: int| 0 <= i < j < r.len() implies (#[trigger] r[i]).0 != (#[trigger] r[j]).0 by {
            if j == s.len() {
                assert(r[i] == s[i]);
            } else {
                assert(r[i] == s[i] && r[j] == s[j]);
            }
        }
    } else {
        let t = s.drop_last();
        let e = s.last();
        assert(unique_ids(t)) by {
            assert forall|i: int, j: int| 0 <= i < j < t.len() implies (#[trigger] t[i]).0 != (#[trigger] t[j]).0 by {
                assert(t[i] == s[i] && t[j] == s[j]);
            }
        }
        assert forall|i: int| 0 <= i < t.len() implies (#[trigger] t[i]).0 != x.0 by {
            assert(t[i] == s[i]);
        }
        lemma_insert_unique(t, x);
        lemma_insert_contents(t, x);
        let q = insert_newest_first(t, x);
        assert forall|i: int| 0 <= i < q.len() implies (#[trigger] q[i]).0 != e.0 by {
            assert(q.contains(q[i]));
            if q[i] == x {
                assert(s[s.len() - 1].0 != x.0);
            } else {
                assert(t.contains(q[i]));
                let k = choose|k: int| 0 <= k < t.len() && t[k] == q[i];
                assert(s[k] == t[k]);
                assert(s[k].0 != s[s.len() - 1].0);
            }
        }
        assert forall|i: int, j: int| 0 <= i < j < r.len() implies (#[trigger] r[i]).0 != (#[trigger] r[j]).0 by {
            if j == q.len() {
                assert(r[i] == q[i]);
                assert(r[j] == e);
            } else {
                assert(r[i] == q[i] && r[j] == q[j]);
            }
        }
    }
}

proof fn lemma_newest_first_unique(s: Seq<(Seq<char>, Seq<char>, Option<Seq<char>>, u64)>)
    requires
        unique_ids(s),
    ensures
        unique_ids(newest_first(s)),
    decreases s.len(),
{
    if s.len() > 0 {
        let t = s.drop_last();
        assert(unique_ids(t)) by {
            assert forall|i: int, j: int| 0 <= i < j < t.len() implies (#[trigger] t[i]).0 != (#[trigger] t[j]).0 by {
                assert(t[i] == s[i] && t[j] == s[j]);
            }
        }
        lemma_newest_first_unique(t);
        lemma_newest_first_contents(t);
        let n = newest_first(t);
        assert forall|i: int| 0 <= i < n.len() implies (#[trigger] n[i]).0 != s.last().0 by {
            assert(n.contains(n[i]));
            assert(t.contains(n[i]));
            let k = choose|k: int| 0 <= k < t.len() && t[k] == n[i];
            assert(s[k] == t[k]);
        }
        lemma_insert_unique(n, s.last());
    }
}

proof fn lemma_upserted(
    s: Seq<(Seq<char>, Seq<char>, Option<Seq<char>>, u64)>,
    e: (Seq<char>, Seq<char>, Option<Seq<char>>, u64),
)
    requires
        unique_ids(s),
    ensures
        unique_ids(upserted(s, e)),
        upserted(s, e).contains(e),
{
    let u = upserted(s, e);
    match first_with_id(s, e.0) {
        Some(k) => {
            lemma_first_with_id_found(s, e.0);
            assert(u[k] == e);
            assert forall|i: int, j: int| 0 <= i < j < u.len() implies (#[trigger] u[i]).0 != (#[trigger] u[j]).0 by {
                assert(s[i].0 != s[j].0);
                if i == k {
                    assert(u[i].0 == s[k].0);
                }
                if j == k {
                    assert(u[j].0 == s[k].0);
                }
            }
        },
        None => {
            lemma_first_with_id_found(s, e.0);
            assert(u[s.len() as int] == e);
            assert forall|i: int, j: int| 0 <= i < j < u.len() implies (#[trigger] u[i]).0 != (#[trigger] u[j]).0 by {
                if j < s.len() {
                    assert(u[i] == s[i] && u[j] == s[j]);
                } else {
                    assert(u[i] == s[i]);
                }
            }
        },
    }
}

proof fn lemma_first_with_id_found(s: Seq<(Seq<char>, Seq<char>, Option<Seq<char>>, u64)>, id: Seq<char>)
    ensures
        match first_with_id(s, id) {
            Some(k) => 0 <= k < s.len() && s[k].0 == id,
            None => forall|i: int| 0 <= i < s.len() ==> (#[trigger] s[i]).0 != id,
        },
    decreases s.len(),
{
    if s.len() > 0 {
        lemma_first_with_id_found(s.drop_last(), id);
        assert forall|i: int| 0 <= i < s.len() - 1 implies s[i] == s.drop_last()[i] by {}
    }
}

/// Reading back what was registered: in a registry where identifiers are
/// unique, after registering `entry` the registry still has unique
/// identifiers and resolving the entry's identifier finds exactly it.
pub proof fn law_resolve_finds_what_was_registered(
    s: Seq<(Seq<char>, Seq<char>, Option<Seq<char>>, u64)>,
    entry: (Seq<char>, Seq<char>, Option<Seq<char>>, u64),
)
    requires
        unique_ids(s),
    ensures
        unique_ids(newest_first(upserted(s, entry))),
        match first_with_id(newest_first(upserted(s, entry)), entry.0) {
            Some(k) => newest_first(upserted(s, entry))[k] == entry,
            None => false,
        },
{
    let u = upserted(s, entry);
    lemma_upserted(s, entry);
    lemma_newest_first_unique(u);
    lemma_newest_first_contents(u);
    let r = newest_first(u);
    assert(r.contains(entry));
    let m = choose|m: int| 0 <= m < r.len() && r[m] == entry;
    lemma_first_with_id_found(r, entry.0);
    match first_with_id(r, entry.0) {
        Some(k) => {
            if k != m {
                if k < m {
                    assert(r[k].0 != r[m].0);
                } else {
                    assert(r[m].0 != r[k].0);
                }
            }
        },
        None => {
            assert(r[m].0 == entry.0);
        },
    }
}

} // verus!
