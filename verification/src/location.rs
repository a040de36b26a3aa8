//! Where a new project may be created: inside a permitted root, never in a
//! hidden directory, never inside another project, and never over an
//! existing directory.
use vstd::prelude::*;

use crate::creation::{name_verdict, validate_name};
use crate::paths::{display_form, display_path, join_path, path_join};
use crate::text::{chars_of, has_prefix, push_str, split, split_exec, string_of, views};

verus! {

/// The named components of a Unix path: the pieces between `/`, without
/// empty ones and `.`.
pub open spec fn named(pieces: Seq<Seq<char>>) -> Seq<Seq<char>>
    decreases pieces.len(),
{
    if pieces.len() == 0 {
        Seq::empty()
    } else if pieces.last().len() == 0 || pieces.last() == seq!['.'] {
        named(pieces.drop_last())
    } else {
        named(pieces.drop_last()).push(pieces.last())
    }
}

pub open spec fn components(p: Seq<char>) -> Seq<Seq<char>> {
    named(split(p, '/'))
}

pub open spec fn is_absolute(p: Seq<char>) -> bool {
    has_prefix(p, seq!['/'])
}

/// `Path::starts_with`: `root`'s components lead `path`'s.
pub open spec fn path_starts_with(path: Seq<char>, root: Seq<char>) -> bool {
    is_absolute(path) == is_absolute(root) && components(root).len() <= components(path).len()
        && components(path).take(components(root).len() as int) == components(root)
}

/// How many components a path has, its root included.
pub open spec fn depth(p: Seq<char>) -> nat {
    components(p).len() + if is_absolute(p) {
        1nat
    } else {
        0nat
    }
}

fn components_exec(p: &[char]) -> (out: Vec<Vec<char>>)
    ensures
        views(out@) == components(p@),
{
    let pieces = split_exec(p, '/');
    let ghost pv = views(pieces@);
    let mut out: Vec<Vec<char>> = Vec::new();
    let mut i: usize = 0;
    while i < pieces.len()
        invariant
            i <= pieces@.len(),
            pv == views(pieces@),
            pv == split(p@, '/'),
            views(out@) == named(pv.take(i as int)),
        decreases pieces@.len() - i,
    {
        assert(pv.take(i + 1).drop_last() =~= pv.take(i as int));
        assert(pv.take(i + 1).last() == pieces@[i as int]@);
        let x = &pieces[i];
        let dot = x.len() == 1 && x[0] == '.';
        proof {
            if dot {
                assert(x@ =~= seq!['.']);
            }
            if x@ == seq!['.'] {
                assert(x@[0] == '.');
            }
        }
        if !(x.len() == 0 || dot) {
            let ghost before = views(out@);
            out.push(crate::text::copy_chars(x));
            assert(views(out@) =~= before.push(x@));
        }
        i = i + 1;
    }
    assert(pv.take(i as int) =~= pv);
    out
}

fn starts_with_path(path: &[char], root: &[char]) -> (b: bool)
    ensures
        b == path_starts_with(path@, root@),
{
    let slash = vec!['/'];
    assert(slash@ =~= seq!['/']);
    let pa = crate::text::starts_with(path, slash.as_slice());
    let ra = crate::text::starts_with(root, slash.as_slice());
    if pa != ra {
        return false;
    }
    let pc = components_exec(path);
    let rc = components_exec(root);
    if rc.len() > pc.len() {
        return false;
    }
    let mut i: usize = 0;
    while i < rc.len()
        invariant
            i <= rc@.len() <= pc@.len(),
            views(pc@) == components(path@),
            views(rc@) == components(root@),
            is_absolute(path@) == is_absolute(root@),
            forall|j: int| 0 <= j < i ==> pc@[j]@ == rc@[j]@,
        decreases rc@.len() - i,
    {
        if !crate::text::chars_eq(pc[i].as_slice(), rc[i].as_slice()) {
            assert(views(pc@).take(rc@.len() as int)[i as int] != views(rc@)[i as int]);
            assert(views(pc@).take(rc@.len() as int) != views(rc@));
            return false;
        }
        i = i + 1;
    }
    assert(views(pc@).take(rc@.len() as int) =~= views(rc@));
    true
}

/// Whether the directory holding a new project is already there.
#[derive(Debug, Clone, Copy, PartialEq, Eq, Structural)]
pub enum ParentState {
    Exists,
    Creatable,
}

/// Where projects may be created: the default parent, and the roots a
/// chosen parent must lie inside.
#[derive(Debug, Clone)]
pub struct CreationPolicy {
    pub default_parent: String,
    pub permitted_roots: Vec<String>,
}

/// A creation target: the project's directory, the directory holding it,
/// and whether that one is already there.
#[derive(Debug, Clone)]
pub struct ResolvedTarget {
    pub target: String,
    pub parent: String,
    pub parent_state: ParentState,
}

/// The permitted root, among those containing `parent`, with the most
/// components; of equals, the last.
pub open spec fn deepest_root(parent: Seq<char>, roots: Seq<Option<Seq<char>>>) -> Option<int>
    decreases roots.len(),
{
    if roots.len() == 0 {
        None
    } else {
        let before = deepest_root(parent, roots.drop_last());
        match roots.last() {
            Some(r) => if path_starts_with(parent, r) {
                match before {
                    Some(k) => if depth(r) >= depth(roots[k]->0) {
                        Some(roots.len() - 1)
                    } else {
                        Some(k)
                    },
                    None => Some(roots.len() - 1),
                }
            } else {
                before
            },
            None => before,
        }
    }
}

/// The first hidden directory among `names`: a name starting with `.`
/// other than `.` and `..`.
pub open spec fn first_hidden(names: Seq<Seq<char>>) -> Option<Seq<char>>
    decreases names.len(),
{
    if names.len() == 0 {
        None
    } else if names[0].len() > 0 && names[0][0] == '.' && names[0] != seq!['.'] && names[0] != seq!['.', '.'] {
        Some(names[0])
    } else {
        first_hidden(names.drop_first())
    }
}

pub open spec fn opt_views(v: Seq<Option<String>>) -> Seq<Option<Seq<char>>> {
    v.map_values(|o: Option<String>| match o {
        Some(s) => Some(s@),
        None => None::<Seq<char>>,
    })
}

/// What the file system shows of a requested location, gathered by the
/// caller: whether it is a directory or exists at all, its canonical form
/// (or why there is none), each permitted root's canonical form where it
/// has one, the project that already encloses it, and whether the target
/// exists.
#[derive(Debug)]
pub struct LocationFacts {
    pub requested_is_dir: bool,
    pub requested_exists: bool,
    pub canonical_parent: Result<String, String>,
    pub canonical_roots: Vec<Option<String>>,
    pub enclosing_project: Option<String>,
    pub target_exists: bool,
}

fn deepest_root_exec(parent: &[char], roots: &Vec<Option<String>>) -> (r: Option<usize>)
    ensures
        match deepest_root(parent@, opt_views(roots@)) {
            Some(k) => r matches Some(i) && i == k,
            None => r is None,
        },
{
    let ghost rv = opt_views(roots@);
    let mut best: Option<usize> = None;
    let mut best_depth: u128 = 0;
    let mut i: usize = 0;
    while i < roots.len()
        invariant
            i <= roots@.len(),
            rv == opt_views(roots@),
            match deepest_root(parent@, rv.take(i as int)) {
                Some(k) => best == Some(k as usize) && 0 <= k < i && rv[k] is Some && best_depth == depth(rv[k]->0),
                None => best is None,
            },
        decreases roots@.len() - i,
    {
        let ghost t = rv.take(i + 1);
        assert(t.drop_last() =~= rv.take(i as int));
        assert(t.last() == rv[i as int]);
        if let Some(r) = &roots[i] {
            let rc = chars_of(r.as_str());
            if starts_with_path(parent, rc.as_slice()) {
                let comps = components_exec(rc.as_slice());
                let slash = vec!['/'];
                assert(slash@ =~= seq!['/']);
                let d: u128 = if crate::text::starts_with(rc.as_slice(), slash.as_slice()) {
                    comps.len() as u128 + 1
                } else {
                    comps.len() as u128
                };
                match best {
                    Some(k) => {
                        assert(t[k as int] == rv[k as int]);
                        if d >= best_depth {
                            best = Some(i);
                            best_depth = d;
                        }
                    },
                    None => {
                        best = Some(i);
                        best_depth = d;
                    },
                }
            }
        }
        i = i + 1;
    }
    assert(rv.take(i as int) =~= rv);
    best
}

/// The same location, compared by components: `.` and doubled separators
/// do not count.
pub open spec fn same_location(a: Seq<char>, b: Seq<char>) -> bool {
    is_absolute(a) == is_absolute(b) && components(a) == components(b)
}

pub open spec fn res_view(r: Result<String, String>) -> Result<Seq<char>, Seq<char>> {
    match r {
        Ok(s) => Ok(s@),
        Err(e) => Err(e@),
    }
}

/// Where a project named `name` goes, asked for under `parent` (or the
/// default parent), given what the file system shows: the target, the
/// directory holding it and whether that exists; or why not.
pub open spec fn resolution(
    policy: CreationPolicy,
    parent: Option<Seq<char>>,
    name: Seq<char>,
    facts: LocationFacts,
) -> Result<(Seq<char>, Seq<char>, ParentState), Seq<char>> {
    match name_verdict(name) {
        Err(e) => Err(e),
        Ok(n) => {
            let requested = match parent {
                Some(p) => p,
                None => policy.default_parent@,
            };
            if !is_absolute(requested) {
                Err("the location must be an absolute path"@)
            } else if !facts.requested_is_dir && facts.requested_exists {
                Err(display_form(requested) + " is not a directory"@)
            } else if !facts.requested_is_dir && !same_location(requested, policy.default_parent@) {
                Err(display_form(requested) + " is not an existing directory"@)
            } else {
                let state = if facts.requested_is_dir {
                    ParentState::Exists
                } else {
                    ParentState::Creatable
                };
                match res_view(facts.canonical_parent) {
                    Err(e) => Err(e),
                    Ok(canonical) => match deepest_root(canonical, opt_views(facts.canonical_roots@)) {
                        None => Err(
                            "DeltaForge only creates projects inside your home directory, or the directory named by DELTAFORGE_WORKSPACE; "@
                                + display_form(canonical) + " is outside both"@,
                        ),
                        Some(k) => {
                            let root = opt_views(facts.canonical_roots@)[k]->0;
                            match first_hidden(components(canonical).skip(components(root).len() as int)) {
                                Some(h) => Err("DeltaForge does not create projects inside the hidden directory "@ + h),
                                None => match facts.enclosing_project {
                                    Some(existing) => Err(display_form(canonical)
                                        + " is inside the DeltaForge project at "@ + display_form(existing@)
                                        + "; choose a location outside it"@),
                                    None => if facts.target_exists {
                                        Err(display_form(path_join(canonical, n)) + " already exists"@)
                                    } else {
                                        Ok((path_join(canonical, n), canonical, state))
                                    },
                                },
                            }
                        },
                    },
                }
            }
        },
    }
}

fn same_location_exec(a: &[char], b: &[char]) -> (r: bool)
    ensures
        r == same_location(a@, b@),
{
    let slash = vec!['/'];
    assert(slash@ =~= seq!['/']);
    if crate::text::starts_with(a, slash.as_slice()) != crate::text::starts_with(b, slash.as_slice()) {
        return false;
    }
    let ac = components_exec(a);
    let bc = components_exec(b);
    if ac.len() != bc.len() {
        assert(views(ac@).len() != views(bc@).len());
        return false;
    }
    let mut i: usize = 0;
    while i < ac.len()
        invariant
            i <= ac@.len() == bc@.len(),
            views(ac@) == components(a@),
            views(bc@) == components(b@),
            is_absolute(a@) == is_absolute(b@),
            forall|j: int| 0 <= j < i ==> ac@[j]@ == bc@[j]@,
        decreases ac@.len() - i,
    {
        if !crate::text::chars_eq(ac[i].as_slice(), bc[i].as_slice()) {
            assert(views(ac@)[i as int] != views(bc@)[i as int]);
            assert(views(ac@) != views(bc@));
            return false;
        }
        i = i + 1;
    }
    assert(views(ac@) =~= views(bc@));
    true
}

fn hidden_in(names: &Vec<Vec<char>>, from: usize) -> (r: Option<Vec<char>>)
    requires
        from <= names@.len(),
    ensures
        match first_hidden(views(names@).skip(from as int)) {
            Some(h) => r matches Some(x) && x@ == h,
            None => r is None,
        },
{
    let ghost nv = views(names@);
    let mut i: usize = from;
    while i < names.len()
        invariant
            from <= i <= names@.len(),
            nv == views(names@),
            first_hidden(nv.skip(from as int)) == first_hidden(nv.skip(i as int)),
        decreases names@.len() - i,
    {
        assert(nv.skip(i as int).drop_first() =~= nv.skip(i + 1));
        assert(nv.skip(i as int)[0] == names@[i as int]@);
        let x = &names[i];
        let dot = x.len() == 1 && x[0] == '.';
        let dots = x.len() == 2 && x[0] == '.' && x[1] == '.';
        proof {
            if dot {
                assert(x@ =~= seq!['.']);
            }
            if dots {
                assert(x@ =~= seq!['.', '.']);
            }
            if x@ == seq!['.'] {
                assert(x@[0] == '.');
            }
            if x@ == seq!['.', '.'] {
                assert(x@[0] == '.' && x@[1] == '.');
            }
        }
        if x.len() > 0 && x[0] == '.' && !dot && !dots {
            return Some(crate::text::copy_chars(x));
        }
        i = i + 1;
    }
    None
}

fn message2(a: &str, b: &str) -> (m: String)
    ensures
        m@ == a@ + b@,
{
    let mut v: Vec<char> = Vec::new();
    push_str(&mut v, a);
    push_str(&mut v, b);
    string_of(v.as_slice())
}

fn message3(a: &str, b: &str, c: &str) -> (m: String)
    ensures
        m@ == a@ + b@ + c@,
{
    let mut v: Vec<char> = Vec::new();
    push_str(&mut v, a);
    push_str(&mut v, b);
    push_str(&mut v, c);
    string_of(v.as_slice())
}

impl CreationPolicy {
    /// Turn a parent directory and a leaf name into the one path a project
    /// may be created at. This decides; it does not write.
    pub fn resolve(&self, parent: Option<&str>, name: &str, facts: &LocationFacts) -> (r: Result<ResolvedTarget, String>)
        ensures
            match resolution(
                *self,
                match parent {
                    Some(p) => Some(p@),
                    None => None,
                },
                name@,
                *facts,
            ) {
                Ok((target, dir, state)) => r matches Ok(t) && t.target@ == target && t.parent@ == dir
                    && t.parent_state == state,
                Err(e) => r matches Err(x) && x@ == e,
            },
    {
        let name = validate_name(name)?;
        let requested: &str = match parent {
            Some(p) => p,
            None => self.default_parent.as_str(),
        };
        let rq = chars_of(requested);
        let slash = vec!['/'];
        assert(slash@ =~= seq!['/']);
        if !crate::text::starts_with(rq.as_slice(), slash.as_slice()) {
            return Err(String::from_str("the location must be an absolute path"));
        }
        let state = if facts.requested_is_dir {
            ParentState::Exists
        } else if facts.requested_exists {
            return Err(message2(display_path(requested).as_str(), " is not a directory"));
        } else if same_location_exec(rq.as_slice(), chars_of(self.default_parent.as_str()).as_slice()) {
            ParentState::Creatable
        } else {
            return Err(message2(display_path(requested).as_str(), " is not an existing directory"));
        };
        let canonical: &String = match &facts.canonical_parent {
            Ok(c) => c,
            Err(e) => return Err(crate::text::copy_string(e)),
        };
        let cc = chars_of(canonical.as_str());
        let k = match deepest_root_exec(cc.as_slice(), &facts.canonical_roots) {
            Some(k) => k,
            None => {
                return Err(
                    message3(
                        "DeltaForge only creates projects inside your home directory, or the directory named by DELTAFORGE_WORKSPACE; ",
                        display_path(canonical.as_str()).as_str(),
                        " is outside both",
                    ),
                );
            },
        };
        proof {
            lemma_deepest_root_some(cc@, opt_views(facts.canonical_roots@));
            assert(opt_views(facts.canonical_roots@)[k as int] is Some);
            assert(facts.canonical_roots@[k as int] is Some);
        }
        let root = match &facts.canonical_roots[k] {
            Some(r) => r,
            None => return Err(String::new()),
        };
        assert(opt_views(facts.canonical_roots@)[k as int] == Some(root@));
        let pc = components_exec(cc.as_slice());
        let rc = components_exec(chars_of(root.as_str()).as_slice());
        assert(views(rc@).len() <= views(pc@).len());
        let from: usize = if rc.len() <= pc.len() {
            rc.len()
        } else {
            pc.len()
        };
        assert(from as int == components(root@).len());
        assert(views(pc@) == components(cc@));
        if let Some(h) = hidden_in(&pc, from) {
            let hs = string_of(h.as_slice());
            return Err(message2("DeltaForge does not create projects inside the hidden directory ", hs.as_str()));
        }
        if let Some(existing) = &facts.enclosing_project {
            let mut v: Vec<char> = Vec::new();
            push_str(&mut v, display_path(canonical.as_str()).as_str());
            push_str(&mut v, " is inside the DeltaForge project at ");
            push_str(&mut v, display_path(existing.as_str()).as_str());
            push_str(&mut v, "; choose a location outside it");
            return Err(string_of(v.as_slice()));
        }
        let target = join_path(canonical.as_str(), name.as_str());
        if facts.target_exists {
            return Err(message2(display_path(target.as_str()).as_str(), " already exists"));
        }
        Ok(ResolvedTarget { target, parent: crate::text::copy_string(canonical), parent_state: state })
    }
}

proof fn lemma_deepest_root_some(parent: Seq<char>, roots: Seq<Option<Seq<char>>>)
    ensures
        match deepest_root(parent, roots) {
            Some(k) => 0 <= k < roots.len() && roots[k] is Some && path_starts_with(parent, roots[k]->0),
            None => true,
        },
    decreases roots.len(),
{
    if roots.len() > 0 {
        lemma_deepest_root_some(parent, roots.drop_last());
    }
}

/// A program a language's toolchain needs.
#[derive(Debug, Clone)]
pub struct ToolRequirement {
    pub program: String,
    pub label: Option<String>,
    pub install_url: Option<String>,
}

/// One program the creation preflight looked for.
#[derive(Debug, Clone)]
pub struct ToolStatus {
    pub program: String,
    pub label: String,
    pub found: bool,
    pub version: Option<String>,
    pub install_url: Option<String>,
    pub required: bool,
}

/// Whether the chosen location can hold the project.
#[derive(Debug, Clone)]
pub struct LocationStatus {
    pub parent: String,
    pub target: Option<String>,
    pub ok: bool,
    pub creates_parent: bool,
    pub problem: Option<String>,
}

/// Everything checked before a project is created.
#[derive(Debug, Clone)]
pub struct Preflight {
    pub ok: bool,
    pub tools: Vec<ToolStatus>,
    pub location: LocationStatus,
}

pub open spec fn opt_str(o: Option<String>) -> Option<Seq<char>> {
    match o {
        Some(s) => Some(s@),
        None => None,
    }
}

fn copy_opt(o: &Option<String>) -> (r: Option<String>)
    ensures
        opt_str(r) == opt_str(*o),
{
    match o {
        Some(s) => Some(crate::text::copy_string(s)),
        None => None,
    }
}

/// The first line of a program's `--version` output, trimmed; `None` where
/// that is empty.
pub fn first_version_line(output: &str) -> (r: Option<String>)
    ensures
        ({
            let ls = crate::text::lines(output@);
            let line = if ls.len() > 0 {
                crate::text::trim(ls[0])
            } else {
                Seq::empty()
            };
            if line.len() == 0 {
                r is None
            } else {
                r matches Some(x) && x@ == line
            }
        }),
{
    let chars = chars_of(output);
    let ls = crate::text::lines_of(chars.as_slice());
    let line: Vec<char> = if ls.len() > 0 {
        crate::text::trim_chars(ls[0].as_slice())
    } else {
        Vec::new()
    };
    if line.len() == 0 {
        None
    } else {
        Some(string_of(line.as_slice()))
    }
}

/// A program's status given the version it reported, if it ran.
pub fn tool_status(requirement: &ToolRequirement, required: bool, version: Option<String>) -> (t: ToolStatus)
    ensures
        t.program@ == requirement.program@,
        t.label@ == match requirement.label {
            Some(l) => l@,
            None => requirement.program@,
        },
        t.found == version is Some,
        opt_str(t.version) == opt_str(version),
        opt_str(t.install_url) == opt_str(requirement.install_url),
        t.required == required,
{
    let found = version.is_some();
    ToolStatus {
        program: crate::text::copy_string(&requirement.program),
        label: match &requirement.label {
            Some(l) => crate::text::copy_string(l),
            None => crate::text::copy_string(&requirement.program),
        },
        found,
        version,
        install_url: copy_opt(&requirement.install_url),
        required,
    }
}

/// The toolchain a language needs, each program required, then git, which
/// is optional. `versions` holds what each required program reported.
pub fn language_tools(
    requirements: &Vec<ToolRequirement>,
    versions: Vec<Option<String>>,
    git_version: Option<String>,
) -> (tools: Vec<ToolStatus>)
    requires
        versions@.len() == requirements@.len(),
    ensures
        tools@.len() == requirements@.len() + 1,
        forall|i: int|
            0 <= i < requirements@.len() ==> {
                let t = #[trigger] tools@[i];
                &&& t.program@ == requirements@[i].program@
                &&& t.label@ == match requirements@[i].label {
                    Some(l) => l@,
                    None => requirements@[i].program@,
                }
                &&& opt_str(t.install_url) == opt_str(requirements@[i].install_url)
                &&& t.required
                &&& t.found == versions@[i] is Some
                &&& opt_str(t.version) == opt_str(versions@[i])
            },
        tools@[requirements@.len() as int].program@ == "git"@,
        tools@[requirements@.len() as int].label@ == "Git"@,
        !tools@[requirements@.len() as int].required,
        tools@[requirements@.len() as int].found == git_version is Some,
        opt_str(tools@[requirements@.len() as int].version) == opt_str(git_version),
        opt_str(tools@[requirements@.len() as int].install_url) == Some("https://git-scm.com/downloads"@),
{
    let mut tools: Vec<ToolStatus> = Vec::new();
    let mut versions = versions;
    let mut i: usize = 0;
    let ghost vs = versions@;
    while i < requirements.len()
        invariant
            i <= requirements@.len(),
            vs.len() == requirements@.len(),
            versions@.len() == requirements@.len(),
            forall|j: int| i <= j < vs.len() ==> #[trigger] versions@[j] == vs[j],
            tools@.len() == i,
            forall|j: int|
                0 <= j < i ==> {
                    let t = #[trigger] tools@[j];
                    &&& t.program@ == requirements@[j].program@
                    &&& t.label@ == match requirements@[j].label {
                        Some(l) => l@,
                        None => requirements@[j].program@,
                    }
                    &&& opt_str(t.install_url) == opt_str(requirements@[j].install_url)
                    &&& t.required
                    &&& t.found == vs[j] is Some
                    &&& opt_str(t.version) == opt_str(vs[j])
                },
        decreases requirements@.len() - i,
    {
        let mut v: Option<String> = None;
        std::mem::swap(&mut v, &mut versions[i]);
        tools.push(tool_status(&requirements[i], true, v));
        i = i + 1;
    }
    let git = ToolRequirement {
        program: String::from_str("git"),
        label: Some(String::from_str("Git")),
        install_url: Some(String::from_str("https://git-scm.com/downloads")),
    };
    tools.push(tool_status(&git, false, git_version));
    tools
}

/// Some tool among `s` is the program `program`.
pub open spec fn program_seen(s: Seq<ToolStatus>, program: Seq<char>) -> bool {
    exists|j: int| 0 <= j < s.len() && (#[trigger] s[j]).program@ == program
}

/// The first status found for each program, in the order found.
pub open spec fn first_tool_of_each(s: Seq<ToolStatus>) -> Seq<ToolStatus>
    decreases s.len(),
{
    if s.len() == 0 {
        Seq::empty()
    } else if program_seen(s.drop_last(), s.last().program@) {
        first_tool_of_each(s.drop_last())
    } else {
        first_tool_of_each(s.drop_last()).push(s.last())
    }
}

/// `x` placed among `s`, which is in program order.
pub open spec fn insert_by_program(s: Seq<ToolStatus>, x: ToolStatus) -> Seq<ToolStatus>
    decreases s.len(),
{
    if s.len() == 0 {
        seq![x]
    } else if !crate::digest::name_lt(x.program@, s.last().program@) {
        s.push(x)
    } else {
        insert_by_program(s.drop_last(), x).push(s.last())
    }
}

/// Tools in order of their program names.
pub open spec fn tools_by_program(s: Seq<ToolStatus>) -> Seq<ToolStatus>
    decreases s.len(),
{
    if s.len() == 0 {
        Seq::empty()
    } else {
        insert_by_program(tools_by_program(s.drop_last()), s.last())
    }
}

/// The status of git, which DeltaForge itself uses for snapshots and which
/// is never required.
pub open spec fn is_git_status(t: ToolStatus, version: Option<String>) -> bool {
    &&& t.program@ == "git"@
    &&& t.label@ == "Git"@
    &&& t.found == version is Some
    &&& opt_str(t.version) == opt_str(version)
    &&& opt_str(t.install_url) == Some("https://git-scm.com/downloads"@)
    &&& !t.required
}

fn insert_tool_sorted(out: &mut Vec<ToolStatus>, x: ToolStatus)
    ensures
        final(out)@ == insert_by_program(old(out)@, x),
{
    let ghost s = out@;
    let xc = chars_of(x.program.as_str());
    let mut k: usize = out.len();
    assert(s.take(s.len() as int) =~= s);
    loop
        invariant
            k <= s.len(),
            s == out@,
            xc@ == x.program@,
            insert_by_program(s, x) == insert_by_program(s.take(k as int), x) + s.skip(k as int),
        ensures
            k <= s.len(),
            s == out@,
            insert_by_program(s, x) == insert_by_program(s.take(k as int), x) + s.skip(k as int),
            k == 0 || !crate::digest::name_lt(x.program@, s[k - 1].program@),
        decreases k,
    {
        if k == 0 {
            break;
        }
        let prev = chars_of(out[k - 1].program.as_str());
        if !crate::digest::name_less(xc.as_slice(), prev.as_slice()) {
            break;
        }
        proof {
            let t = s.take(k as int);
            assert(t.drop_last() =~= s.take(k - 1));
            assert(t.last() == s[k - 1]);
            assert(s.skip(k - 1) =~= seq![s[k - 1]] + s.skip(k as int));
            assert(insert_by_program(t.drop_last(), x).push(t.last()) + s.skip(k as int) =~= insert_by_program(
                t.drop_last(),
                x,
            ) + s.skip(k - 1));
        }
        k = k - 1;
    }
    proof {
        let t = s.take(k as int);
        if k > 0 {
            assert(t.last() == s[k - 1]);
        }
        assert(insert_by_program(t, x) == t.push(x));
    }
    let ghost xv = x;
    out.insert(k, x);
    assert(out@ =~= s.take(k as int).push(xv) + s.skip(k as int));
}

/// The tools the doctor reports, from what every discovered language
/// declares (in order): each program once, as first found; git added where
/// no language names it; all in order of program name.
pub fn doctor_tools(found: Vec<ToolStatus>, git_version: Option<String>) -> (tools: Vec<ToolStatus>)
    ensures
        program_seen(found@, "git"@) ==> tools@ == tools_by_program(first_tool_of_each(found@)),
        !program_seen(found@, "git"@) ==> exists|g: ToolStatus|
            is_git_status(g, git_version) && tools@ == tools_by_program(first_tool_of_each(found@).push(g)),
{
    let ghost orig = found@;
    let n = found.len();
    let mut rest = found;
    let mut programs: Vec<String> = Vec::new();
    let mut kept: Vec<ToolStatus> = Vec::new();
    let mut git_seen = false;
    let mut i: usize = 0;
    while rest.len() > 0
        invariant
            i <= orig.len(),
            orig.len() == n,
            rest@ == orig.skip(i as int),
            programs@.len() == i,
            forall|j: int| 0 <= j < i ==> (#[trigger] programs@[j])@ == orig[j].program@,
            kept@ == first_tool_of_each(orig.take(i as int)),
            git_seen == program_seen(orig.take(i as int), "git"@),
        decreases rest@.len(),
    {
        assert(orig.take(i + 1).drop_last() =~= orig.take(i as int));
        assert(rest@[0] == orig[i as int]);
        let x = rest.remove(0);
        assert(rest@ =~= orig.skip(i + 1));
        assert(orig.take(i + 1).last() == x);
        let seen = crate::pack::listed(&programs, x.program.as_str());
        proof {
            if seen {
                let j = choose|j: int| 0 <= j < programs@.len() && (#[trigger] programs@[j])@ == x.program@;
                assert(orig.take(i as int)[j] == orig[j]);
            }
            if program_seen(orig.take(i as int), x.program@) {
                let j = choose|j: int| 0 <= j < i && (#[trigger] orig.take(i as int)[j]).program@ == x.program@;
                assert(orig.take(i as int)[j] == orig[j]);
                assert(programs@[j]@ == x.program@);
            }
        }
        let p = chars_of(x.program.as_str());
        let is_git = crate::text::chars_eq_str(p.as_slice(), "git");
        proof {
            let t = orig.take(i + 1);
            if is_git {
                assert(t[i as int] == x);
            }
            if program_seen(t, "git"@) && !program_seen(orig.take(i as int), "git"@) {
                let j = choose|j: int| 0 <= j < t.len() && (#[trigger] t[j]).program@ == "git"@;
                if j < i {
                    assert(orig.take(i as int)[j] == t[j]);
                }
            }
            if program_seen(orig.take(i as int), "git"@) {
                let j = choose|j: int| 0 <= j < i && (#[trigger] orig.take(i as int)[j]).program@ == "git"@;
                assert(t[j] == orig.take(i as int)[j]);
            }
        }
        if is_git {
            git_seen = true;
        }
        programs.push(crate::text::copy_string(&x.program));
        if !seen {
            kept.push(x);
        }
        i = i + 1;
    }
    assert(orig.take(i as int) =~= orig);
    let ghost base = kept@;
    if !git_seen {
        let requirement = ToolRequirement {
            program: String::from_str("git"),
            label: Some(String::from_str("Git")),
            install_url: Some(String::from_str("https://git-scm.com/downloads")),
        };
        let git = tool_status(&requirement, false, git_version);
        kept.push(git);
    }
    let ghost all = kept@;
    let m = kept.len();
    let mut sorted: Vec<ToolStatus> = Vec::new();
    let mut k: usize = 0;
    assert(sorted@ =~= tools_by_program(all.take(0)));
    while kept.len() > 0
        invariant
            k <= all.len(),
            all.len() == m,
            kept@ == all.skip(k as int),
            sorted@ == tools_by_program(all.take(k as int)),
        decreases kept@.len(),
    {
        assert(all.take(k + 1).drop_last() =~= all.take(k as int));
        assert(kept@[0] == all[k as int]);
        let x = kept.remove(0);
        assert(kept@ =~= all.skip(k + 1));
        assert(all.take(k + 1).last() == x);
        insert_tool_sorted(&mut sorted, x);
        k = k + 1;
    }
    assert(all.take(k as int) =~= all);
    proof {
        if !git_seen {
            assert(is_git_status(all.last(), git_version));
            assert(all =~= base.push(all.last()));
        }
    }
    sorted
}

/// What the checks before making a project found: the location's status,
/// and whether the project can be made, which needs a usable location and
/// every required program.
pub fn preflight(tools: Vec<ToolStatus>, displayed_parent: String, resolved: Result<ResolvedTarget, String>) -> (p: Preflight)
    ensures
        p.location.parent@ == displayed_parent@,
        match resolved {
            Ok(t) => p.location.ok && opt_str(p.location.target) == Some(display_form(t.target@))
                && p.location.creates_parent == (t.parent_state == ParentState::Creatable)
                && p.location.problem is None,
            Err(e) => !p.location.ok && p.location.target is None && !p.location.creates_parent
                && opt_str(p.location.problem) == Some(e@),
        },
        p.ok == (p.location.ok && forall|i: int| 0 <= i < tools@.len() ==> (#[trigger] tools@[i]).found || !tools@[i].required),
        p.tools@ == tools@,
{
    let location = match resolved {
        Ok(t) => LocationStatus {
            parent: displayed_parent,
            target: Some(display_path(t.target.as_str())),
            ok: true,
            creates_parent: t.parent_state == ParentState::Creatable,
            problem: None,
        },
        Err(e) => LocationStatus {
            parent: displayed_parent,
            target: None,
            ok: false,
            creates_parent: false,
            problem: Some(e),
        },
    };
    let mut all = true;
    let mut i: usize = 0;
    while i < tools.len()
        invariant
            i <= tools@.len(),
            all == forall|j: int| 0 <= j < i ==> (#[trigger] tools@[j]).found || !tools@[j].required,
        decreases tools@.len() - i,
    {
        if !(tools[i].found || !tools[i].required) {
            all = false;
        }
        i = i + 1;
    }
    let ok = location.ok && all;
    Preflight { ok, tools, location }
}

} // verus!
