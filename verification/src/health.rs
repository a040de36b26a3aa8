//! A project's health as the workbench reports it: what a failure to load
//! means for the learner, what they can do about it, and how a learner's
//! absolute path is kept out of anything persisted or shown.
use vstd::prelude::*;

use crate::paths::{display_form, path_join, join_path};
use crate::text::{
    chars_of, contains, contains_str, has_prefix, push_str, replace, replace_str,
    string_of, strip_prefix_exec,
};

verus! {

/// The placeholder that stands for the project root.
pub open spec fn root_marker() -> Seq<char> {
    "{project_root}"@
}

/// The ordinary spelling of an extended-length root, where it has one.
pub open spec fn plain_spelling(native: Seq<char>) -> Option<Seq<char>> {
    if has_prefix(native, "\\\\?\\UNC\\"@) || has_prefix(native, "\\\\?\\"@) {
        Some(display_form(native))
    } else {
        None
    }
}

/// Every spelling of the root that tools print: the root as given, then
/// its ordinary form where that differs.
pub open spec fn root_spellings(native: Seq<char>) -> Seq<Seq<char>> {
    match plain_spelling(native) {
        Some(plain) => if plain != native {
            seq![native, plain]
        } else {
            seq![native]
        },
        None => seq![native],
    }
}

/// One spelling of the root replaced by the placeholder: first as a JSON
/// string escapes it, then as written, then with forward slashes.
pub open spec fn redact(value: Seq<char>, native: Seq<char>) -> Seq<char> {
    let escaped = replace(native, seq!['\\'], seq!['\\', '\\']);
    let v1 = replace(value, escaped, root_marker());
    let v2 = replace(v1, native, root_marker());
    let portable = replace(native, seq!['\\'], seq!['/']);
    if portable == native {
        v2
    } else {
        replace(v2, portable, root_marker())
    }
}

pub open spec fn redact_all(value: Seq<char>, spellings: Seq<Seq<char>>) -> Seq<char>
    decreases spellings.len(),
{
    if spellings.len() == 0 {
        value
    } else {
        redact(redact_all(value, spellings.drop_last()), spellings.last())
    }
}

/// Text with every spelling of the project root replaced by the
/// placeholder, the extended-length spelling first.
pub open spec fn sanitize(value: Seq<char>, root: Seq<char>) -> Seq<char> {
    redact_all(value, root_spellings(root))
}

pub fn project_root_spellings(project_root: &str) -> (out: Vec<String>)
    ensures
        out@.map_values(|s: String| s@) == root_spellings(project_root@),
{
    let native = chars_of(project_root);
    let plain: Option<Vec<char>> = match strip_prefix_exec(native.as_slice(), "\\\\?\\UNC\\") {
        Some(_) => Some(chars_of(crate::paths::display_path(project_root).as_str())),
        None => match strip_prefix_exec(native.as_slice(), "\\\\?\\") {
            Some(_) => Some(chars_of(crate::paths::display_path(project_root).as_str())),
            None => None,
        },
    };
    let mut out: Vec<String> = Vec::new();
    out.push(string_of(native.as_slice()));
    match plain {
        Some(p) => {
            if !crate::text::chars_eq(p.as_slice(), native.as_slice()) {
                out.push(string_of(p.as_slice()));
            }
        },
        None => {},
    }
    assert(out@.map_values(|s: String| s@) =~= root_spellings(project_root@));
    out
}

pub fn replace_project_path(value: &str, native: &str) -> (out: String)
    ensures
        out@ == redact(value@, native@),
{
    let v = chars_of(value);
    let n = chars_of(native);
    let back = vec!['\\'];
    let two = vec!['\\', '\\'];
    let slash = vec!['/'];
    assert(back@ =~= seq!['\\']);
    assert(two@ =~= seq!['\\', '\\']);
    assert(slash@ =~= seq!['/']);
    let marker = chars_of("{project_root}");
    let escaped = replace_str(n.as_slice(), back.as_slice(), two.as_slice());
    let v1 = replace_str(v.as_slice(), escaped.as_slice(), marker.as_slice());
    let v2 = replace_str(v1.as_slice(), n.as_slice(), marker.as_slice());
    let portable = replace_str(n.as_slice(), back.as_slice(), slash.as_slice());
    if crate::text::chars_eq(portable.as_slice(), n.as_slice()) {
        string_of(v2.as_slice())
    } else {
        let v3 = replace_str(v2.as_slice(), portable.as_slice(), marker.as_slice());
        string_of(v3.as_slice())
    }
}

/// Text with the learner's project root, in every spelling that tools
/// print, replaced by `{project_root}`.
pub fn sanitize_project_text(value: &str, project_root: &str) -> (out: String)
    ensures
        out@ == sanitize(value@, project_root@),
{
    let spellings = project_root_spellings(project_root);
    let ghost sp = spellings@.map_values(|s: String| s@);
    let mut current = String::from_str(value);
    let mut i: usize = 0;
    while i < spellings.len()
        invariant
            i <= spellings@.len(),
            sp == spellings@.map_values(|s: String| s@),
            sp == root_spellings(project_root@),
            current@ == redact_all(value@, sp.take(i as int)),
        decreases spellings@.len() - i,
    {
        assert(sp.take(i + 1).drop_last() =~= sp.take(i as int));
        current = replace_project_path(current.as_str(), spellings[i].as_str());
        i = i + 1;
    }
    assert(sp.take(i as int) =~= sp);
    current
}

// ---------------------------------------------------------------- bounds

/// The number of bytes `c` takes in UTF-8.
pub open spec fn utf8_len(c: char) -> nat {
    let u = c as u32;
    if u < 0x80 {
        1
    } else if u < 0x800 {
        2
    } else if u < 0x10000 {
        3
    } else {
        4
    }
}

/// The number of bytes `s` takes in UTF-8.
pub open spec fn byte_len(s: Seq<char>) -> nat
    decreases s.len(),
{
    if s.len() == 0 {
        0
    } else {
        utf8_len(s[0]) + byte_len(s.drop_first())
    }
}

/// How many leading characters of `s` fit in `budget` bytes.
pub open spec fn fit(s: Seq<char>, budget: int) -> int
    decreases s.len(),
{
    if s.len() == 0 {
        0
    } else if utf8_len(s[0]) <= budget {
        1 + fit(s.drop_first(), budget - utf8_len(s[0]))
    } else {
        0
    }
}

/// Text cut to at most `maximum` bytes at a character boundary, with a
/// note where something was cut.
pub open spec fn bounded(value: Seq<char>, maximum: nat) -> Seq<char> {
    if byte_len(value) <= maximum {
        value
    } else {
        value.take(fit(value, maximum as int)) + "\n[deltaforge: detail truncated]"@
    }
}

proof fn lemma_fit(s: Seq<char>, budget: int)
    requires
        budget >= 0,
    ensures
        0 <= fit(s, budget) <= s.len(),
        byte_len(s.take(fit(s, budget))) <= budget,
        fit(s, budget) < s.len() ==> byte_len(s.take(fit(s, budget) + 1)) > budget,
    decreases s.len(),
{
    if s.len() > 0 {
        let w = utf8_len(s[0]);
        if w <= budget {
            lemma_fit(s.drop_first(), budget - w);
            let k = fit(s.drop_first(), budget - w);
            assert(s.take(k + 1).drop_first() =~= s.drop_first().take(k));
            assert(s.take(k + 1)[0] == s[0]);
            if k + 1 < s.len() {
                assert(s.take(k + 2).drop_first() =~= s.drop_first().take(k + 1));
                assert(s.take(k + 2)[0] == s[0]);
            }
        } else {
            assert(s.take(0).len() == 0);
            assert(s.take(1).drop_first() =~= Seq::<char>::empty());
            assert(s.take(1)[0] == s[0]);
        }
    } else {
        assert(s.take(0).len() == 0);
    }
}

/// Bounded text is the text itself where it fits; otherwise the longest
/// prefix that fits, at a character boundary, followed by the note.
pub proof fn law_bounded_text_keeps_the_longest_fitting_prefix(value: Seq<char>, maximum: nat)
    ensures
        byte_len(value) <= maximum ==> bounded(value, maximum) == value,
        byte_len(value) > maximum ==> {
            let k = fit(value, maximum as int);
            &&& 0 <= k < value.len()
            &&& bounded(value, maximum) == value.take(k) + "\n[deltaforge: detail truncated]"@
            &&& byte_len(value.take(k)) <= maximum
            &&& byte_len(value.take(k + 1)) > maximum
        },
{
    lemma_fit(value, maximum as int);
    let k = fit(value, maximum as int);
    if byte_len(value) > maximum && k == value.len() {
        assert(value.take(k) =~= value);
    }
}

fn utf8_width(c: char) -> (n: usize)
    ensures
        n == utf8_len(c),
{
    let u = c as u32;
    if u < 0x80 {
        1
    } else if u < 0x800 {
        2
    } else if u < 0x10000 {
        3
    } else {
        4
    }
}

pub fn bounded_text(value: &str, maximum_bytes: usize) -> (out: String)
    ensures
        out@ == bounded(value@, maximum_bytes as nat),
{
    let s = chars_of(value);
    // Walk while the prefix fits; stop at the first character that does not.
    let mut used: usize = 0;
    let mut k: usize = 0;
    let mut fits = true;
    assert(s@.skip(0) =~= s@);
    while k < s.len() && fits
        invariant
            k <= s@.len(),
            used <= maximum_bytes,
            byte_len(s@) == byte_len(s@.take(k as int)) + byte_len(s@.skip(k as int)),
            used == byte_len(s@.take(k as int)),
            fits ==> fit(s@, maximum_bytes as int) == k + fit(s@.skip(k as int), maximum_bytes - used),
            !fits ==> fit(s@, maximum_bytes as int) == k && byte_len(s@) > maximum_bytes,
        decreases s@.len() - k + (if fits {
            1int
        } else {
            0int
        }),
    {
        let w = utf8_width(s[k]);
        let ghost rest = s@.skip(k as int);
        assert(rest[0] == s@[k as int]);
        assert(rest.drop_first() =~= s@.skip(k + 1));
        assert(s@.take(k + 1) =~= s@.take(k as int).push(s@[k as int]));
        proof {
            lemma_byte_len_push(s@.take(k as int), s@[k as int]);
            lemma_byte_len_split(s@, k + 1);
        }
        if w <= maximum_bytes - used {
            used = used + w;
            k = k + 1;
        } else {
            proof {
                lemma_byte_len_split(s@, k as int);
            }
            fits = false;
        }
    }
    if fits {
        assert(s@.take(k as int) =~= s@);
        return String::from_str(value);
    }
    let mut out = crate::text::slice_chars(s.as_slice(), 0, k);
    assert(out@ =~= s@.take(k as int));
    push_str(&mut out, "\n[deltaforge: detail truncated]");
    string_of(out.as_slice())
}

pub proof fn lemma_byte_len_push(s: Seq<char>, c: char)
    ensures
        byte_len(s.push(c)) == byte_len(s) + utf8_len(c),
    decreases s.len(),
{
    if s.len() > 0 {
        assert(s.push(c).drop_first() =~= s.drop_first().push(c));
        assert(s.push(c)[0] == s[0]);
        lemma_byte_len_push(s.drop_first(), c);
    } else {
        assert(s.push(c).drop_first() =~= Seq::<char>::empty());
        assert(s.push(c)[0] == c);
        assert(byte_len(s.push(c).drop_first()) == 0);
        assert(byte_len(s) == 0);
    }
}

pub proof fn lemma_byte_len_split(s: Seq<char>, k: int)
    requires
        0 <= k <= s.len(),
    ensures
        byte_len(s) == byte_len(s.take(k)) + byte_len(s.skip(k)),
    decreases k,
{
    if k > 0 {
        lemma_byte_len_split(s, k - 1);
        assert(s.take(k) =~= s.take(k - 1).push(s[k - 1]));
        lemma_byte_len_push(s.take(k - 1), s[k - 1]);
        let r = s.skip(k - 1);
        assert(r[0] == s[k - 1]);
        assert(r.drop_first() =~= s.skip(k));
    } else {
        assert(s.skip(0) =~= s);
        assert(s.take(0).len() == 0);
    }
}

// ---------------------------------------------------------------- health

#[derive(Debug, Clone, Copy, PartialEq, Eq, Structural)]
pub enum ProjectHealthStatus {
    Healthy,
    Unhealthy,
}

#[derive(Debug, Clone, Copy, PartialEq, Eq, Structural)]
pub enum ProjectHealthActionKind {
    Recheck,
    RepinPack,
    OpenEditor,
    OpenFolder,
}

/// Something the learner can do about the project's state.
#[derive(Debug)]
pub struct ProjectHealthAction {
    pub kind: ProjectHealthActionKind,
    pub label: String,
    pub primary: bool,
}

/// Why the project could not be loaded, in the learner's terms.
#[derive(Debug)]
pub struct ProjectHealthIssue {
    pub code: String,
    pub title: String,
    pub detail: String,
    pub guidance: String,
}

#[derive(Debug)]
pub struct ProjectHealth {
    pub status: ProjectHealthStatus,
    pub project: Option<String>,
    pub issue: Option<ProjectHealthIssue>,
    pub actions: Vec<ProjectHealthAction>,
}

/// What a load failure means: its code, title and guidance, and whether
/// adopting the installed pack is a way out. The first matching rule wins.
pub open spec fn classification(detail: Seq<char>) -> (Seq<char>, Seq<char>, Seq<char>, bool) {
    if contains(detail, "sync-pack"@) || contains(detail, "pack contents changed"@) || contains(
        detail,
        "project is pinned to pack"@,
    ) {
        (
            "pack_changed"@,
            "The project pack changed"@,
            "Review the change, then adopt the currently installed pack. Completed capabilities may require revalidation."@,
            true,
        )
    } else if contains(detail, "config.toml"@) {
        (
            "configuration_invalid"@,
            "The project configuration cannot be read"@,
            "Open the project and correct .deltaforge/config.toml, then check again."@,
            false,
        )
    } else if contains(detail, "state.json"@) {
        (
            "state_invalid"@,
            "The project state cannot be read"@,
            "Restore .deltaforge/state.json from version control or a backup, then check again."@,
            false,
        )
    } else if contains(detail, "does not support language"@) {
        (
            "language_unavailable"@,
            "The configured language is unavailable"@,
            "Restore the matching pack or correct the project language in .deltaforge/state.json."@,
            false,
        )
    } else {
        (
            "project_unavailable"@,
            "DeltaForge cannot load this project"@,
            "Open the project, resolve the reported problem, then check again."@,
            false,
        )
    }
}

pub fn classify_project_health_error(detail: &str) -> (r: (&'static str, &'static str, &'static str, bool))
    ensures
        r.0@ == classification(detail@).0,
        r.1@ == classification(detail@).1,
        r.2@ == classification(detail@).2,
        r.3 == classification(detail@).3,
{
    let d = chars_of(detail);
    if contains_str(d.as_slice(), "sync-pack") || contains_str(d.as_slice(), "pack contents changed")
        || contains_str(d.as_slice(), "project is pinned to pack") {
        (
            "pack_changed",
            "The project pack changed",
            "Review the change, then adopt the currently installed pack. Completed capabilities may require revalidation.",
            true,
        )
    } else if contains_str(d.as_slice(), "config.toml") {
        (
            "configuration_invalid",
            "The project configuration cannot be read",
            "Open the project and correct .deltaforge/config.toml, then check again.",
            false,
        )
    } else if contains_str(d.as_slice(), "state.json") {
        (
            "state_invalid",
            "The project state cannot be read",
            "Restore .deltaforge/state.json from version control or a backup, then check again.",
            false,
        )
    } else if contains_str(d.as_slice(), "does not support language") {
        (
            "language_unavailable",
            "The configured language is unavailable",
            "Restore the matching pack or correct the project language in .deltaforge/state.json.",
            false,
        )
    } else {
        (
            "project_unavailable",
            "DeltaForge cannot load this project",
            "Open the project, resolve the reported problem, then check again.",
            false,
        )
    }
}

pub open spec fn action_views(v: Seq<ProjectHealthAction>) -> Seq<(ProjectHealthActionKind, Seq<char>, bool)> {
    v.map_values(|a: ProjectHealthAction| (a.kind, a.label@, a.primary))
}

fn health_action(kind: ProjectHealthActionKind, label: &str, primary: bool) -> (a: ProjectHealthAction)
    ensures
        a.kind == kind,
        a.label@ == label@,
        a.primary == primary,
{
    ProjectHealthAction { kind, label: String::from_str(label), primary }
}

/// The actions offered for an unhealthy project: check again first, adopt
/// the installed pack where that is a way out, then the editor and folder.
pub open spec fn recovery_actions(repinnable: bool) -> Seq<(ProjectHealthActionKind, Seq<char>, bool)> {
    seq![(ProjectHealthActionKind::Recheck, "Check again"@, true)] + (if repinnable {
        seq![(ProjectHealthActionKind::RepinPack, "Adopt current pack"@, false)]
    } else {
        Seq::empty()
    }) + seq![
        (ProjectHealthActionKind::OpenEditor, "Open editor"@, false),
        (ProjectHealthActionKind::OpenFolder, "Open folder"@, false),
    ]
}

/// The most detail an issue carries, in bytes.
pub open spec fn issue_detail_limit() -> nat {
    8192
}

/// A project's health from the outcome of loading it: the project's name,
/// or the error it failed with. The error is redacted of the project root
/// before it is classified and kept.
pub fn load_project_health(loaded: Result<String, String>, project_root: &str) -> (h: ProjectHealth)
    ensures
        match loaded {
            Ok(project) => {
                &&& h.status == ProjectHealthStatus::Healthy
                &&& h.project matches Some(p) && p@ == project@
                &&& h.issue is None
                &&& action_views(h.actions@) == seq![
                    (ProjectHealthActionKind::OpenEditor, "Open editor"@, false),
                    (ProjectHealthActionKind::OpenFolder, "Open folder"@, false),
                ]
            },
            Err(error) => {
                let detail = sanitize(error@, project_root@);
                let c = classification(detail);
                &&& h.status == ProjectHealthStatus::Unhealthy
                &&& h.project is None
                &&& h.issue matches Some(issue) && issue.code@ == c.0 && issue.title@ == c.1
                    && issue.guidance@ == c.2 && issue.detail@ == bounded(detail, issue_detail_limit())
                &&& action_views(h.actions@) == recovery_actions(c.3)
            },
        },
{
    match loaded {
        Ok(project) => {
            let mut actions: Vec<ProjectHealthAction> = Vec::new();
            actions.push(health_action(ProjectHealthActionKind::OpenEditor, "Open editor", false));
            actions.push(health_action(ProjectHealthActionKind::OpenFolder, "Open folder", false));
            assert(action_views(actions@) =~= seq![
                (ProjectHealthActionKind::OpenEditor, "Open editor"@, false),
                (ProjectHealthActionKind::OpenFolder, "Open folder"@, false),
            ]);
            ProjectHealth {
                status: ProjectHealthStatus::Healthy,
                project: Some(project),
                issue: None,
                actions,
            }
        },
        Err(error) => {
            let detail = sanitize_project_text(error.as_str(), project_root);
            let (code, title, guidance, repinnable) = classify_project_health_error(detail.as_str());
            let mut actions: Vec<ProjectHealthAction> = Vec::new();
            actions.push(health_action(ProjectHealthActionKind::Recheck, "Check again", true));
            if repinnable {
                actions.push(health_action(ProjectHealthActionKind::RepinPack, "Adopt current pack", false));
            }
            actions.push(health_action(ProjectHealthActionKind::OpenEditor, "Open editor", false));
            actions.push(health_action(ProjectHealthActionKind::OpenFolder, "Open folder", false));
            assert(action_views(actions@) =~= recovery_actions(repinnable));
            ProjectHealth {
                status: ProjectHealthStatus::Unhealthy,
                project: None,
                issue: Some(
                    ProjectHealthIssue {
                        code: String::from_str(code),
                        title: String::from_str(title),
                        detail: bounded_text(detail.as_str(), 8192),
                        guidance: String::from_str(guidance),
                    },
                ),
                actions,
            }
        },
    }
}

/// The sentinel file whose presence asks the running job `job_id` to stop.
/// A job identifier is ASCII letters, digits and `-`, and not empty.
pub open spec fn valid_job_id(job_id: Seq<char>) -> bool {
    job_id.len() > 0 && forall|i: int|
        0 <= i < job_id.len() ==> crate::text::is_ascii_alnum(#[trigger] job_id[i]) || job_id[i] == '-'
}

pub fn cancellation_path(project_root: &str, job_id: &str) -> (r: Result<String, String>)
    ensures
        valid_job_id(job_id@) ==> (r matches Ok(p) && p@ == path_join(
            path_join(project_root@, ".deltaforge"@),
            "cancel-"@ + job_id@,
        )),
        !valid_job_id(job_id@) ==> (r matches Err(e) && e@ == "active job identifier is invalid"@),
{
    let id = chars_of(job_id);
    let mut ok = id.len() > 0;
    let mut i: usize = 0;
    while i < id.len()
        invariant
            i <= id@.len(),
            id@ == job_id@,
            ok == (id@.len() > 0 && forall|j: int|
                0 <= j < i ==> crate::text::is_ascii_alnum(#[trigger] id@[j]) || id@[j] == '-'),
        decreases id@.len() - i,
    {
        let c = id[i];
        if !(crate::text::is_ascii_alphanumeric(c) || c == '-') {
            ok = false;
        }
        i = i + 1;
    }
    if !ok {
        return Err(String::from_str("active job identifier is invalid"));
    }
    let dir = join_path(project_root, ".deltaforge");
    let mut name: Vec<char> = Vec::new();
    push_str(&mut name, "cancel-");
    push_str(&mut name, job_id);
    let name = string_of(name.as_slice());
    Ok(join_path(dir.as_str(), name.as_str()))
}

} // verus!
