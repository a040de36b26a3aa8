//! Pack authoring: the requests an author makes, the reports they get back,
//! the rules an authored value must meet, and the scaffold a new pack or
//! stage starts from.
use vstd::prelude::*;

use crate::pack::{stage_position, LoadedPack, ProjectPack, StageSpec};
use crate::paths::{is_safe_relative_path, join_path, path_join, safe_relative};
use crate::text::{chars_of, contains, push_str, string_of, trim};

verus! {

#[derive(Debug, Clone)]
pub struct NewPackRequest {
    pub id: String,
    pub name: String,
    pub description: String,
    pub dest: String,
    pub language: String,
    pub force: bool,
}

#[derive(Debug, Clone)]
pub struct AddStageRequest {
    pub pack_dir: String,
    pub id: String,
    pub title: String,
    pub force: bool,
}

#[derive(Debug, Clone)]
pub struct CheckReferenceRequest {
    pub project: String,
    pub language: String,
    pub reference: String,
    pub packs_dir: Option<String>,
}

#[derive(Debug, Clone)]
pub struct UpdatePackMetadataRequest {
    pub project: String,
    pub packs_dir: String,
    pub name: Option<String>,
    pub description: Option<String>,
    pub version: Option<String>,
    pub topics: Option<Vec<String>>,
}

#[derive(Debug, Clone)]
pub struct UpdateStageMetadataRequest {
    pub project: String,
    pub packs_dir: String,
    pub stage: String,
    pub title: String,
}

#[derive(Debug, Clone)]
pub struct WriteStageDocumentRequest {
    pub project: String,
    pub packs_dir: String,
    pub stage: String,
    pub document: String,
    pub content: String,
}

#[derive(Debug, Clone)]
pub struct WriteFixtureFileRequest {
    pub project: String,
    pub packs_dir: String,
    pub stage: String,
    pub fixture: String,
    pub path: String,
    pub content: String,
    pub overwrite: bool,
}

#[derive(Debug, Clone)]
pub struct ReadPackRequest {
    pub project: String,
    pub packs_dir: Option<String>,
}

#[derive(Debug, Clone)]
pub struct ReadStageDocumentRequest {
    pub project: String,
    pub packs_dir: Option<String>,
    pub stage: String,
    pub document: String,
}

#[derive(Debug, Clone)]
pub struct ReadStageDataRequest {
    pub project: String,
    pub packs_dir: Option<String>,
    pub stage: String,
}

#[derive(Debug, Clone)]
pub struct ListFixtureFilesRequest {
    pub project: String,
    pub packs_dir: Option<String>,
    pub stage: String,
    pub fixture: Option<String>,
}

#[derive(Debug, Clone)]
pub struct ReadFixtureFileRequest {
    pub project: String,
    pub packs_dir: Option<String>,
    pub stage: String,
    pub fixture: String,
    pub path: String,
}

#[derive(Debug, Clone)]
pub struct DeleteFixtureFileRequest {
    pub project: String,
    pub packs_dir: String,
    pub stage: String,
    pub fixture: String,
    pub path: String,
    pub confirm: bool,
}

/// What an authoring operation reports: `ok` or `blocked`, the pack and
/// path it concerns, what is wrong, and what to do next.
#[derive(Debug)]
pub struct AuthoringReport {
    pub status: String,
    pub pack: Option<String>,
    pub path: Option<String>,
    pub problems: Vec<String>,
    pub next_actions: Vec<String>,
}

#[derive(Debug)]
pub struct ReadPackManifestReport {
    pub report: AuthoringReport,
    pub manifest: Option<ProjectPack>,
}

#[derive(Debug)]
pub struct ReadStageDocumentReport {
    pub report: AuthoringReport,
    pub content: Option<String>,
}

#[derive(Debug, Clone)]
pub struct FixtureFileEntry {
    pub path: String,
    pub size: u64,
}

#[derive(Debug)]
pub struct ListFixtureFilesReport {
    pub report: AuthoringReport,
    pub fixtures: Option<Vec<String>>,
    pub files: Option<Vec<FixtureFileEntry>>,
}

#[derive(Debug)]
pub struct ReadFixtureFileReport {
    pub report: AuthoringReport,
    pub content: Option<String>,
}

pub open spec fn opt_string_view(o: Option<String>) -> Option<Seq<char>> {
    match o {
        Some(s) => Some(s@),
        None => None,
    }
}

impl AuthoringReport {
    /// A successful operation on `pack` at `path`.
    pub fn ok(pack: String, path: &str, next_actions: Vec<String>) -> (r: AuthoringReport)
        ensures
            r.status@ == "ok"@,
            opt_string_view(r.pack) == Some(pack@),
            opt_string_view(r.path) == Some(path@),
            r.problems@.len() == 0,
            r.next_actions == next_actions,
    {
        AuthoringReport {
            status: String::from_str("ok"),
            pack: Some(pack),
            path: Some(String::from_str(path)),
            problems: Vec::new(),
            next_actions,
        }
    }

    /// An operation refused for `problems`.
    pub fn blocked(
        pack: Option<String>,
        path: Option<&str>,
        problems: Vec<String>,
        next_actions: Vec<String>,
    ) -> (r: AuthoringReport)
        ensures
            r.status@ == "blocked"@,
            r.pack == pack,
            opt_string_view(r.path) == match path {
                Some(p) => Some(p@),
                None => None::<Seq<char>>,
            },
            r.problems == problems,
            r.next_actions == next_actions,
    {
        AuthoringReport {
            status: String::from_str("blocked"),
            pack,
            path: match path {
                Some(p) => Some(String::from_str(p)),
                None => None,
            },
            problems,
            next_actions,
        }
    }

    pub fn is_ok(&self) -> (b: bool)
        ensures
            b == (self.status@ == "ok"@),
    {
        let s = chars_of(self.status.as_str());
        crate::text::chars_eq_str(s.as_slice(), "ok")
    }
}

// ------------------------------------------------------------ validation

/// An identifier: lowercase ASCII letters, digits, `_` and `-`, not empty.
pub open spec fn identifier_ok(value: Seq<char>) -> bool {
    value.len() > 0 && forall|i: int|
        0 <= i < value.len() ==> {
            let c = #[trigger] value[i];
            ('a' <= c && c <= 'z') || ('0' <= c && c <= '9') || c == '_' || c == '-'
        }
}

pub fn validate_identifier(value: &str) -> (r: Result<(), String>)
    ensures
        identifier_ok(value@) ==> r is Ok,
        !identifier_ok(value@) ==> (r matches Err(e) && e@
            == "identifier must use lowercase ascii letters, digits, '_' or '-': "@ + value@),
{
    let v = chars_of(value);
    let mut ok = v.len() > 0;
    let mut i: usize = 0;
    while i < v.len()
        invariant
            i <= v@.len(),
            v@ == value@,
            ok == (v@.len() > 0 && forall|j: int|
                0 <= j < i ==> {
                    let c = #[trigger] v@[j];
                    ('a' <= c && c <= 'z') || ('0' <= c && c <= '9') || c == '_' || c == '-'
                }),
        decreases v@.len() - i,
    {
        let c = v[i];
        if !(('a' <= c && c <= 'z') || ('0' <= c && c <= '9') || c == '_' || c == '-') {
            ok = false;
        }
        i = i + 1;
    }
    if ok {
        Ok(())
    } else {
        let mut m: Vec<char> = Vec::new();
        push_str(&mut m, "identifier must use lowercase ascii letters, digits, '_' or '-': ");
        push_str(&mut m, value);
        Err(string_of(m.as_slice()))
    }
}

/// A fixture name: a safe relative path of one component, with no
/// separator and no colon.
pub open spec fn fixture_name_ok(fixture: Seq<char>) -> bool {
    &&& safe_relative(fixture)
    &&& crate::paths::segments(fixture).len() == 1
    &&& !contains(fixture, seq!['/'])
    &&& !contains(fixture, seq!['\\'])
    &&& !contains(fixture, seq![':'])
}

pub fn validate_fixture_name(fixture: &str) -> (r: Result<(), String>)
    ensures
        fixture_name_ok(fixture@) ==> r is Ok,
        !fixture_name_ok(fixture@) ==> (r matches Err(e) && e@ == "unsafe fixture name: "@ + fixture@),
{
    let f = chars_of(fixture);
    let slash = vec!['/'];
    let back = vec!['\\'];
    let colon = vec![':'];
    assert(slash@ =~= seq!['/']);
    assert(back@ =~= seq!['\\']);
    assert(colon@ =~= seq![':']);
    let mut seps: usize = 0;
    let mut i: usize = 0;
    let one = crate::paths::is_safe_relative_path(fixture)
        && !crate::text::contains_exec(f.as_slice(), slash.as_slice())
        && !crate::text::contains_exec(f.as_slice(), back.as_slice())
        && !crate::text::contains_exec(f.as_slice(), colon.as_slice());
    proof {
        if one {
            lemma_no_separator_one_segment(fixture@);
        }
    }
    if one {
        Ok(())
    } else {
        let mut m: Vec<char> = Vec::new();
        push_str(&mut m, "unsafe fixture name: ");
        push_str(&mut m, fixture);
        Err(string_of(m.as_slice()))
    }
}

/// A path with no separator is one piece.
proof fn lemma_no_separator_one_segment(s: Seq<char>)
    requires
        !contains(s, seq!['/']),
        !contains(s, seq!['\\']),
    ensures
        crate::paths::segments(s).len() == 1,
    decreases s.len(),
{
    if s.len() > 0 {
        assert(!crate::paths::is_sep(s.last())) by {
            if s.last() == '/' {
                assert(s.subrange(s.len() - 1, s.len() as int) =~= seq!['/']);
                assert(crate::text::matches_at(s, s.len() - 1, seq!['/']));
            }
            if s.last() == '\\' {
                assert(s.subrange(s.len() - 1, s.len() as int) =~= seq!['\\']);
                assert(crate::text::matches_at(s, s.len() - 1, seq!['\\']));
            }
        }
        assert(!contains(s.drop_last(), seq!['/'])) by {
            if contains(s.drop_last(), seq!['/']) {
                let k = choose|k: int| crate::text::matches_at(s.drop_last(), k, seq!['/']);
                assert(s.drop_last().subrange(k, k + 1) =~= s.subrange(k, k + 1));
                assert(crate::text::matches_at(s, k, seq!['/']));
            }
        }
        assert(!contains(s.drop_last(), seq!['\\'])) by {
            if contains(s.drop_last(), seq!['\\']) {
                let k = choose|k: int| crate::text::matches_at(s.drop_last(), k, seq!['\\']);
                assert(s.drop_last().subrange(k, k + 1) =~= s.subrange(k, k + 1));
                assert(crate::text::matches_at(s, k, seq!['\\']));
            }
        }
        lemma_no_separator_one_segment(s.drop_last());
    }
}

/// Where a stage document is kept, and whether it may be absent.
pub open spec fn document_file(document: Seq<char>) -> Option<(Seq<char>, bool)> {
    if document == "instructions"@ {
        Some(("instructions.md"@, false))
    } else if document == "hints"@ {
        Some(("hints.md"@, false))
    } else if document == "design_prompt"@ {
        Some(("design_prompt.md"@, true))
    } else {
        None
    }
}

pub open spec fn document_file_name(document: Seq<char>) -> Seq<char> {
    match document_file(document) {
        Some((file, _)) => file,
        None => Seq::empty(),
    }
}

pub fn stage_document_file(document: &str) -> (r: Result<(&'static str, bool), String>)
    ensures
        match document_file(document@) {
            Some((file, optional)) => r matches Ok((f, o)) && f@ == file && o == optional,
            None => r matches Err(e) && e@ == "unsupported stage document "@ + document@
                + "; expected instructions, hints, or design_prompt"@,
        },
{
    let d = chars_of(document);
    if crate::text::chars_eq_str(d.as_slice(), "instructions") {
        Ok(("instructions.md", false))
    } else if crate::text::chars_eq_str(d.as_slice(), "hints") {
        Ok(("hints.md", false))
    } else if crate::text::chars_eq_str(d.as_slice(), "design_prompt") {
        Ok(("design_prompt.md", true))
    } else {
        let mut m: Vec<char> = Vec::new();
        push_str(&mut m, "unsupported stage document ");
        push_str(&mut m, document);
        push_str(&mut m, "; expected instructions, hints, or design_prompt");
        Err(string_of(m.as_slice()))
    }
}

/// The most bytes authored text may take.
pub open spec fn max_authored_bytes() -> nat {
    1048576
}

/// The most bytes a metadata value may take.
pub open spec fn max_metadata_bytes() -> nat {
    4096
}

pub open spec fn byte_count(s: Seq<char>) -> nat {
    crate::health::byte_len(s)
}

/// Whether `s` takes more than `max` bytes in UTF-8.
pub fn exceeds_bytes(s: &[char], max: usize) -> (b: bool)
    ensures
        b == (byte_count(s@) > max),
{
    let mut used: usize = 0;
    let mut i: usize = 0;
    while i < s.len()
        invariant
            i <= s@.len(),
            used <= max,
            used == crate::health::byte_len(s@.take(i as int)),
        decreases s@.len() - i,
    {
        let c = s[i];
        let u = c as u32;
        let w: usize = if u < 0x80 {
            1
        } else if u < 0x800 {
            2
        } else if u < 0x10000 {
            3
        } else {
            4
        };
        proof {
            assert(s@.take(i + 1) =~= s@.take(i as int).push(s@[i as int]));
            crate::health::lemma_byte_len_push(s@.take(i as int), s@[i as int]);
        }
        if w > max - used {
            proof {
                crate::health::lemma_byte_len_split(s@, i + 1);
            }
            return true;
        }
        used = used + w;
        i = i + 1;
    }
    assert(s@.take(i as int) =~= s@);
    false
}

/// Why a metadata value is refused: blank, or longer than the limit.
pub open spec fn text_problem(label: Seq<char>, value: Seq<char>) -> Option<Seq<char>> {
    if trim(value).len() == 0 {
        Some(label + " must not be empty"@)
    } else if byte_count(value) > max_metadata_bytes() {
        Some(label + " exceeds the 4096 byte authoring limit"@)
    } else {
        None
    }
}

pub fn validate_nonempty_text(label: &str, value: &str) -> (r: Result<(), String>)
    ensures
        match text_problem(label@, value@) {
            Some(e) => r matches Err(x) && x@ == e,
            None => r is Ok,
        },
{
    let v = chars_of(value);
    if crate::text::trim_chars(v.as_slice()).len() == 0 {
        let mut m = chars_of(label);
        push_str(&mut m, " must not be empty");
        return Err(string_of(m.as_slice()));
    }
    if exceeds_bytes(v.as_slice(), 4096) {
        let mut m = chars_of(label);
        push_str(&mut m, " exceeds the 4096 byte authoring limit");
        return Err(string_of(m.as_slice()));
    }
    Ok(())
}

pub fn validate_authored_content(label: &str, value: &str, allow_empty: bool) -> (r: Result<(), String>)
    ensures
        !allow_empty && trim(value@).len() == 0 ==> (r matches Err(e) && e@ == label@
            + " must not be empty"@),
        (allow_empty || trim(value@).len() > 0) && byte_count(value@) > max_authored_bytes() ==> (
        r matches Err(e) && e@ == label@ + " exceeds the 1048576 byte authoring limit"@),
        (allow_empty || trim(value@).len() > 0) && byte_count(value@) <= max_authored_bytes()
            ==> r is Ok,
{
    let v = chars_of(value);
    if !allow_empty && crate::text::trim_chars(v.as_slice()).len() == 0 {
        let mut m = chars_of(label);
        push_str(&mut m, " must not be empty");
        return Err(string_of(m.as_slice()));
    }
    if exceeds_bytes(v.as_slice(), 1048576) {
        let mut m = chars_of(label);
        push_str(&mut m, " exceeds the 1048576 byte authoring limit");
        return Err(string_of(m.as_slice()));
    }
    Ok(())
}

/// The error for a stage the pack does not have.
pub open spec fn missing_stage_message(pack_id: Seq<char>, stage_id: Seq<char>) -> Seq<char> {
    "pack "@ + pack_id + " does not contain stage "@ + stage_id
}

pub fn require_stage<'a>(pack: &'a LoadedPack, stage_id: &str) -> (r: Result<&'a StageSpec, String>)
    ensures
        match stage_position(pack.manifest.stages@, stage_id@) {
            Some(k) => r matches Ok(s) && *s == pack.manifest.stages@[k],
            None => r matches Err(e) && e@ == missing_stage_message(pack.manifest.id@, stage_id@),
        },
{
    match pack.manifest.stage(stage_id) {
        Some(s) => Ok(s),
        None => {
            let mut m: Vec<char> = Vec::new();
            push_str(&mut m, "pack ");
            push_str(&mut m, pack.manifest.id.as_str());
            push_str(&mut m, " does not contain stage ");
            push_str(&mut m, stage_id);
            Err(string_of(m.as_slice()))
        },
    }
}

/// A write the caller is to perform: the file relative to the pack root,
/// the same file under the root, and the report to give once it is written.
#[derive(Debug)]
pub struct PlannedWrite {
    pub relative: String,
    pub path: String,
    pub report: AuthoringReport,
}

/// Plan the write of a stage document into a loaded pack: the content is
/// checked, the stage and the document kind must exist, and the file is the
/// document's file in the stage's directory.
pub fn write_stage_document(request: &WriteStageDocumentRequest, pack: &LoadedPack) -> (r: Result<PlannedWrite, String>)
    ensures
        r is Ok <==> (!(trim(request.content@).len() == 0 || byte_count(request.content@)
            > max_authored_bytes()) && stage_position(pack.manifest.stages@, request.stage@) is Some
            && document_file(request.document@) is Some),
        r matches Ok(w) ==> {
            let k = stage_position(pack.manifest.stages@, request.stage@)->0;
            let rel = path_join(pack.manifest.stages@[k].path@, document_file_name(request.document@));
            &&& w.relative@ == rel
            &&& w.path@ == path_join(pack.root@, rel)
            &&& w.report.status@ == "ok"@
            &&& opt_string_view(w.report.pack) == Some(request.project@)
            &&& opt_string_view(w.report.path) == Some(w.path@)
            &&& w.report.next_actions@.len() == 1
            &&& w.report.next_actions@[0]@ == "Run diagnose_pack to check for remaining placeholders."@
        },
{
    validate_authored_content("stage document", request.content.as_str(), false)?;
    let stage = require_stage(pack, request.stage.as_str())?;
    let (file, _) = stage_document_file(request.document.as_str())?;
    let relative = join_path(stage.path.as_str(), file);
    let path = join_path(pack.root.as_str(), relative.as_str());
    let mut next: Vec<String> = Vec::new();
    next.push(String::from_str("Run diagnose_pack to check for remaining placeholders."));
    let report = AuthoringReport::ok(crate::text::copy_string(&request.project), path.as_str(), next);
    Ok(PlannedWrite { relative, path, report })
}

/// The checks a fixture write must pass before the pack is even loaded.
pub open spec fn fixture_request_problem(request: WriteFixtureFileRequest) -> Option<Seq<char>> {
    if byte_count(request.content@) > max_authored_bytes() {
        Some("fixture file"@ + " exceeds the 1048576 byte authoring limit"@)
    } else if !safe_relative(request.fixture@) {
        Some("unsafe fixture name: "@ + request.fixture@)
    } else if !safe_relative(request.path@) {
        Some("unsafe fixture file path: "@ + request.path@)
    } else {
        None
    }
}

pub fn check_fixture_request(request: &WriteFixtureFileRequest) -> (r: Result<(), String>)
    ensures
        match fixture_request_problem(*request) {
            Some(e) => r matches Err(x) && x@ == e,
            None => r is Ok,
        },
{
    validate_authored_content("fixture file", request.content.as_str(), true)?;
    if !is_safe_relative_path(request.fixture.as_str()) {
        let mut m: Vec<char> = Vec::new();
        push_str(&mut m, "unsafe fixture name: ");
        push_str(&mut m, request.fixture.as_str());
        return Err(string_of(m.as_slice()));
    }
    if !is_safe_relative_path(request.path.as_str()) {
        let mut m: Vec<char> = Vec::new();
        push_str(&mut m, "unsafe fixture file path: ");
        push_str(&mut m, request.path.as_str());
        return Err(string_of(m.as_slice()));
    }
    Ok(())
}

/// Where a fixture file of `request` goes, relative to the pack root: under
/// the stage's `fixtures/<fixture>/` directory.
pub open spec fn fixture_file_relative(stage: StageSpec, request: WriteFixtureFileRequest) -> Seq<char> {
    path_join(path_join(path_join(stage.path@, "fixtures"@), request.fixture@), request.path@)
}

/// Plan the write of a fixture file into a loaded pack: the file goes under
/// the stage's `fixtures/<fixture>/` directory. `target_exists` says whether
/// that file is already there; it is replaced only when the request says
/// to overwrite it.
pub fn write_fixture_file(request: &WriteFixtureFileRequest, pack: &LoadedPack, target_exists: bool) -> (r: Result<PlannedWrite, String>)
    ensures
        fixture_request_problem(*request) matches Some(e) ==> (r matches Err(x) && x@ == e),
        fixture_request_problem(*request) is None ==> match stage_position(pack.manifest.stages@, request.stage@) {
            None => r matches Err(x) && x@ == missing_stage_message(pack.manifest.id@, request.stage@),
            Some(k) => if target_exists && !request.overwrite {
                r matches Err(x) && x@ == "fixture file already exists: "@ + path_join(
                    pack.root@,
                    fixture_file_relative(pack.manifest.stages@[k], *request),
                ) + "; set overwrite=true to replace it"@
            } else {
                r matches Ok(w) && {
                let rel = fixture_file_relative(pack.manifest.stages@[k], *request);
                &&& w.relative@ == rel
                &&& w.path@ == path_join(pack.root@, rel)
                &&& w.report.status@ == "ok"@
                &&& opt_string_view(w.report.pack) == Some(request.project@)
                &&& opt_string_view(w.report.path) == Some(w.path@)
                &&& w.report.next_actions@.len() == 1
                &&& w.report.next_actions@[0]@
                    == "Reference this fixture by name from structured tests or benchmarks."@
                }
            },
        },
{
    check_fixture_request(request)?;
    let stage = require_stage(pack, request.stage.as_str())?;
    let fixtures = join_path(stage.path.as_str(), "fixtures");
    let named = join_path(fixtures.as_str(), request.fixture.as_str());
    let relative = join_path(named.as_str(), request.path.as_str());
    let path = join_path(pack.root.as_str(), relative.as_str());
    if let Some(refusal) = fixture_overwrite_refusal(path.as_str(), target_exists, request.overwrite) {
        return Err(refusal);
    }
    let mut next: Vec<String> = Vec::new();
    next.push(String::from_str("Reference this fixture by name from structured tests or benchmarks."));
    let report = AuthoringReport::ok(crate::text::copy_string(&request.project), path.as_str(), next);
    Ok(PlannedWrite { relative, path, report })
}

/// An existing fixture file is replaced only when the author asked for it.
pub fn fixture_overwrite_refusal(path: &str, exists: bool, overwrite: bool) -> (r: Option<String>)
    ensures
        (exists && !overwrite) ==> (r matches Some(e) && e@ == "fixture file already exists: "@ + path@
            + "; set overwrite=true to replace it"@),
        !(exists && !overwrite) ==> r is None,
{
    if exists && !overwrite {
        let mut m: Vec<char> = Vec::new();
        push_str(&mut m, "fixture file already exists: ");
        push_str(&mut m, path);
        push_str(&mut m, "; set overwrite=true to replace it");
        Some(string_of(m.as_slice()))
    } else {
        None
    }
}

/// One entry of a stage's fixtures directory, as the directory listing
/// gives it: its name where that is valid UTF-8, and what kind of entry it
/// is (`is_dir` only for a directory that also opens as one without
/// following links).
#[derive(Debug, Clone)]
pub struct FixtureDirEntry {
    pub name: Option<String>,
    pub is_dir: bool,
    pub is_symlink: bool,
}

pub open spec fn read_blocked_next() -> Seq<char> {
    "Inspect the reported path and fix the pack before retrying."@
}

/// What is wrong with one fixtures entry, if anything: the path to report
/// and the problem.
pub open spec fn fixture_entry_problem(root: Seq<char>, e: FixtureDirEntry) -> Option<(Seq<char>, Seq<char>)> {
    match e.name {
        None => Some((root, "fixture name is not valid UTF-8"@)),
        Some(n) => if !fixture_name_ok(n@) {
            Some((path_join(root, n@), "unsafe fixture name: "@ + n@))
        } else if e.is_symlink || !e.is_dir {
            Some(
                (
                    path_join(root, n@),
                    "fixture entries must be real directories; symlinks and special files are forbidden"@,
                ),
            )
        } else {
            None
        },
    }
}

/// The problem of the first entry that has one.
pub open spec fn fixture_listing_problem(root: Seq<char>, entries: Seq<FixtureDirEntry>) -> Option<(Seq<char>, Seq<char>)>
    decreases entries.len(),
{
    if entries.len() == 0 {
        None
    } else {
        match fixture_entry_problem(root, entries[0]) {
            Some(p) => Some(p),
            None => fixture_listing_problem(root, entries.drop_first()),
        }
    }
}

/// The entries' names (each entry here has one).
pub open spec fn fixture_names(entries: Seq<FixtureDirEntry>) -> Seq<Seq<char>> {
    entries.map_values(|e: FixtureDirEntry| e.name.unwrap()@)
}

/// The fixtures of a stage, from its fixtures directory's entries: blocked
/// at the first entry whose name is not UTF-8, is not a safe fixture name,
/// or is not a real directory; otherwise the names in ascending order.
pub fn fixture_listing(pack: String, fixtures_root: &str, entries: Vec<FixtureDirEntry>) -> (r: ListFixtureFilesReport)
    ensures
        r.files is None,
        match fixture_listing_problem(fixtures_root@, entries@) {
            Some((path, problem)) => {
                &&& r.report.status@ == "blocked"@
                &&& opt_string_view(r.report.pack) == Some(pack@)
                &&& opt_string_view(r.report.path) == Some(path)
                &&& r.report.problems@.len() == 1
                &&& r.report.problems@[0]@ == problem
                &&& r.report.next_actions@.len() == 1
                &&& r.report.next_actions@[0]@ == read_blocked_next()
                &&& r.fixtures is None
            },
            None => {
                &&& r.report.status@ == "ok"@
                &&& opt_string_view(r.report.pack) == Some(pack@)
                &&& opt_string_view(r.report.path) == Some(fixtures_root@)
                &&& r.report.problems@.len() == 0
                &&& r.report.next_actions@.len() == 1
                &&& r.report.next_actions@[0]@ == "Choose a fixture and list its files before reading content."@
                &&& r.fixtures matches Some(f) && crate::diagnosis::strings_view(f@)
                    == crate::digest::names_in_order(fixture_names(entries@))
            },
        },
{
    let mut names: Vec<String> = Vec::new();
    let mut i: usize = 0;
    assert(entries@.skip(0) =~= entries@);
    while i < entries.len()
        invariant
            i <= entries@.len(),
            fixture_listing_problem(fixtures_root@, entries@) == fixture_listing_problem(
                fixtures_root@,
                entries@.skip(i as int),
            ),
            forall|j: int| 0 <= j < i ==> (#[trigger] entries@[j]).name is Some,
            crate::diagnosis::strings_view(names@) == fixture_names(entries@.take(i as int)),
        decreases entries@.len() - i,
    {
        let e = &entries[i];
        let ghost rest = entries@.skip(i as int);
        assert(rest[0] == entries@[i as int]);
        assert(rest.drop_first() =~= entries@.skip(i + 1));
        let problem: Option<(String, String)> = match &e.name {
            None => Some((String::from_str(fixtures_root), String::from_str("fixture name is not valid UTF-8"))),
            Some(n) => match validate_fixture_name(n.as_str()) {
                Err(error) => Some((join_path(fixtures_root, n.as_str()), error)),
                Ok(()) => if e.is_symlink || !e.is_dir {
                    Some(
                        (
                            join_path(fixtures_root, n.as_str()),
                            String::from_str(
                                "fixture entries must be real directories; symlinks and special files are forbidden",
                            ),
                        ),
                    )
                } else {
                    None
                },
            },
        };
        match problem {
            Some((path, text)) => {
                let mut problems: Vec<String> = Vec::new();
                problems.push(text);
                let mut next: Vec<String> = Vec::new();
                next.push(String::from_str("Inspect the reported path and fix the pack before retrying."));
                let report = AuthoringReport::blocked(Some(pack), Some(path.as_str()), problems, next);
                return ListFixtureFilesReport { report, fixtures: None, files: None };
            },
            None => {},
        }
        let name = match &e.name {
            Some(n) => crate::text::copy_string(n),
            None => String::new(),
        };
        let ghost prev = names@;
        names.push(name);
        assert(crate::diagnosis::strings_view(names@) =~= crate::diagnosis::strings_view(prev).push(name@));
        i = i + 1;
        assert(fixture_names(entries@.take(i as int)) =~= fixture_names(entries@.take(i - 1)).push(
            entries@[i - 1].name.unwrap()@,
        ));
    }
    assert(entries@.take(i as int) =~= entries@);
    assert(entries@.skip(i as int) =~= Seq::<FixtureDirEntry>::empty());
    let sorted = crate::digest::sort_names(names);
    let mut next: Vec<String> = Vec::new();
    next.push(String::from_str("Choose a fixture and list its files before reading content."));
    let report = AuthoringReport::ok(pack, fixtures_root, next);
    ListFixtureFilesReport { report, fixtures: Some(sorted), files: None }
}

/// What walking one fixture found at one path.
#[derive(Debug, Clone)]
pub enum FixtureNodeKind {
    /// A regular file and its size in bytes.
    File { size: u64 },
    /// A directory, and whether it opened as one without following links.
    Directory { opened: bool },
    Symlink,
    Special,
}

/// One entry of a fixture's tree: the relative directory it sits in (empty
/// at the fixture's root), its name where that is valid UTF-8, and what it
/// is. Entries come in walk order, a directory before what it holds.
#[derive(Debug, Clone)]
pub struct FixtureNode {
    pub parent: String,
    pub name: Option<String>,
    pub kind: FixtureNodeKind,
}

/// What is wrong with one entry of a fixture's tree, if anything.
pub open spec fn fixture_node_problem(n: FixtureNode) -> Option<Seq<char>> {
    match n.name {
        None => Some("fixture path component is not valid UTF-8"@),
        Some(name) => if !fixture_name_ok(name@) {
            Some("unsafe fixture name: "@ + name@)
        } else {
            let rel = path_join(n.parent@, name@);
            match n.kind {
                FixtureNodeKind::Symlink => Some("fixture tree contains a symbolic link: "@ + rel),
                FixtureNodeKind::Directory { opened } => if opened {
                    None
                } else {
                    Some("fixture directory changed or is a symlink: "@ + rel)
                },
                FixtureNodeKind::Special => Some("fixture tree contains a special file: "@ + rel),
                FixtureNodeKind::File { .. } => None,
            }
        },
    }
}

/// The problem of the first entry that has one.
pub open spec fn fixture_tree_problem(s: Seq<FixtureNode>) -> Option<Seq<char>>
    decreases s.len(),
{
    if s.len() == 0 {
        None
    } else if fixture_node_problem(s[0]) is Some {
        fixture_node_problem(s[0])
    } else {
        fixture_tree_problem(s.drop_first())
    }
}

/// The files of a fixture's tree: each relative path and size.
pub open spec fn fixture_tree_files(s: Seq<FixtureNode>) -> Seq<(Seq<char>, u64)>
    decreases s.len(),
{
    if s.len() == 0 {
        Seq::empty()
    } else {
        let n = s.last();
        match (n.name, n.kind) {
            (Some(name), FixtureNodeKind::File { size }) => fixture_tree_files(s.drop_last()).push(
                (path_join(n.parent@, name@), size),
            ),
            _ => fixture_tree_files(s.drop_last()),
        }
    }
}

/// `x` placed among `s`, which is in path order: after every entry whose
/// path does not sort after its own.
pub open spec fn insert_by_file_path(s: Seq<(Seq<char>, u64)>, x: (Seq<char>, u64)) -> Seq<(Seq<char>, u64)>
    decreases s.len(),
{
    if s.len() == 0 {
        seq![x]
    } else if !crate::digest::name_lt(x.0, s.last().0) {
        s.push(x)
    } else {
        insert_by_file_path(s.drop_last(), x).push(s.last())
    }
}

/// Files in order of their paths, compared as strings.
pub open spec fn files_by_path(s: Seq<(Seq<char>, u64)>) -> Seq<(Seq<char>, u64)>
    decreases s.len(),
{
    if s.len() == 0 {
        Seq::empty()
    } else {
        insert_by_file_path(files_by_path(s.drop_last()), s.last())
    }
}

pub open spec fn file_entries_view(v: Seq<FixtureFileEntry>) -> Seq<(Seq<char>, u64)> {
    v.map_values(|e: FixtureFileEntry| (e.path@, e.size))
}

fn insert_file_entry(out: &mut Vec<FixtureFileEntry>, x: FixtureFileEntry)
    ensures
        file_entries_view(final(out)@) == insert_by_file_path(file_entries_view(old(out)@), (x.path@, x.size)),
{
    let ghost s = file_entries_view(out@);
    let ghost xv = (x.path@, x.size);
    let xc = chars_of(x.path.as_str());
    let mut k: usize = out.len();
    assert(s.take(s.len() as int) =~= s);
    loop
        invariant
            k <= s.len(),
            s == file_entries_view(out@),
            xv == (x.path@, x.size),
            xc@ == xv.0,
            insert_by_file_path(s, xv) == insert_by_file_path(s.take(k as int), xv) + s.skip(k as int),
        ensures
            k <= s.len(),
            s == file_entries_view(out@),
            insert_by_file_path(s, xv) == insert_by_file_path(s.take(k as int), xv) + s.skip(k as int),
            k == 0 || !crate::digest::name_lt(xv.0, s[k - 1].0),
        decreases k,
    {
        if k == 0 {
            break;
        }
        let prev = chars_of(out[k - 1].path.as_str());
        assert(s[k - 1].0 == out@[k - 1].path@);
        if !crate::digest::name_less(xc.as_slice(), prev.as_slice()) {
            break;
        }
        proof {
            let t = s.take(k as int);
            assert(t.drop_last() =~= s.take(k - 1));
            assert(t.last() == s[k - 1]);
            assert(s.skip(k - 1) =~= seq![s[k - 1]] + s.skip(k as int));
            assert(insert_by_file_path(t.drop_last(), xv).push(t.last()) + s.skip(k as int) =~= insert_by_file_path(
                t.drop_last(),
                xv,
            ) + s.skip(k - 1));
        }
        k = k - 1;
    }
    proof {
        let t = s.take(k as int);
        if k > 0 {
            assert(t.last() == s[k - 1]);
        }
        assert(insert_by_file_path(t, xv) == t.push(xv));
    }
    let ghost before = out@;
    out.insert(k, x);
    assert(out@ =~= before.take(k as int).push(out@[k as int]) + before.skip(k as int));
    assert(file_entries_view(out@) =~= s.take(k as int).push(xv) + s.skip(k as int));
}

/// The files of one fixture, from the entries its walk found: an unsafe
/// fixture name is an error; the first entry that is not valid UTF-8, is
/// not a safe name, is a link, a special file or a directory that did not
/// open is reported blocked; otherwise every file, with its size, in order
/// of its relative path.
pub fn fixture_files_listing(pack: String, fixture: &str, fixture_root: &str, nodes: Vec<FixtureNode>) -> (r: Result<
    ListFixtureFilesReport,
    String,
>)
    ensures
        !fixture_name_ok(fixture@) ==> (r matches Err(e) && e@ == "unsafe fixture name: "@ + fixture@),
        fixture_name_ok(fixture@) ==> (r matches Ok(l) && {
            &&& opt_string_view(l.report.pack) == Some(pack@)
            &&& opt_string_view(l.report.path) == Some(fixture_root@)
            &&& l.fixtures is None
            &&& l.report.next_actions@.len() == 1
            &&& match fixture_tree_problem(nodes@) {
                Some(problem) => {
                    &&& l.report.status@ == "blocked"@
                    &&& l.report.problems@.len() == 1
                    &&& l.report.problems@[0]@ == problem
                    &&& l.report.next_actions@[0]@ == read_blocked_next()
                    &&& l.files is None
                },
                None => {
                    &&& l.report.status@ == "ok"@
                    &&& l.report.problems@.len() == 0
                    &&& l.report.next_actions@[0]@ == "Use read_fixture_file with one listed relative path."@
                    &&& l.files matches Some(f) && file_entries_view(f@) == files_by_path(
                        fixture_tree_files(nodes@),
                    )
                },
            }
        }),
{
    validate_fixture_name(fixture)?;
    let ghost all = nodes@;
    let mut found: Vec<FixtureFileEntry> = Vec::new();
    let mut i: usize = 0;
    assert(all.skip(0) =~= all);
    while i < nodes.len()
        invariant
            i <= all.len(),
            all == nodes@,
            fixture_name_ok(fixture@),
            fixture_tree_problem(all) == fixture_tree_problem(all.skip(i as int)),
            file_entries_view(found@) == fixture_tree_files(all.take(i as int)),
        decreases all.len() - i,
    {
        let ghost tail = all.skip(i as int);
        assert(tail[0] == all[i as int]);
        assert(tail.drop_first() =~= all.skip(i + 1));
        assert(all.take(i + 1).drop_last() =~= all.take(i as int));
        assert(all.take(i + 1).last() == all[i as int]);
        let n = &nodes[i];
        let problem: Option<String> = match &n.name {
            None => Some(String::from_str("fixture path component is not valid UTF-8")),
            Some(name) => match validate_fixture_name(name.as_str()) {
                Err(e) => Some(e),
                Ok(()) => {
                    let rel = join_path(n.parent.as_str(), name.as_str());
                    match &n.kind {
                        FixtureNodeKind::Symlink => {
                            let mut m: Vec<char> = Vec::new();
                            push_str(&mut m, "fixture tree contains a symbolic link: ");
                            push_str(&mut m, rel.as_str());
                            Some(string_of(m.as_slice()))
                        },
                        FixtureNodeKind::Directory { opened } => if *opened {
                            None
                        } else {
                            let mut m: Vec<char> = Vec::new();
                            push_str(&mut m, "fixture directory changed or is a symlink: ");
                            push_str(&mut m, rel.as_str());
                            Some(string_of(m.as_slice()))
                        },
                        FixtureNodeKind::Special => {
                            let mut m: Vec<char> = Vec::new();
                            push_str(&mut m, "fixture tree contains a special file: ");
                            push_str(&mut m, rel.as_str());
                            Some(string_of(m.as_slice()))
                        },
                        FixtureNodeKind::File { size } => {
                            let ghost before = found@;
                            found.push(FixtureFileEntry { path: rel, size: *size });
                            assert(file_entries_view(found@) =~= file_entries_view(before).push(
                                (path_join(n.parent@, name@), *size),
                            ));
                            None
                        },
                    }
                },
            },
        };
        if let Some(text) = problem {
            let mut problems: Vec<String> = Vec::new();
            problems.push(text);
            let mut next: Vec<String> = Vec::new();
            next.push(String::from_str("Inspect the reported path and fix the pack before retrying."));
            let report = AuthoringReport::blocked(Some(pack), Some(fixture_root), problems, next);
            return Ok(ListFixtureFilesReport { report, fixtures: None, files: None });
        }
        i = i + 1;
    }
    assert(all.take(i as int) =~= all);
    let ghost unsorted = file_entries_view(found@);
    let n = found.len();
    let mut rest = found;
    let mut sorted: Vec<FixtureFileEntry> = Vec::new();
    let mut k: usize = 0;
    let ghost orig = rest@;
    assert(file_entries_view(sorted@) =~= files_by_path(unsorted.take(0)));
    while rest.len() > 0
        invariant
            k <= n,
            orig.len() == n,
            unsorted == file_entries_view(orig),
            rest@ == orig.skip(k as int),
            file_entries_view(sorted@) == files_by_path(unsorted.take(k as int)),
        decreases rest@.len(),
    {
        assert(unsorted.take(k + 1).drop_last() =~= unsorted.take(k as int));
        assert(rest@[0] == orig[k as int]);
        let x = rest.remove(0);
        assert(rest@ =~= orig.skip(k + 1));
        assert(unsorted.take(k + 1).last() == (x.path@, x.size));
        insert_file_entry(&mut sorted, x);
        k = k + 1;
    }
    assert(unsorted.take(k as int) =~= unsorted);
    let mut next: Vec<String> = Vec::new();
    next.push(String::from_str("Use read_fixture_file with one listed relative path."));
    let report = AuthoringReport::ok(pack, fixture_root, next);
    Ok(ListFixtureFilesReport { report, fixtures: None, files: Some(sorted) })
}

/// Where a stage document of `request` lies in a loaded pack: its path
/// relative to the pack root, its full path, and whether the document is
/// optional. An unknown stage, then an unknown document, is an error.
pub fn stage_document_target(pack: &LoadedPack, request: &ReadStageDocumentRequest) -> (r: Result<
    (String, String, bool),
    String,
>)
    ensures
        match stage_position(pack.manifest.stages@, request.stage@) {
            None => r matches Err(e) && e@ == missing_stage_message(pack.manifest.id@, request.stage@),
            Some(k) => match document_file(request.document@) {
                None => r matches Err(e) && e@ == "unsupported stage document "@ + request.document@
                    + "; expected instructions, hints, or design_prompt"@,
                Some((file, optional)) => r matches Ok((rel, path, o)) && rel@ == path_join(
                    pack.manifest.stages@[k].path@,
                    file,
                ) && path@ == path_join(pack.root@, rel@) && o == optional,
            },
        },
{
    let stage = require_stage(pack, request.stage.as_str())?;
    let (file, optional) = stage_document_file(request.document.as_str())?;
    let relative = join_path(stage.path.as_str(), file);
    let path = join_path(pack.root.as_str(), relative.as_str());
    Ok((relative, path, optional))
}

/// Why reading a stage document fails, if it does, once it is known to be
/// there or required: it could not be opened (`opened` is the error), is
/// over the authored-text limit, is not UTF-8 (`text` is the decoding
/// error), or grew past the limit while it was read.
pub open spec fn stage_document_problem(opened: Result<u64, String>, text: Result<String, String>) -> Option<Seq<char>> {
    match opened {
        Err(e) => Some(e@),
        Ok(size) => if size > max_authored_bytes() {
            Some("file exceeds the 1048576 byte authored-text limit"@)
        } else {
            match text {
                Err(u) => Some("stage document is not valid UTF-8: "@ + u@),
                Ok(t) => if byte_count(t@) > max_authored_bytes() {
                    Some("file exceeds the 1048576 byte authored-text limit"@)
                } else {
                    None
                },
            }
        },
    }
}

/// The report of reading a stage document at `path`: an optional document
/// that is not there is no error; otherwise the document's text, or
/// blocked with why it could not be read.
pub fn stage_document_report(
    pack: String,
    path: &str,
    document: &str,
    optional: bool,
    present: bool,
    opened: Result<u64, String>,
    text: Result<String, String>,
) -> (r: ReadStageDocumentReport)
    ensures
        opt_string_view(r.report.pack) == Some(pack@),
        opt_string_view(r.report.path) == Some(path@),
        r.report.next_actions@.len() == 1,
        optional && !present ==> {
            &&& r.report.status@ == "ok"@
            &&& r.report.problems@.len() == 0
            &&& r.report.next_actions@[0]@ == "The optional "@ + document@
                + " document is not present; write it only if the stage needs it."@
            &&& r.content is None
        },
        !(optional && !present) ==> match stage_document_problem(opened, text) {
            Some(problem) => {
                &&& r.report.status@ == "blocked"@
                &&& r.report.problems@.len() == 1
                &&& r.report.problems@[0]@ == problem
                &&& r.report.next_actions@[0]@ == read_blocked_next()
                &&& r.content is None
            },
            None => {
                &&& r.report.status@ == "ok"@
                &&& r.report.problems@.len() == 0
                &&& r.report.next_actions@[0]@ == "Use write_stage_document to replace this exact document if needed."@
                &&& r.content matches Some(c) && text matches Ok(t) && c@ == t@
            },
        },
{
    if optional && !present {
        let mut m: Vec<char> = Vec::new();
        push_str(&mut m, "The optional ");
        push_str(&mut m, document);
        push_str(&mut m, " document is not present; write it only if the stage needs it.");
        let mut next: Vec<String> = Vec::new();
        next.push(string_of(m.as_slice()));
        let report = AuthoringReport::ok(pack, path, next);
        return ReadStageDocumentReport { report, content: None };
    }
    let problem = match opened {
        Err(e) => e,
        Ok(size) => if size > MAX_AUTHORED_TEXT_BYTES {
            String::from_str("file exceeds the 1048576 byte authored-text limit")
        } else {
            match text {
                Err(u) => {
                    let mut m: Vec<char> = Vec::new();
                    push_str(&mut m, "stage document is not valid UTF-8: ");
                    push_str(&mut m, u.as_str());
                    string_of(m.as_slice())
                },
                Ok(t) => {
                    let chars = chars_of(t.as_str());
                    if exceeds_bytes(chars.as_slice(), 1048576) {
                        String::from_str("file exceeds the 1048576 byte authored-text limit")
                    } else {
                        let mut next: Vec<String> = Vec::new();
                        next.push(String::from_str("Use write_stage_document to replace this exact document if needed."));
                        let report = AuthoringReport::ok(pack, path, next);
                        return ReadStageDocumentReport { report, content: Some(t) };
                    }
                },
            }
        },
    };
    let mut problems: Vec<String> = Vec::new();
    problems.push(problem);
    let mut next: Vec<String> = Vec::new();
    next.push(String::from_str("Inspect the reported path and fix the pack before retrying."));
    let report = AuthoringReport::blocked(Some(pack), Some(path), problems, next);
    ReadStageDocumentReport { report, content: None }
}

/// The first index from `k` on whose component is a symbolic link.
pub open spec fn first_link(links: Seq<bool>, k: int) -> Option<int>
    decreases links.len() - k,
{
    if k < 0 || k >= links.len() {
        None
    } else if links[k] {
        Some(k)
    } else {
        first_link(links, k + 1)
    }
}

/// The root with the first `k + 1` components of `relative` appended.
pub open spec fn component_path(root: Seq<char>, relative: Seq<char>, k: int) -> Seq<char> {
    path_join(root, crate::text::join(crate::paths::segments(relative).take(k + 1), "/"@))
}

/// Why an authored write under `root` at `relative` is refused, if it is:
/// an unsafe relative path, a root that is a symbolic link, or a path that
/// crosses one. `links[k]` says whether the path made of the root and the
/// first `k + 1` components is a symbolic link.
pub open spec fn symlink_refusal(root: Seq<char>, relative: Seq<char>, root_is_link: bool, links: Seq<bool>) -> Option<Seq<char>> {
    if !safe_relative(relative) {
        Some("unsafe authoring path: "@ + relative)
    } else if root_is_link {
        Some("pack root must not be a symbolic link: "@ + root)
    } else {
        match first_link(links, 0) {
            Some(k) => Some("authoring path crosses symbolic link: "@ + component_path(root, relative, k)),
            None => None,
        }
    }
}

/// Refuse an authored write that would leave the pack: through an unsafe
/// path or through a symbolic link on the way to the file.
pub fn reject_symlink_components(root: &str, relative: &str, root_is_link: bool, links: &Vec<bool>) -> (r: Result<(), String>)
    requires
        safe_relative(relative@) ==> links@.len() == crate::paths::segments(relative@).len(),
    ensures
        match symlink_refusal(root@, relative@, root_is_link, links@) {
            Some(e) => r matches Err(x) && x@ == e,
            None => r is Ok,
        },
{
    if !is_safe_relative_path(relative) {
        let mut m: Vec<char> = Vec::new();
        push_str(&mut m, "unsafe authoring path: ");
        push_str(&mut m, relative);
        return Err(string_of(m.as_slice()));
    }
    if root_is_link {
        let mut m: Vec<char> = Vec::new();
        push_str(&mut m, "pack root must not be a symbolic link: ");
        push_str(&mut m, root);
        return Err(string_of(m.as_slice()));
    }
    let rel = chars_of(relative);
    let parts = crate::paths::split_segments(rel.as_slice());
    let mut k: usize = 0;
    while k < links.len()
        invariant
            k <= links@.len(),
            links@.len() == crate::text::views(parts@).len(),
            crate::text::views(parts@) == crate::paths::segments(relative@),
            first_link(links@, 0) == first_link(links@, k as int),
            safe_relative(relative@),
            !root_is_link,
        decreases links@.len() - k,
    {
        if links[k] {
            let mut prefix: Vec<Vec<char>> = Vec::new();
            let mut j: usize = 0;
            while j < k
                invariant
                    j <= k,
                    k < links@.len() == parts@.len(),
                    crate::text::views(prefix@) == crate::text::views(parts@).take(j as int),
                decreases k - j,
            {
                let ghost before = prefix@;
                prefix.push(crate::text::copy_chars(&parts[j]));
                assert(crate::text::views(prefix@) =~= crate::text::views(before).push(parts@[j as int]@));
                j = j + 1;
                assert(crate::text::views(parts@).take(j as int) =~= crate::text::views(parts@).take(j - 1).push(
                    parts@[j - 1]@,
                ));
            }
            let ghost before = prefix@;
            prefix.push(crate::text::copy_chars(&parts[k]));
            assert(crate::text::views(prefix@) =~= crate::text::views(before).push(parts@[k as int]@));
            assert(crate::text::views(parts@).take(k + 1) =~= crate::text::views(parts@).take(k as int).push(
                parts@[k as int]@,
            ));
            assert(first_link(links@, k as int) == Some(k as int));
            let slash = vec!['/'];
            let joined = crate::text::join_chars(&prefix, slash.as_slice());
            let joined_text = string_of(joined.as_slice());
            let full = join_path(root, joined_text.as_str());
            let mut m: Vec<char> = Vec::new();
            push_str(&mut m, "authoring path crosses symbolic link: ");
            push_str(&mut m, full.as_str());
            assert(slash@ =~= "/"@) by {
                reveal_strlit("/");
            }
            assert(joined@ == crate::text::join(crate::paths::segments(relative@).take(k + 1), "/"@));
            assert(full@ == component_path(root@, relative@, k as int));
            return Err(string_of(m.as_slice()));
        }
        k = k + 1;
    }
    Ok(())
}

/// What is wrong with naming `path` inside fixture `fixture`, if anything.
pub open spec fn fixture_target_problem(fixture: Seq<char>, path: Seq<char>) -> Option<Seq<char>> {
    if !fixture_name_ok(fixture) {
        Some("unsafe fixture name: "@ + fixture)
    } else if !safe_relative(path) {
        Some("unsafe fixture file path: "@ + path)
    } else {
        None
    }
}

/// A fixture file to read or delete must be named safely: a safe fixture
/// name and a safe relative path inside it.
pub fn check_fixture_target(fixture: &str, path: &str) -> (r: Result<(), String>)
    ensures
        match fixture_target_problem(fixture@, path@) {
            Some(e) => r matches Err(x) && x@ == e,
            None => r is Ok,
        },
{
    validate_fixture_name(fixture)?;
    if !is_safe_relative_path(path) {
        let mut m: Vec<char> = Vec::new();
        push_str(&mut m, "unsafe fixture file path: ");
        push_str(&mut m, path);
        return Err(string_of(m.as_slice()));
    }
    Ok(())
}

/// The most bytes an authored file may hold.
pub const MAX_AUTHORED_TEXT_BYTES: u64 = 1048576;

/// Why reading a fixture file fails, if it does: it could not be opened
/// safely (`opened` is the error), it holds more than the authored-text
/// limit (`opened` is its size in bytes), or what was read is not UTF-8
/// text (`text` is `None`) or has grown past the limit.
pub open spec fn fixture_read_problem(opened: Result<u64, String>, text: Option<String>) -> Option<Seq<char>> {
    match opened {
        Err(e) => Some(e@),
        Ok(size) => if size > max_authored_bytes() {
            Some("file exceeds the 1048576 byte authored-text limit"@)
        } else {
            match text {
                None => Some("fixture file is not valid UTF-8; binary fixtures are not supported by this tool"@),
                Some(t) => if byte_count(t@) > max_authored_bytes() {
                    Some("file exceeds the 1048576 byte authored-text limit"@)
                } else {
                    None
                },
            }
        },
    }
}

/// The report of reading a fixture file at `path` of pack `pack`, from
/// what opening it gave (its size, or why it could not be opened safely)
/// and the text read from it where it was read and is UTF-8. A file over
/// the authored-text limit is refused whatever was read.
pub fn fixture_read_report(pack: String, path: &str, opened: Result<u64, String>, text: Option<String>) -> (r: ReadFixtureFileReport)
    ensures
        opt_string_view(r.report.pack) == Some(pack@),
        opt_string_view(r.report.path) == Some(path@),
        r.report.next_actions@.len() == 1,
        match fixture_read_problem(opened, text) {
            Some(problem) => {
                &&& r.report.status@ == "blocked"@
                &&& r.report.problems@.len() == 1
                &&& r.report.problems@[0]@ == problem
                &&& r.report.next_actions@[0]@ == read_blocked_next()
                &&& r.content is None
            },
            None => {
                &&& r.report.status@ == "ok"@
                &&& r.report.problems@.len() == 0
                &&& r.report.next_actions@[0]@
                    == "Use write_fixture_file with overwrite=true only after grounding on this content."@
                &&& r.content matches Some(c) && text matches Some(t) && c@ == t@
            },
        },
{
    let problem = match opened {
        Err(e) => e,
        Ok(size) => if size > MAX_AUTHORED_TEXT_BYTES {
            String::from_str("file exceeds the 1048576 byte authored-text limit")
        } else {
            match text {
                None => String::from_str(
                    "fixture file is not valid UTF-8; binary fixtures are not supported by this tool",
                ),
                Some(t) => {
                    let chars = chars_of(t.as_str());
                    if exceeds_bytes(chars.as_slice(), 1048576) {
                        String::from_str("file exceeds the 1048576 byte authored-text limit")
                    } else {
                        let mut next: Vec<String> = Vec::new();
                        next.push(
                            String::from_str(
                                "Use write_fixture_file with overwrite=true only after grounding on this content.",
                            ),
                        );
                        let report = AuthoringReport::ok(pack, path, next);
                        return ReadFixtureFileReport { report, content: Some(t) };
                    }
                },
            }
        },
    };
    let mut problems: Vec<String> = Vec::new();
    problems.push(problem);
    let mut next: Vec<String> = Vec::new();
    next.push(String::from_str("Inspect the reported path and fix the pack before retrying."));
    let report = AuthoringReport::blocked(Some(pack), Some(path), problems, next);
    ReadFixtureFileReport { report, content: None }
}

/// Where a fixture deletion points before the pack is loaded: the pack
/// directory's `stages/<stage>/fixtures/<fixture>/<path>`.
pub open spec fn expected_fixture_path(request: DeleteFixtureFileRequest) -> Seq<char> {
    path_join(
        path_join(
            path_join(
                path_join(path_join(path_join(request.packs_dir@, request.project@), "stages"@), request.stage@),
                "fixtures"@,
            ),
            request.fixture@,
        ),
        request.path@,
    )
}

/// A deletion must name its target safely and be confirmed: an error for
/// an unsafe name, a blocked report for an unconfirmed request, and `None`
/// where it may go ahead.
pub fn check_fixture_deletion(request: &DeleteFixtureFileRequest) -> (r: Result<Option<AuthoringReport>, String>)
    ensures
        match fixture_target_problem(request.fixture@, request.path@) {
            Some(e) => r matches Err(x) && x@ == e,
            None => if request.confirm {
                r matches Ok(None)
            } else {
                r matches Ok(Some(b)) && {
                    &&& b.status@ == "blocked"@
                    &&& opt_string_view(b.pack) == Some(request.project@)
                    &&& opt_string_view(b.path) == Some(expected_fixture_path(*request))
                    &&& b.problems@.len() == 1
                    &&& b.problems@[0]@ == "delete_fixture_file requires confirm=true"@
                    &&& b.next_actions@.len() == 1
                    &&& b.next_actions@[0]@
                        == "Re-read the fixture file, then retry with confirm=true if deletion is intended."@
                }
            },
        },
{
    check_fixture_target(request.fixture.as_str(), request.path.as_str())?;
    if request.confirm {
        return Ok(None);
    }
    let a = join_path(request.packs_dir.as_str(), request.project.as_str());
    let b = join_path(a.as_str(), "stages");
    let c = join_path(b.as_str(), request.stage.as_str());
    let d = join_path(c.as_str(), "fixtures");
    let e = join_path(d.as_str(), request.fixture.as_str());
    let expected = join_path(e.as_str(), request.path.as_str());
    let mut problems: Vec<String> = Vec::new();
    problems.push(String::from_str("delete_fixture_file requires confirm=true"));
    let mut next: Vec<String> = Vec::new();
    next.push(String::from_str("Re-read the fixture file, then retry with confirm=true if deletion is intended."));
    Ok(
        Some(
            AuthoringReport::blocked(
                Some(crate::text::copy_string(&request.project)),
                Some(expected.as_str()),
                problems,
                next,
            ),
        ),
    )
}

/// What deleting a fixture file reports, from how opening its way went:
/// the fixture directory, the directory holding the file, and the file
/// itself, each opened without following links (`Some` is the error that
/// stopped it). The first failure is reported blocked; where every open
/// succeeded, this is the report to give once the file is removed.
pub fn fixture_deletion_report(
    pack: String,
    path: &str,
    fixture_dir_error: Option<String>,
    parent_error: Option<String>,
    file_error: Option<String>,
) -> (r: AuthoringReport)
    ensures
        opt_string_view(r.pack) == Some(pack@),
        opt_string_view(r.path) == Some(path@),
        r.next_actions@.len() == 1,
        match (fixture_dir_error, parent_error, file_error) {
            (Some(e), _, _) => r.status@ == "blocked"@ && r.problems@.len() == 1 && r.problems@[0]@ == e@
                && r.next_actions@[0]@ == "Fix the fixture path and retry without symbolic links."@,
            (None, Some(e), _) => r.status@ == "blocked"@ && r.problems@.len() == 1 && r.problems@[0]@
                == "fixture file cannot be opened safely: "@ + e@ && r.next_actions@[0]@
                == "List the fixture again and choose an existing regular file."@,
            (None, None, Some(e)) => r.status@ == "blocked"@ && r.problems@.len() == 1 && r.problems@[0]@
                == "delete target is not a regular file: "@ + e@ && r.next_actions@[0]@
                == "Choose one existing regular file beneath the named fixture."@,
            (None, None, None) => r.status@ == "ok"@ && r.problems@.len() == 0 && r.next_actions@[0]@
                == "Re-list the fixture and update tests or benchmarks that referenced this file."@,
        },
{
    let (problem, next) = match (fixture_dir_error, parent_error, file_error) {
        (Some(e), _, _) => (e, "Fix the fixture path and retry without symbolic links."),
        (None, Some(e), _) => {
            let mut m: Vec<char> = Vec::new();
            push_str(&mut m, "fixture file cannot be opened safely: ");
            push_str(&mut m, e.as_str());
            (string_of(m.as_slice()), "List the fixture again and choose an existing regular file.")
        },
        (None, None, Some(e)) => {
            let mut m: Vec<char> = Vec::new();
            push_str(&mut m, "delete target is not a regular file: ");
            push_str(&mut m, e.as_str());
            (string_of(m.as_slice()), "Choose one existing regular file beneath the named fixture.")
        },
        (None, None, None) => {
            let mut next: Vec<String> = Vec::new();
            next.push(String::from_str("Re-list the fixture and update tests or benchmarks that referenced this file."));
            return AuthoringReport::ok(pack, path, next);
        },
    };
    let mut problems: Vec<String> = Vec::new();
    problems.push(problem);
    let mut actions: Vec<String> = Vec::new();
    actions.push(String::from_str(next));
    AuthoringReport::blocked(Some(pack), Some(path), problems, actions)
}

/// A stage's structured data file: its tests, or its benchmarks.
#[derive(Debug, Clone, Copy, PartialEq, Eq, Structural)]
pub enum StageData {
    Tests,
    Benchmarks,
}

pub open spec fn data_file(kind: StageData) -> Seq<char> {
    match kind {
        StageData::Tests => "tests.yaml"@,
        StageData::Benchmarks => "benchmarks.yaml"@,
    }
}

pub open spec fn data_label(kind: StageData) -> Seq<char> {
    match kind {
        StageData::Tests => "tests YAML"@,
        StageData::Benchmarks => "benchmarks YAML"@,
    }
}

pub open spec fn data_written_next(kind: StageData) -> Seq<char> {
    match kind {
        StageData::Tests => "Run check_reference after the test suite is complete."@,
        StageData::Benchmarks => "Run the benchmark in a copied learner project before publishing."@,
    }
}

/// What replacing a stage's structured data comes to: a write to make, or
/// a refusal that changes nothing.
#[derive(Debug)]
pub enum DataPlan {
    Write(PlannedWrite),
    Blocked(AuthoringReport),
}

/// Plan replacing a stage's tests or benchmarks with `source`, the YAML
/// the structured definitions serialise to, given the problems validating
/// it found: an unknown stage or content that is blank or over the limit is
/// an error; any problem blocks with nothing changed; otherwise the file
/// goes at the stage's `tests.yaml` or `benchmarks.yaml`.
pub fn plan_stage_data(
    pack: &LoadedPack,
    project: &str,
    stage_id: &str,
    kind: StageData,
    source: &str,
    problems: Vec<String>,
) -> (r: Result<DataPlan, String>)
    ensures
        match stage_position(pack.manifest.stages@, stage_id@) {
            None => r matches Err(e) && e@ == missing_stage_message(pack.manifest.id@, stage_id@),
            Some(k) => if trim(source@).len() == 0 {
                r matches Err(e) && e@ == data_label(kind) + " must not be empty"@
            } else if byte_count(source@) > max_authored_bytes() {
                r matches Err(e) && e@ == data_label(kind) + " exceeds the 1048576 byte authoring limit"@
            } else if problems@.len() > 0 {
                r matches Ok(DataPlan::Blocked(b)) && {
                    &&& b.status@ == "blocked"@
                    &&& opt_string_view(b.pack) == Some(pack.manifest.id@)
                    &&& opt_string_view(b.path) == Some(pack.root@)
                    &&& b.problems == problems
                    &&& b.next_actions@.len() == 1
                    &&& b.next_actions@[0]@ == "Fix the structured definitions; no file was changed."@
                }
            } else {
                r matches Ok(DataPlan::Write(w)) && {
                    let rel = path_join(pack.manifest.stages@[k].path@, data_file(kind));
                    &&& w.relative@ == rel
                    &&& w.path@ == path_join(pack.root@, rel)
                    &&& w.report.status@ == "ok"@
                    &&& opt_string_view(w.report.pack) == Some(project@)
                    &&& opt_string_view(w.report.path) == Some(w.path@)
                    &&& w.report.next_actions@.len() == 1
                    &&& w.report.next_actions@[0]@ == data_written_next(kind)
                }
            },
        },
{
    let stage = require_stage(pack, stage_id)?;
    let label = match kind {
        StageData::Tests => "tests YAML",
        StageData::Benchmarks => "benchmarks YAML",
    };
    validate_authored_content(label, source, false)?;
    if problems.len() > 0 {
        let mut next: Vec<String> = Vec::new();
        next.push(String::from_str("Fix the structured definitions; no file was changed."));
        let report = AuthoringReport::blocked(
            Some(crate::text::copy_string(&pack.manifest.id)),
            Some(pack.root.as_str()),
            problems,
            next,
        );
        return Ok(DataPlan::Blocked(report));
    }
    let file = match kind {
        StageData::Tests => "tests.yaml",
        StageData::Benchmarks => "benchmarks.yaml",
    };
    let relative = join_path(stage.path.as_str(), file);
    let path = join_path(pack.root.as_str(), relative.as_str());
    let mut next: Vec<String> = Vec::new();
    next.push(
        String::from_str(
            match kind {
                StageData::Tests => "Run check_reference after the test suite is complete.",
                StageData::Benchmarks => "Run the benchmark in a copied learner project before publishing.",
            },
        ),
    );
    let report = AuthoringReport::ok(String::from_str(project), path.as_str(), next);
    Ok(DataPlan::Write(PlannedWrite { relative, path, report }))
}

/// Why reading a stage's data file fails, if it does: it could not be
/// opened, is over the limit, is not UTF-8, grew past the limit, does not
/// parse, or holds no entry. `entries` is the number of entries parsed, or
/// the parser's error.
pub open spec fn data_read_problem(
    kind: StageData,
    opened: Result<u64, String>,
    text: Result<String, String>,
    entries: Result<usize, String>,
) -> Option<Seq<char>> {
    let what: Seq<char> = match kind {
        StageData::Tests => "stage tests"@,
        StageData::Benchmarks => "stage benchmarks"@,
    };
    match opened {
        Err(e) => Some(e@),
        Ok(size) => if size > max_authored_bytes() {
            Some("file exceeds the 1048576 byte authored-text limit"@)
        } else {
            match text {
                Err(u) => Some(what + " is not valid UTF-8: "@ + u@),
                Ok(t) => if byte_count(t@) > max_authored_bytes() {
                    Some("file exceeds the 1048576 byte authored-text limit"@)
                } else {
                    match entries {
                        Err(p) => Some(data_file(kind) + " is malformed: "@ + p@),
                        Ok(n) => if n == 0 {
                            match kind {
                                StageData::Tests => Some("tests.yaml must contain at least one test"@),
                                StageData::Benchmarks => Some("benchmarks.yaml must contain at least one benchmark"@),
                            }
                        } else {
                            None
                        },
                    }
                },
            }
        },
    }
}

/// The report of reading a stage's tests or benchmarks at `path`, and
/// whether the parsed data goes with it. Benchmarks are optional: a stage
/// without the file reports that, with no data; otherwise the file is read
/// and parsed, and any failure is reported blocked.
pub fn stage_data_read_report(
    pack: String,
    path: &str,
    kind: StageData,
    present: bool,
    opened: Result<u64, String>,
    text: Result<String, String>,
    entries: Result<usize, String>,
) -> (r: (AuthoringReport, bool))
    ensures
        opt_string_view(r.0.pack) == Some(pack@),
        opt_string_view(r.0.path) == Some(path@),
        r.0.next_actions@.len() == 1,
        kind == StageData::Benchmarks && !present ==> {
            &&& r.0.status@ == "ok"@
            &&& r.0.problems@.len() == 0
            &&& r.0.next_actions@[0]@ == "This optional stage has no benchmarks.yaml file."@
            &&& !r.1
        },
        !(kind == StageData::Benchmarks && !present) ==> match data_read_problem(kind, opened, text, entries) {
            Some(problem) => {
                &&& r.0.status@ == "blocked"@
                &&& r.0.problems@.len() == 1
                &&& r.0.problems@[0]@ == problem
                &&& r.0.next_actions@[0]@ == read_blocked_next()
                &&& !r.1
            },
            None => {
                &&& r.0.status@ == "ok"@
                &&& r.0.problems@.len() == 0
                &&& r.0.next_actions@[0]@ == match kind {
                    StageData::Tests => "Modify this tests array and pass it unchanged otherwise to replace_stage_tests."@,
                    StageData::Benchmarks => "Pass both arrays to replace_stage_benchmarks so performance gates are preserved."@,
                }
                &&& r.1
            },
        },
{
    if kind == StageData::Benchmarks && !present {
        let mut next: Vec<String> = Vec::new();
        next.push(String::from_str("This optional stage has no benchmarks.yaml file."));
        return (AuthoringReport::ok(pack, path, next), false);
    }
    let problem: String = match opened {
        Err(e) => e,
        Ok(size) => if size > MAX_AUTHORED_TEXT_BYTES {
            String::from_str("file exceeds the 1048576 byte authored-text limit")
        } else {
            match text {
                Err(u) => {
                    let mut m: Vec<char> = Vec::new();
                    push_str(
                        &mut m,
                        match kind {
                            StageData::Tests => "stage tests",
                            StageData::Benchmarks => "stage benchmarks",
                        },
                    );
                    push_str(&mut m, " is not valid UTF-8: ");
                    push_str(&mut m, u.as_str());
                    string_of(m.as_slice())
                },
                Ok(t) => {
                    let chars = chars_of(t.as_str());
                    if exceeds_bytes(chars.as_slice(), 1048576) {
                        String::from_str("file exceeds the 1048576 byte authored-text limit")
                    } else {
                        match entries {
                            Err(p) => {
                                let mut m: Vec<char> = Vec::new();
                                push_str(
                                    &mut m,
                                    match kind {
                                        StageData::Tests => "tests.yaml",
                                        StageData::Benchmarks => "benchmarks.yaml",
                                    },
                                );
                                push_str(&mut m, " is malformed: ");
                                push_str(&mut m, p.as_str());
                                string_of(m.as_slice())
                            },
                            Ok(n) => if n == 0 {
                                String::from_str(
                                    match kind {
                                        StageData::Tests => "tests.yaml must contain at least one test",
                                        StageData::Benchmarks => "benchmarks.yaml must contain at least one benchmark",
                                    },
                                )
                            } else {
                                let mut next: Vec<String> = Vec::new();
                                next.push(
                                    String::from_str(
                                        match kind {
                                            StageData::Tests =>
                                                "Modify this tests array and pass it unchanged otherwise to replace_stage_tests.",
                                            StageData::Benchmarks =>
                                                "Pass both arrays to replace_stage_benchmarks so performance gates are preserved.",
                                        },
                                    ),
                                );
                                return (AuthoringReport::ok(pack, path, next), true);
                            },
                        }
                    }
                },
            }
        },
    };
    let mut problems: Vec<String> = Vec::new();
    problems.push(problem);
    let mut next: Vec<String> = Vec::new();
    next.push(String::from_str("Inspect the reported path and fix the pack before retrying."));
    (AuthoringReport::blocked(Some(pack), Some(path), problems, next), false)
}

/// The manifest of a loaded pack, as an authoring read reports it.
pub fn read_pack_manifest(pack: LoadedPack) -> (r: ReadPackManifestReport)
    ensures
        r.report.status@ == "ok"@,
        opt_string_view(r.report.pack) == Some(pack.manifest.id@),
        opt_string_view(r.report.path) == Some(path_join(pack.root@, "project.yaml"@)),
        r.report.next_actions@.len() == 1,
        r.report.next_actions@[0]@
            == "Read stage documents, tests, benchmarks, and fixtures before mutating the pack."@,
        r.manifest == Some(pack.manifest),
{
    let path = join_path(pack.root.as_str(), "project.yaml");
    let mut next: Vec<String> = Vec::new();
    next.push(
        String::from_str("Read stage documents, tests, benchmarks, and fixtures before mutating the pack."),
    );
    let id = crate::text::copy_string(&pack.manifest.id);
    let report = AuthoringReport::ok(id, path.as_str(), next);
    ReadPackManifestReport { report, manifest: Some(pack.manifest) }
}

/// The first thing wrong with a metadata update, checked in the order the
/// fields come: something must change, and each given value must be
/// acceptable; topics must number between one and 256.
pub open spec fn metadata_problem(request: UpdatePackMetadataRequest) -> Option<Seq<char>> {
    if request.name is None && request.description is None && request.version is None
        && request.topics is None {
        Some("at least one pack metadata field must be provided"@)
    } else if request.name is Some && text_problem("pack name"@, request.name->0@) is Some {
        text_problem("pack name"@, request.name->0@)
    } else if request.description is Some && text_problem(
        "pack description"@,
        request.description->0@,
    ) is Some {
        text_problem("pack description"@, request.description->0@)
    } else if request.version is Some && text_problem("pack version"@, request.version->0@) is Some {
        text_problem("pack version"@, request.version->0@)
    } else {
        match request.topics {
            Some(topics) => if topics@.len() == 0 {
                Some("pack topics must contain at least one non-empty value"@)
            } else if topics@.len() > 256 {
                Some("pack topics exceed the 256 item authoring limit"@)
            } else {
                first_topic_problem(topics@)
            },
            None => None,
        }
    }
}

pub open spec fn first_topic_problem(topics: Seq<String>) -> Option<Seq<char>>
    decreases topics.len(),
{
    if topics.len() == 0 {
        None
    } else if text_problem("pack topic"@, topics[0]@) is Some {
        text_problem("pack topic"@, topics[0]@)
    } else {
        first_topic_problem(topics.drop_first())
    }
}

fn copy_strings(v: &Vec<String>) -> (r: Vec<String>)
    ensures
        r@.len() == v@.len(),
        forall|i: int| 0 <= i < v@.len() ==> #[trigger] r@[i]@ == v@[i]@,
{
    let mut out: Vec<String> = Vec::new();
    let mut i: usize = 0;
    while i < v.len()
        invariant
            i <= v@.len(),
            out@.len() == i,
            forall|j: int| 0 <= j < i ==> #[trigger] out@[j]@ == v@[j]@,
        decreases v@.len() - i,
    {
        out.push(crate::text::copy_string(&v[i]));
        i = i + 1;
    }
    out
}

/// Apply a metadata update to a manifest. Nothing changes unless every
/// given value is acceptable; then each given field takes its new value.
pub fn update_pack_metadata(manifest: &mut ProjectPack, request: &UpdatePackMetadataRequest) -> (r: Result<(), String>)
    ensures
        match metadata_problem(*request) {
            Some(e) => r matches Err(x) && x@ == e && *final(manifest) == *old(manifest),
            None => {
                &&& r is Ok
                &&& final(manifest).name@ == match request.name {
                    Some(n) => n@,
                    None => old(manifest).name@,
                }
                &&& final(manifest).description@ == match request.description {
                    Some(d) => d@,
                    None => old(manifest).description@,
                }
                &&& final(manifest).version@ == match request.version {
                    Some(v) => v@,
                    None => old(manifest).version@,
                }
                &&& match request.topics {
                    Some(t) => final(manifest).topics@.len() == t@.len() && forall|i: int|
                        0 <= i < t@.len() ==> #[trigger] final(manifest).topics@[i]@ == t@[i]@,
                    None => final(manifest).topics == old(manifest).topics,
                }
                &&& final(manifest).id == old(manifest).id
                &&& final(manifest).stages == old(manifest).stages
                &&& final(manifest).languages == old(manifest).languages
                &&& final(manifest).schema_version == old(manifest).schema_version
            },
        },
{
    if request.name.is_none() && request.description.is_none() && request.version.is_none()
        && request.topics.is_none() {
        return Err(String::from_str("at least one pack metadata field must be provided"));
    }
    if let Some(name) = &request.name {
        validate_nonempty_text("pack name", name.as_str())?;
    }
    if let Some(description) = &request.description {
        validate_nonempty_text("pack description", description.as_str())?;
    }
    if let Some(version) = &request.version {
        validate_nonempty_text("pack version", version.as_str())?;
    }
    if let Some(topics) = &request.topics {
        if topics.len() == 0 {
            return Err(String::from_str("pack topics must contain at least one non-empty value"));
        }
        if topics.len() > 256 {
            return Err(String::from_str("pack topics exceed the 256 item authoring limit"));
        }
        let mut i: usize = 0;
        assert(topics@.skip(0) =~= topics@);
        while i < topics.len()
            invariant
                i <= topics@.len(),
                0 < topics@.len() <= 256,
                request.topics == Some(*topics),
                request.name is Some ==> text_problem("pack name"@, request.name->0@) is None,
                request.description is Some ==> text_problem("pack description"@, request.description->0@) is None,
                request.version is Some ==> text_problem("pack version"@, request.version->0@) is None,
                first_topic_problem(topics@) == first_topic_problem(topics@.skip(i as int)),
            decreases topics@.len() - i,
        {
            assert(topics@.skip(i as int).drop_first() =~= topics@.skip(i + 1));
            assert(topics@.skip(i as int)[0] == topics@[i as int]);
            validate_nonempty_text("pack topic", topics[i].as_str())?;
            i = i + 1;
        }
    }
    if let Some(name) = &request.name {
        manifest.name = crate::text::copy_string(name);
    }
    if let Some(description) = &request.description {
        manifest.description = crate::text::copy_string(description);
    }
    if let Some(version) = &request.version {
        manifest.version = crate::text::copy_string(version);
    }
    if let Some(topics) = &request.topics {
        manifest.topics = copy_strings(topics);
    }
    Ok(())
}

/// Rename a stage: the new title must be acceptable and the stage must
/// exist; the first stage with the identifier takes the title.
pub fn update_stage_metadata(manifest: &mut ProjectPack, project: &str, stage_id: &str, title: &str) -> (r: Result<(), String>)
    ensures
        text_problem("stage title"@, title@) matches Some(e) ==> (r matches Err(x) && x@ == e
            && *final(manifest) == *old(manifest)),
        text_problem("stage title"@, title@) is None ==> match stage_position(old(manifest).stages@, stage_id@) {
            None => r matches Err(x) && x@ == missing_stage_message(project@, stage_id@)
                && *final(manifest) == *old(manifest),
            Some(k) => {
                &&& r is Ok
                &&& final(manifest).stages@.len() == old(manifest).stages@.len()
                &&& final(manifest).stages@[k].title@ == title@
                &&& final(manifest).stages@[k].id@ == old(manifest).stages@[k].id@
                &&& final(manifest).stages@[k].path@ == old(manifest).stages@[k].path@
                &&& forall|j: int| 0 <= j < old(manifest).stages@.len() && j != k ==> #[trigger] final(manifest).stages@[j]
                    == old(manifest).stages@[j]
                &&& final(manifest).id == old(manifest).id
                &&& final(manifest).name == old(manifest).name
            },
        },
{
    validate_nonempty_text("stage title", title)?;
    let k = match manifest.stage_index(stage_id) {
        Some(k) => k,
        None => {
            let mut m: Vec<char> = Vec::new();
            push_str(&mut m, "pack ");
            push_str(&mut m, project);
            push_str(&mut m, " does not contain stage ");
            push_str(&mut m, stage_id);
            return Err(string_of(m.as_slice()));
        },
    };
    proof {
        crate::pack::lemma_stage_position(manifest.stages@, stage_id@);
    }
    let mut stages: Vec<StageSpec> = Vec::new();
    std::mem::swap(&mut stages, &mut manifest.stages);
    let ghost before = stages@;
    let old_stage = stages[k].clone_stage();
    let renamed = StageSpec { id: old_stage.id, title: String::from_str(title), path: old_stage.path };
    stages.set(k, renamed);
    std::mem::swap(&mut stages, &mut manifest.stages);
    Ok(())
}

/// The placeholders a scaffolded stage still carries, if any.
pub open spec fn stage_placeholder_problems(
    stage_id: Seq<char>,
    instructions: Option<Seq<char>>,
    tests: Option<Seq<char>>,
) -> Seq<Seq<char>> {
    crate::fidelity::if_then(
        instructions matches Some(t) && (contains(crate::text::lower_all(t), "replace me"@) || contains(
            crate::text::lower_all(t),
            "replace-this-command"@,
        )),
        "stage "@ + stage_id + " instructions still contain scaffold placeholder text"@,
    ) + crate::fidelity::if_then(
        tests matches Some(t) && contains(t, "replace-me"@),
        "stage "@ + stage_id + " tests still contain scaffold placeholder text"@,
    )
}

pub open spec fn placeholder_problems(
    stages: Seq<StageSpec>,
    sources: Seq<(Option<String>, Option<String>)>,
) -> Seq<Seq<char>>
    decreases stages.len(),
{
    if stages.len() == 0 {
        Seq::empty()
    } else {
        placeholder_problems(stages.drop_last(), sources) + stage_placeholder_problems(
            stages.last().id@,
            opt_string_view(sources[stages.len() - 1].0),
            opt_string_view(sources[stages.len() - 1].1),
        )
    }
}

/// Everything an author should still fix in a pack: what validation found,
/// a missing README, and scaffold placeholders left in a stage's guide or
/// tests. `sources` holds, for each stage, its guide and its tests where
/// they could be read.
pub open spec fn diagnosis_problems(
    pack: LoadedPack,
    problems: Seq<Seq<char>>,
    readme_present: bool,
    sources: Seq<(Option<String>, Option<String>)>,
) -> Seq<Seq<char>> {
    problems + crate::fidelity::if_then(!readme_present, "pack README.md is missing"@) + placeholder_problems(
        pack.manifest.stages@,
        sources,
    )
}

/// Diagnose a pack for its author.
pub fn diagnose_pack(
    pack: &LoadedPack,
    problems: Vec<String>,
    readme_present: bool,
    sources: &Vec<(Option<String>, Option<String>)>,
) -> (r: AuthoringReport)
    requires
        sources@.len() == pack.manifest.stages@.len(),
    ensures
        crate::pack::string_views(r.problems@) == diagnosis_problems(
            *pack,
            crate::pack::string_views(problems@),
            readme_present,
            sources@,
        ),
        r.status@ == if r.problems@.len() == 0 {
            "ok"@
        } else {
            "blocked"@
        },
        opt_string_view(r.pack) == Some(pack.manifest.id@),
        opt_string_view(r.path) == Some(pack.root@),
        r.next_actions@.len() == 1,
        r.next_actions@[0]@ == if readme_present {
            "Run check-reference with a known-good implementation."@
        } else {
            "Add README.md explaining what learners are building and why."@
        },
{
    let mut problems = problems;
    let mut next: Vec<String> = Vec::new();
    let ghost given = crate::pack::string_views(problems@);
    if !readme_present {
        let ghost before = crate::pack::string_views(problems@);
        problems.push(String::from_str("pack README.md is missing"));
        assert(crate::pack::string_views(problems@) =~= before.push("pack README.md is missing"@));
        next.push(String::from_str("Add README.md explaining what learners are building and why."));
    } else {
        assert(crate::pack::string_views(problems@) =~= given + Seq::<Seq<char>>::empty());
    }
    let ghost base = crate::pack::string_views(problems@);
    let stages = &pack.manifest.stages;
    let mut i: usize = 0;
    while i < stages.len()
        invariant
            i <= stages@.len(),
            stages@ == pack.manifest.stages@,
            sources@.len() == stages@.len(),
            crate::pack::string_views(problems@) == base + placeholder_problems(stages@.take(i as int), sources@),
        decreases stages@.len() - i,
    {
        assert(stages@.take(i + 1).drop_last() =~= stages@.take(i as int));
        assert(stages@.take(i + 1).last() == stages@[i as int]);
        let ghost before = crate::pack::string_views(problems@);
        let instructions_placeholder = match &sources[i].0 {
            Some(t) => {
                let lower = crate::text::lowercase_chars(chars_of(t.as_str()).as_slice());
                crate::text::contains_str(lower.as_slice(), "replace me")
                    || crate::text::contains_str(lower.as_slice(), "replace-this-command")
            },
            None => false,
        };
        if instructions_placeholder {
            let mut m: Vec<char> = Vec::new();
            push_str(&mut m, "stage ");
            push_str(&mut m, stages[i].id.as_str());
            push_str(&mut m, " instructions still contain scaffold placeholder text");
            problems.push(string_of(m.as_slice()));
        }
        let ghost mid = crate::pack::string_views(problems@);
        let tests_placeholder = match &sources[i].1 {
            Some(t) => crate::text::contains_str(chars_of(t.as_str()).as_slice(), "replace-me"),
            None => false,
        };
        if tests_placeholder {
            let mut m: Vec<char> = Vec::new();
            push_str(&mut m, "stage ");
            push_str(&mut m, stages[i].id.as_str());
            push_str(&mut m, " tests still contain scaffold placeholder text");
            problems.push(string_of(m.as_slice()));
        }
        assert(crate::pack::string_views(problems@) =~= before + stage_placeholder_problems(
            stages@[i as int].id@,
            opt_string_view(sources@[i as int].0),
            opt_string_view(sources@[i as int].1),
        ));
        i = i + 1;
    }
    assert(stages@.take(i as int) =~= stages@);
    if next.len() == 0 {
        next.push(String::from_str("Run check-reference with a known-good implementation."));
    }
    let id = crate::text::copy_string(&pack.manifest.id);
    if problems.len() == 0 {
        AuthoringReport::ok(id, pack.root.as_str(), next)
    } else {
        AuthoringReport::blocked(Some(id), Some(pack.root.as_str()), problems, next)
    }
}

// ------------------------------------------------------------ tool catalogue

/// How a tool's arguments are checked: closed to the project and packs
/// directory of an authoring change (both required), closed to those of a
/// read (the packs directory optional), or open.
#[derive(Debug, Clone, Copy, PartialEq, Eq, Structural)]
pub enum ToolArguments {
    Authoring,
    Read,
    Open,
}

/// One operation the pack-authoring server offers an agent: its name and
/// description, the arguments it requires and those it also accepts, how
/// its arguments are checked, and whether it only reads, may destroy
/// authored content, and may be repeated with the same effect.
#[derive(Debug, Clone)]
pub struct ToolSpec {
    pub name: String,
    pub description: String,
    pub required_args: Vec<String>,
    pub optional_args: Vec<String>,
    pub arguments: ToolArguments,
    pub read_only: bool,
    pub destructive: bool,
    pub idempotent: bool,
}

pub open spec fn tool_view(t: ToolSpec) -> (Seq<char>, Seq<char>, Seq<Seq<char>>, Seq<Seq<char>>, ToolArguments, bool, bool, bool) {
    (
        t.name@,
        t.description@,
        crate::diagnosis::strings_view(t.required_args@),
        crate::diagnosis::strings_view(t.optional_args@),
        t.arguments,
        t.read_only,
        t.destructive,
        t.idempotent,
    )
}

pub open spec fn tools_view(t: Seq<ToolSpec>) -> Seq<(Seq<char>, Seq<char>, Seq<Seq<char>>, Seq<Seq<char>>, ToolArguments, bool, bool, bool)> {
    t.map_values(|x: ToolSpec| tool_view(x))
}

/// The catalogue of pack-authoring tools, in the order they are offered.
pub open spec fn tool_table() -> Seq<(Seq<char>, Seq<char>, Seq<Seq<char>>, Seq<Seq<char>>, ToolArguments, bool, bool, bool)> {
    seq![
        (
            "create_pack"@,
            "Scaffold a new DeltaForge pack with anti-hallucination placeholders."@,
            seq!["id"@, "name"@, "description"@, "dest"@],
            seq!["language"@, "force"@],
            ToolArguments::Open,
            false,
            true,
            false,
        ),
        (
            "add_stage"@,
            "Add a scaffold stage to an existing pack."@,
            seq!["pack_dir"@, "id"@, "title"@],
            seq!["force"@],
            ToolArguments::Open,
            false,
            true,
            false,
        ),
        (
            "update_pack_metadata"@,
            "Update selected manifest metadata for a pack in an explicit packs directory."@,
            seq!["project"@, "packs_dir"@],
            seq!["name"@, "description"@, "version"@, "topics"@],
            ToolArguments::Authoring,
            false,
            true,
            true,
        ),
        (
            "update_stage_metadata"@,
            "Rename one existing stage without changing its id or path."@,
            seq!["project"@, "packs_dir"@, "stage"@, "title"@],
            Seq::<Seq<char>>::empty(),
            ToolArguments::Authoring,
            false,
            true,
            true,
        ),
        (
            "write_stage_document"@,
            "Replace one known stage document: instructions, hints, or design_prompt."@,
            seq!["project"@, "packs_dir"@, "stage"@, "document"@, "content"@],
            Seq::<Seq<char>>::empty(),
            ToolArguments::Authoring,
            false,
            true,
            true,
        ),
        (
            "replace_stage_tests"@,
            "Validate and atomically replace a stage test suite from structured test definitions."@,
            seq!["project"@, "packs_dir"@, "stage"@, "tests"@],
            Seq::<Seq<char>>::empty(),
            ToolArguments::Authoring,
            false,
            true,
            true,
        ),
        (
            "write_fixture_file"@,
            "Create or explicitly overwrite one UTF-8 fixture file beneath a named stage fixture."@,
            seq!["project"@, "packs_dir"@, "stage"@, "fixture"@, "path"@, "content"@],
            seq!["overwrite"@],
            ToolArguments::Authoring,
            false,
            true,
            false,
        ),
        (
            "replace_stage_benchmarks"@,
            "Validate and atomically replace stage benchmarks from structured definitions."@,
            seq!["project"@, "packs_dir"@, "stage"@, "benchmarks"@],
            seq!["performance_gates"@],
            ToolArguments::Authoring,
            false,
            true,
            true,
        ),
        (
            "read_pack_manifest"@,
            "Read the complete parsed manifest for one discovered pack."@,
            seq!["project"@],
            seq!["packs_dir"@],
            ToolArguments::Read,
            true,
            false,
            true,
        ),
        (
            "read_stage_document"@,
            "Read one constrained stage document; an absent optional design prompt returns null content."@,
            seq!["project"@, "stage"@, "document"@],
            seq!["packs_dir"@],
            ToolArguments::Read,
            true,
            false,
            true,
        ),
        (
            "read_stage_tests"@,
            "Read tests.yaml as the structured tests array accepted by replace_stage_tests."@,
            seq!["project"@, "stage"@],
            seq!["packs_dir"@],
            ToolArguments::Read,
            true,
            false,
            true,
        ),
        (
            "read_stage_benchmarks"@,
            "Read the complete structured benchmarks and performance_gates accepted by replace_stage_benchmarks; an absent optional file returns null."@,
            seq!["project"@, "stage"@],
            seq!["packs_dir"@],
            ToolArguments::Read,
            true,
            false,
            true,
        ),
        (
            "list_fixture_files"@,
            "List sorted fixture names or recursively list sorted regular files and byte sizes in one fixture."@,
            seq!["project"@, "stage"@],
            seq!["packs_dir"@, "fixture"@],
            ToolArguments::Read,
            true,
            false,
            true,
        ),
        (
            "read_fixture_file"@,
            "Read one UTF-8 regular fixture file up to 1 MiB without following symlinks."@,
            seq!["project"@, "stage"@, "fixture"@, "path"@],
            seq!["packs_dir"@],
            ToolArguments::Read,
            true,
            false,
            true,
        ),
        (
            "delete_fixture_file"@,
            "Permanently delete one confirmed regular file beneath an explicitly selected authored fixture."@,
            seq!["project"@, "packs_dir"@, "stage"@, "fixture"@, "path"@, "confirm"@],
            Seq::<Seq<char>>::empty(),
            ToolArguments::Authoring,
            false,
            true,
            false,
        ),
        (
            "diagnose_pack"@,
            "Return pack authoring gaps and next actions."@,
            seq!["project"@],
            seq!["packs_dir"@],
            ToolArguments::Open,
            true,
            false,
            true,
        ),
        (
            "validate_pack"@,
            "Validate a pack structurally."@,
            seq!["project"@],
            seq!["packs_dir"@],
            ToolArguments::Open,
            true,
            false,
            true,
        ),
        (
            "check_reference"@,
            "Run a reference solution against all pack stages."@,
            seq!["project"@, "reference"@],
            seq!["language"@, "packs_dir"@],
            ToolArguments::Open,
            false,
            false,
            false,
        ),
        (
            "inspect_packs"@,
            "List discovered packs for agent grounding."@,
            Seq::<Seq<char>>::empty(),
            seq!["packs_dir"@],
            ToolArguments::Open,
            true,
            false,
            true,
        ),
    ]
}

/// The tools that only read.
pub open spec fn read_only_tool_names() -> Seq<Seq<char>> {
    seq!["read_pack_manifest"@, "read_stage_document"@, "read_stage_tests"@, "read_stage_benchmarks"@, "list_fixture_files"@, "read_fixture_file"@, "diagnose_pack"@, "validate_pack"@, "inspect_packs"@]
}

fn owned(parts: Vec<&str>) -> (out: Vec<String>)
    ensures
        crate::diagnosis::strings_view(out@) == parts@.map_values(|p: &str| p@),
{
    let mut out: Vec<String> = Vec::new();
    let mut i: usize = 0;
    while i < parts.len()
        invariant
            i <= parts@.len(),
            crate::diagnosis::strings_view(out@) == parts@.take(i as int).map_values(|p: &str| p@),
        decreases parts@.len() - i,
    {
        let ghost before = out@;
        out.push(String::from_str(parts[i]));
        assert(crate::diagnosis::strings_view(out@) =~= crate::diagnosis::strings_view(before).push(parts@[i as int]@));
        i = i + 1;
        assert(parts@.take(i as int).map_values(|p: &str| p@) =~= parts@.take(i - 1).map_values(|p: &str| p@).push(parts@[i - 1]@));
    }
    assert(parts@.take(i as int) =~= parts@);
    out
}

fn tool(
    name: &str,
    description: &str,
    required: Vec<&str>,
    optional: Vec<&str>,
    arguments: ToolArguments,
    read_only: bool,
    destructive: bool,
    idempotent: bool,
) -> (t: ToolSpec)
    ensures
        tool_view(t) == (
            name@,
            description@,
            required@.map_values(|p: &str| p@),
            optional@.map_values(|p: &str| p@),
            arguments,
            read_only,
            destructive,
            idempotent,
        ),
{
    ToolSpec {
        name: String::from_str(name),
        description: String::from_str(description),
        required_args: owned(required),
        optional_args: owned(optional),
        arguments,
        read_only,
        destructive,
        idempotent,
    }
}

/// The tools the pack-authoring server offers, as its tool list shows them.
pub fn pack_tools() -> (t: Vec<ToolSpec>)
    ensures
        tools_view(t@) == tool_table(),
        t@.len() == 19,
        forall|i: int| 0 <= i < 19 ==> ((#[trigger] t@[i]).read_only <==> read_only_tool_names().contains(t@[i].name@)),
        t@[14].name@ == "delete_fixture_file"@ && t@[14].destructive && !t@[14].idempotent,
{
    let mut tools: Vec<ToolSpec> = Vec::new();
    {
        let required: Vec<&str> = vec!["id", "name", "description", "dest"];
        let optional: Vec<&str> = vec!["language", "force"];
        assert(required@ =~= seq!["id", "name", "description", "dest"]);
        assert(optional@ =~= seq!["language", "force"]);
        assert(required@.map_values(|p: &str| p@) =~= seq!["id"@, "name"@, "description"@, "dest"@]);
        assert(optional@.map_values(|p: &str| p@) =~= seq!["language"@, "force"@]);
        let ghost before = tools@;
        let t = tool(
            "create_pack",
            "Scaffold a new DeltaForge pack with anti-hallucination placeholders.",
            required,
            optional,
            ToolArguments::Open,
            false,
            true,
            false,
        );
        tools.push(t);
        assert(tools_view(tools@) =~= tools_view(before).push(tool_view(t)));
        assert(tools_view(tools@) =~= tool_table().take(1));
    }
    {
        let required: Vec<&str> = vec!["pack_dir", "id", "title"];
        let optional: Vec<&str> = vec!["force"];
        assert(required@ =~= seq!["pack_dir", "id", "title"]);
        assert(optional@ =~= seq!["force"]);
        assert(required@.map_values(|p: &str| p@) =~= seq!["pack_dir"@, "id"@, "title"@]);
        assert(optional@.map_values(|p: &str| p@) =~= seq!["force"@]);
        let ghost before = tools@;
        let t = tool(
            "add_stage",
            "Add a scaffold stage to an existing pack.",
            required,
            optional,
            ToolArguments::Open,
            false,
            true,
            false,
        );
        tools.push(t);
        assert(tools_view(tools@) =~= tools_view(before).push(tool_view(t)));
        assert(tools_view(tools@) =~= tool_table().take(2));
    }
    {
        let required: Vec<&str> = vec!["project", "packs_dir"];
        let optional: Vec<&str> = vec!["name", "description", "version", "topics"];
        assert(required@ =~= seq!["project", "packs_dir"]);
        assert(optional@ =~= seq!["name", "description", "version", "topics"]);
        assert(required@.map_values(|p: &str| p@) =~= seq!["project"@, "packs_dir"@]);
        assert(optional@.map_values(|p: &str| p@) =~= seq!["name"@, "description"@, "version"@, "topics"@]);
        let ghost before = tools@;
        let t = tool(
            "update_pack_metadata",
            "Update selected manifest metadata for a pack in an explicit packs directory.",
            required,
            optional,
            ToolArguments::Authoring,
            false,
            true,
            true,
        );
        tools.push(t);
        assert(tools_view(tools@) =~= tools_view(before).push(tool_view(t)));
        assert(tools_view(tools@) =~= tool_table().take(3));
    }
    {
        let required: Vec<&str> = vec!["project", "packs_dir", "stage", "title"];
        let optional: Vec<&str> = Vec::new();
        assert(required@ =~= seq!["project", "packs_dir", "stage", "title"]);
        assert(optional@ =~= Seq::<&str>::empty());
        assert(required@.map_values(|p: &str| p@) =~= seq!["project"@, "packs_dir"@, "stage"@, "title"@]);
        assert(optional@.map_values(|p: &str| p@) =~= Seq::<Seq<char>>::empty());
        let ghost before = tools@;
        let t = tool(
            "update_stage_metadata",
            "Rename one existing stage without changing its id or path.",
            required,
            optional,
            ToolArguments::Authoring,
            false,
            true,
            true,
        );
        tools.push(t);
        assert(tools_view(tools@) =~= tools_view(before).push(tool_view(t)));
        assert(tools_view(tools@) =~= tool_table().take(4));
    }
    {
        let required: Vec<&str> = vec!["project", "packs_dir", "stage", "document", "content"];
        let optional: Vec<&str> = Vec::new();
        assert(required@ =~= seq!["project", "packs_dir", "stage", "document", "content"]);
        assert(optional@ =~= Seq::<&str>::empty());
        assert(required@.map_values(|p: &str| p@) =~= seq!["project"@, "packs_dir"@, "stage"@, "document"@, "content"@]);
        assert(optional@.map_values(|p: &str| p@) =~= Seq::<Seq<char>>::empty());
        let ghost before = tools@;
        let t = tool(
            "write_stage_document",
            "Replace one known stage document: instructions, hints, or design_prompt.",
            required,
            optional,
            ToolArguments::Authoring,
            false,
            true,
            true,
        );
        tools.push(t);
        assert(tools_view(tools@) =~= tools_view(before).push(tool_view(t)));
        assert(tools_view(tools@) =~= tool_table().take(5));
    }
    {
        let required: Vec<&str> = vec!["project", "packs_dir", "stage", "tests"];
        let optional: Vec<&str> = Vec::new();
        assert(required@ =~= seq!["project", "packs_dir", "stage", "tests"]);
        assert(optional@ =~= Seq::<&str>::empty());
        assert(required@.map_values(|p: &str| p@) =~= seq!["project"@, "packs_dir"@, "stage"@, "tests"@]);
        assert(optional@.map_values(|p: &str| p@) =~= Seq::<Seq<char>>::empty());
        let ghost before = tools@;
        let t = tool(
            "replace_stage_tests",
            "Validate and atomically replace a stage test suite from structured test definitions.",
            required,
            optional,
            ToolArguments::Authoring,
            false,
            true,
            true,
        );
        tools.push(t);
        assert(tools_view(tools@) =~= tools_view(before).push(tool_view(t)));
        assert(tools_view(tools@) =~= tool_table().take(6));
    }
    {
        let required: Vec<&str> = vec!["project", "packs_dir", "stage", "fixture", "path", "content"];
        let optional: Vec<&str> = vec!["overwrite"];
        assert(required@ =~= seq!["project", "packs_dir", "stage", "fixture", "path", "content"]);
        assert(optional@ =~= seq!["overwrite"]);
        assert(required@.map_values(|p: &str| p@) =~= seq!["project"@, "packs_dir"@, "stage"@, "fixture"@, "path"@, "content"@]);
        assert(optional@.map_values(|p: &str| p@) =~= seq!["overwrite"@]);
        let ghost before = tools@;
        let t = tool(
            "write_fixture_file",
            "Create or explicitly overwrite one UTF-8 fixture file beneath a named stage fixture.",
            required,
            optional,
            ToolArguments::Authoring,
            false,
            true,
            false,
        );
        tools.push(t);
        assert(tools_view(tools@) =~= tools_view(before).push(tool_view(t)));
        assert(tools_view(tools@) =~= tool_table().take(7));
    }
    {
        let required: Vec<&str> = vec!["project", "packs_dir", "stage", "benchmarks"];
        let optional: Vec<&str> = vec!["performance_gates"];
        assert(required@ =~= seq!["project", "packs_dir", "stage", "benchmarks"]);
        assert(optional@ =~= seq!["performance_gates"]);
        assert(required@.map_values(|p: &str| p@) =~= seq!["project"@, "packs_dir"@, "stage"@, "benchmarks"@]);
        assert(optional@.map_values(|p: &str| p@) =~= seq!["performance_gates"@]);
        let ghost before = tools@;
        let t = tool(
            "replace_stage_benchmarks",
            "Validate and atomically replace stage benchmarks from structured definitions.",
            required,
            optional,
            ToolArguments::Authoring,
            false,
            true,
            true,
        );
        tools.push(t);
        assert(tools_view(tools@) =~= tools_view(before).push(tool_view(t)));
        assert(tools_view(tools@) =~= tool_table().take(8));
    }
    {
        let required: Vec<&str> = vec!["project"];
        let optional: Vec<&str> = vec!["packs_dir"];
        assert(required@ =~= seq!["project"]);
        assert(optional@ =~= seq!["packs_dir"]);
        assert(required@.map_values(|p: &str| p@) =~= seq!["project"@]);
        assert(optional@.map_values(|p: &str| p@) =~= seq!["packs_dir"@]);
        let ghost before = tools@;
        let t = tool(
            "read_pack_manifest",
            "Read the complete parsed manifest for one discovered pack.",
            required,
            optional,
            ToolArguments::Read,
            true,
            false,
            true,
        );
        tools.push(t);
        assert(tools_view(tools@) =~= tools_view(before).push(tool_view(t)));
        assert(tools_view(tools@) =~= tool_table().take(9));
    }
    {
        let required: Vec<&str> = vec!["project", "stage", "document"];
        let optional: Vec<&str> = vec!["packs_dir"];
        assert(required@ =~= seq!["project", "stage", "document"]);
        assert(optional@ =~= seq!["packs_dir"]);
        assert(required@.map_values(|p: &str| p@) =~= seq!["project"@, "stage"@, "document"@]);
        assert(optional@.map_values(|p: &str| p@) =~= seq!["packs_dir"@]);
        let ghost before = tools@;
        let t = tool(
            "read_stage_document",
            "Read one constrained stage document; an absent optional design prompt returns null content.",
            required,
            optional,
            ToolArguments::Read,
            true,
            false,
            true,
        );
        tools.push(t);
        assert(tools_view(tools@) =~= tools_view(before).push(tool_view(t)));
        assert(tools_view(tools@) =~= tool_table().take(10));
    }
    {
        let required: Vec<&str> = vec!["project", "stage"];
        let optional: Vec<&str> = vec!["packs_dir"];
        assert(required@ =~= seq!["project", "stage"]);
        assert(optional@ =~= seq!["packs_dir"]);
        assert(required@.map_values(|p: &str| p@) =~= seq!["project"@, "stage"@]);
        assert(optional@.map_values(|p: &str| p@) =~= seq!["packs_dir"@]);
        let ghost before = tools@;
        let t = tool(
            "read_stage_tests",
            "Read tests.yaml as the structured tests array accepted by replace_stage_tests.",
            required,
            optional,
            ToolArguments::Read,
            true,
            false,
            true,
        );
        tools.push(t);
        assert(tools_view(tools@) =~= tools_view(before).push(tool_view(t)));
        assert(tools_view(tools@) =~= tool_table().take(11));
    }
    {
        let required: Vec<&str> = vec!["project", "stage"];
        let optional: Vec<&str> = vec!["packs_dir"];
        assert(required@ =~= seq!["project", "stage"]);
        assert(optional@ =~= seq!["packs_dir"]);
        assert(required@.map_values(|p: &str| p@) =~= seq!["project"@, "stage"@]);
        assert(optional@.map_values(|p: &str| p@) =~= seq!["packs_dir"@]);
        let ghost before = tools@;
        let t = tool(
            "read_stage_benchmarks",
            "Read the complete structured benchmarks and performance_gates accepted by replace_stage_benchmarks; an absent optional file returns null.",
            required,
            optional,
            ToolArguments::Read,
            true,
            false,
            true,
        );
        tools.push(t);
        assert(tools_view(tools@) =~= tools_view(before).push(tool_view(t)));
        assert(tools_view(tools@) =~= tool_table().take(12));
    }
    {
        let required: Vec<&str> = vec!["project", "stage"];
        let optional: Vec<&str> = vec!["packs_dir", "fixture"];
        assert(required@ =~= seq!["project", "stage"]);
        assert(optional@ =~= seq!["packs_dir", "fixture"]);
        assert(required@.map_values(|p: &str| p@) =~= seq!["project"@, "stage"@]);
        assert(optional@.map_values(|p: &str| p@) =~= seq!["packs_dir"@, "fixture"@]);
        let ghost before = tools@;
        let t = tool(
            "list_fixture_files",
            "List sorted fixture names or recursively list sorted regular files and byte sizes in one fixture.",
            required,
            optional,
            ToolArguments::Read,
            true,
            false,
            true,
        );
        tools.push(t);
        assert(tools_view(tools@) =~= tools_view(before).push(tool_view(t)));
        assert(tools_view(tools@) =~= tool_table().take(13));
    }
    {
        let required: Vec<&str> = vec!["project", "stage", "fixture", "path"];
        let optional: Vec<&str> = vec!["packs_dir"];
        assert(required@ =~= seq!["project", "stage", "fixture", "path"]);
        assert(optional@ =~= seq!["packs_dir"]);
        assert(required@.map_values(|p: &str| p@) =~= seq!["project"@, "stage"@, "fixture"@, "path"@]);
        assert(optional@.map_values(|p: &str| p@) =~= seq!["packs_dir"@]);
        let ghost before = tools@;
        let t = tool(
            "read_fixture_file",
            "Read one UTF-8 regular fixture file up to 1 MiB without following symlinks.",
            required,
            optional,
            ToolArguments::Read,
            true,
            false,
            true,
        );
        tools.push(t);
        assert(tools_view(tools@) =~= tools_view(before).push(tool_view(t)));
        assert(tools_view(tools@) =~= tool_table().take(14));
    }
    {
        let required: Vec<&str> = vec!["project", "packs_dir", "stage", "fixture", "path", "confirm"];
        let optional: Vec<&str> = Vec::new();
        assert(required@ =~= seq!["project", "packs_dir", "stage", "fixture", "path", "confirm"]);
        assert(optional@ =~= Seq::<&str>::empty());
        assert(required@.map_values(|p: &str| p@) =~= seq!["project"@, "packs_dir"@, "stage"@, "fixture"@, "path"@, "confirm"@]);
        assert(optional@.map_values(|p: &str| p@) =~= Seq::<Seq<char>>::empty());
        let ghost before = tools@;
        let t = tool(
            "delete_fixture_file",
            "Permanently delete one confirmed regular file beneath an explicitly selected authored fixture.",
            required,
            optional,
            ToolArguments::Authoring,
            false,
            true,
            false,
        );
        tools.push(t);
        assert(tools_view(tools@) =~= tools_view(before).push(tool_view(t)));
        assert(tools_view(tools@) =~= tool_table().take(15));
    }
    {
        let required: Vec<&str> = vec!["project"];
        let optional: Vec<&str> = vec!["packs_dir"];
        assert(required@ =~= seq!["project"]);
        assert(optional@ =~= seq!["packs_dir"]);
        assert(required@.map_values(|p: &str| p@) =~= seq!["project"@]);
        assert(optional@.map_values(|p: &str| p@) =~= seq!["packs_dir"@]);
        let ghost before = tools@;
        let t = tool(
            "diagnose_pack",
            "Return pack authoring gaps and next actions.",
            required,
            optional,
            ToolArguments::Open,
            true,
            false,
            true,
        );
        tools.push(t);
        assert(tools_view(tools@) =~= tools_view(before).push(tool_view(t)));
        assert(tools_view(tools@) =~= tool_table().take(16));
    }
    {
        let required: Vec<&str> = vec!["project"];
        let optional: Vec<&str> = vec!["packs_dir"];
        assert(required@ =~= seq!["project"]);
        assert(optional@ =~= seq!["packs_dir"]);
        assert(required@.map_values(|p: &str| p@) =~= seq!["project"@]);
        assert(optional@.map_values(|p: &str| p@) =~= seq!["packs_dir"@]);
        let ghost before = tools@;
        let t = tool(
            "validate_pack",
            "Validate a pack structurally.",
            required,
            optional,
            ToolArguments::Open,
            true,
            false,
            true,
        );
        tools.push(t);
        assert(tools_view(tools@) =~= tools_view(before).push(tool_view(t)));
        assert(tools_view(tools@) =~= tool_table().take(17));
    }
    {
        let required: Vec<&str> = vec!["project", "reference"];
        let optional: Vec<&str> = vec!["language", "packs_dir"];
        assert(required@ =~= seq!["project", "reference"]);
        assert(optional@ =~= seq!["language", "packs_dir"]);
        assert(required@.map_values(|p: &str| p@) =~= seq!["project"@, "reference"@]);
        assert(optional@.map_values(|p: &str| p@) =~= seq!["language"@, "packs_dir"@]);
        let ghost before = tools@;
        let t = tool(
            "check_reference",
            "Run a reference solution against all pack stages.",
            required,
            optional,
            ToolArguments::Open,
            false,
            false,
            false,
        );
        tools.push(t);
        assert(tools_view(tools@) =~= tools_view(before).push(tool_view(t)));
        assert(tools_view(tools@) =~= tool_table().take(18));
    }
    {
        let required: Vec<&str> = Vec::new();
        let optional: Vec<&str> = vec!["packs_dir"];
        assert(required@ =~= Seq::<&str>::empty());
        assert(optional@ =~= seq!["packs_dir"]);
        assert(required@.map_values(|p: &str| p@) =~= Seq::<Seq<char>>::empty());
        assert(optional@.map_values(|p: &str| p@) =~= seq!["packs_dir"@]);
        let ghost before = tools@;
        let t = tool(
            "inspect_packs",
            "List discovered packs for agent grounding.",
            required,
            optional,
            ToolArguments::Open,
            true,
            false,
            true,
        );
        tools.push(t);
        assert(tools_view(tools@) =~= tools_view(before).push(tool_view(t)));
        assert(tools_view(tools@) =~= tool_table().take(19));
    }
    assert(tools_view(tools@) =~= tool_table());
    proof {
        law_tool_annotations();
        assert forall|i: int| 0 <= i < 19 implies ((#[trigger] tools@[i]).read_only <==> read_only_tool_names().contains(
            tools@[i].name@,
        )) by {
            assert(tool_view(tools@[i]) == tool_table()[i]);
        }
        assert(tool_view(tools@[14]) == tool_table()[14]);
    }
    tools
}

/// The catalogue's annotations agree: a tool is marked read-only exactly
/// when it is one of the reading tools, and no read-only tool is marked
/// destructive.
pub proof fn law_tool_annotations()
    ensures
        tool_table().len() == 19,
        forall|i: int|
            0 <= i < 19 ==> ((#[trigger] tool_table()[i]).5 <==> read_only_tool_names().contains(tool_table()[i].0)),
        forall|i: int| 0 <= i < 19 ==> (#[trigger] tool_table()[i]).5 ==> !tool_table()[i].6,
{
    let t = tool_table();
    let r = read_only_tool_names();
    assert forall|i: int| 0 <= i < 19 implies ((#[trigger] t[i]).5 <==> r.contains(t[i].0)) by {
        if t[i].5 {
            assert(exists|j: int| 0 <= j < r.len() && r[j] == t[i].0);
        } else {
            assert forall|j: int| 0 <= j < r.len() implies r[j] != t[i].0 by {
                reveal_strlit("create_pack");
                reveal_strlit("add_stage");
                reveal_strlit("update_pack_metadata");
                reveal_strlit("update_stage_metadata");
                reveal_strlit("write_stage_document");
                reveal_strlit("replace_stage_tests");
                reveal_strlit("write_fixture_file");
                reveal_strlit("replace_stage_benchmarks");
                reveal_strlit("delete_fixture_file");
                reveal_strlit("check_reference");
                reveal_strlit("read_pack_manifest");
                reveal_strlit("read_stage_document");
                reveal_strlit("read_stage_tests");
                reveal_strlit("read_stage_benchmarks");
                reveal_strlit("list_fixture_files");
                reveal_strlit("read_fixture_file");
                reveal_strlit("diagnose_pack");
                reveal_strlit("validate_pack");
                reveal_strlit("inspect_packs");
                if r[j] == t[i].0 {
                    assert(r[j][0] == t[i].0[0]);
                    assert(r[j][1] == t[i].0[1]);
                    assert(r[j][2] == t[i].0[2]);
                }
            }
        }
    }
}

/// The arguments a tool accepts: those it requires, then those it also
/// takes.
pub open spec fn accepted_args(t: ToolSpec) -> Seq<Seq<char>> {
    crate::diagnosis::strings_view(t.required_args@) + crate::diagnosis::strings_view(t.optional_args@)
}

/// The first argument a tool with closed arguments does not accept, in the
/// order given.
pub open spec fn first_unknown(keys: Seq<Seq<char>>, accepted: Seq<Seq<char>>) -> Option<Seq<char>>
    decreases keys.len(),
{
    if keys.len() == 0 {
        None
    } else if !accepted.contains(keys[0]) {
        Some(keys[0])
    } else {
        first_unknown(keys.drop_first(), accepted)
    }
}

/// Refuse an argument that a tool with closed arguments does not accept;
/// a tool with open arguments takes any.
pub fn check_tool_arguments(tool: &ToolSpec, keys: &Vec<String>) -> (r: Result<(), String>)
    ensures
        tool.arguments == ToolArguments::Open ==> r is Ok,
        tool.arguments != ToolArguments::Open ==> match first_unknown(
            crate::diagnosis::strings_view(keys@),
            accepted_args(*tool),
        ) {
            Some(k) => r matches Err(e) && e@ == "unknown tool argument "@ + k,
            None => r is Ok,
        },
{
    if tool.arguments == ToolArguments::Open {
        return Ok(());
    }
    let ghost ks = crate::diagnosis::strings_view(keys@);
    let ghost acc = accepted_args(*tool);
    let mut i: usize = 0;
    assert(ks.skip(0) =~= ks);
    while i < keys.len()
        invariant
            i <= keys@.len(),
            ks == crate::diagnosis::strings_view(keys@),
            acc == accepted_args(*tool),
            tool.arguments != ToolArguments::Open,
            first_unknown(ks, acc) == first_unknown(ks.skip(i as int), acc),
        decreases keys@.len() - i,
    {
        let ghost tail = ks.skip(i as int);
        assert(tail[0] == keys@[i as int]@);
        assert(tail.drop_first() =~= ks.skip(i + 1));
        let known = crate::pack::listed(&tool.required_args, keys[i].as_str()) || crate::pack::listed(
            &tool.optional_args,
            keys[i].as_str(),
        );
        proof {
            let req = crate::diagnosis::strings_view(tool.required_args@);
            let opt = crate::diagnosis::strings_view(tool.optional_args@);
            if known {
                if exists|j: int| 0 <= j < tool.required_args@.len() && (#[trigger] tool.required_args@[j])@ == keys@[i as int]@ {
                    let j = choose|j: int| 0 <= j < tool.required_args@.len() && (#[trigger] tool.required_args@[j])@ == keys@[i as int]@;
                    assert(acc[j] == req[j]);
                } else {
                    let j = choose|j: int| 0 <= j < tool.optional_args@.len() && (#[trigger] tool.optional_args@[j])@ == keys@[i as int]@;
                    assert(acc[req.len() + j] == opt[j]);
                }
            } else {
                assert forall|j: int| 0 <= j < acc.len() implies acc[j] != keys@[i as int]@ by {
                    if j < req.len() {
                        assert(acc[j] == tool.required_args@[j]@);
                    } else {
                        assert(acc[j] == tool.optional_args@[j - req.len()]@);
                    }
                }
            }
        }
        if !known {
            let mut m: Vec<char> = Vec::new();
            push_str(&mut m, "unknown tool argument ");
            push_str(&mut m, keys[i].as_str());
            return Err(string_of(m.as_slice()));
        }
        i = i + 1;
    }
    Ok(())
}

/// The protocol versions the pack-authoring server speaks, oldest first.
pub open spec fn protocol_versions() -> Seq<Seq<char>> {
    seq!["2024-11-05"@, "2025-03-26"@, "2025-06-18"@, "2025-11-25"@]
}

/// The protocol version to answer an initialisation with: the one asked
/// for where it is spoken, else the newest; asking for none is an error.
pub fn negotiate_protocol(requested: Option<&str>) -> (r: Result<&'static str, String>)
    ensures
        match requested {
            None => r matches Err(e) && e@ == "initialize params.protocolVersion is required"@,
            Some(v) => r matches Ok(p) && if protocol_versions().contains(v@) {
                p@ == v@
            } else {
                p@ == "2025-11-25"@
            },
        },
{
    let v = match requested {
        Some(v) => v,
        None => return Err(String::from_str("initialize params.protocolVersion is required")),
    };
    let c = chars_of(v);
    let ghost pv = protocol_versions();
    if crate::text::chars_eq_str(c.as_slice(), "2024-11-05") {
        assert(pv[0] == v@);
        return Ok("2024-11-05");
    }
    if crate::text::chars_eq_str(c.as_slice(), "2025-03-26") {
        assert(pv[1] == v@);
        return Ok("2025-03-26");
    }
    if crate::text::chars_eq_str(c.as_slice(), "2025-06-18") {
        assert(pv[2] == v@);
        return Ok("2025-06-18");
    }
    if crate::text::chars_eq_str(c.as_slice(), "2025-11-25") {
        assert(pv[3] == v@);
        return Ok("2025-11-25");
    }
    assert(!pv.contains(v@)) by {
        assert forall|j: int| 0 <= j < pv.len() implies pv[j] != v@ by {}
    }
    Ok("2025-11-25")
}

/// What validating a pack reports: ok with no problems, blocked with the
/// problems found otherwise, and the next step for either.
pub fn validation_report(pack: String, root: &str, problems: Vec<String>) -> (r: AuthoringReport)
    ensures
        r.status@ == (if problems@.len() == 0 {
            "ok"@
        } else {
            "blocked"@
        }),
        opt_string_view(r.pack) == Some(pack@),
        opt_string_view(r.path) == Some(root@),
        r.problems == problems,
        r.next_actions@.len() == 1,
        r.next_actions@[0]@ == if problems@.len() == 0 {
            "Run check_reference with a known-good implementation."@
        } else {
            "Fix validation problems before adding more stages."@
        },
{
    let mut next: Vec<String> = Vec::new();
    if problems.len() == 0 {
        next.push(String::from_str("Run check_reference with a known-good implementation."));
        let mut r = AuthoringReport::ok(pack, root, next);
        r.problems = problems;
        r
    } else {
        next.push(String::from_str("Fix validation problems before adding more stages."));
        AuthoringReport::blocked(Some(pack), Some(root), problems, next)
    }
}

} // verus!
